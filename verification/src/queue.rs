//! Fixed-capacity channels between the receive interrupt, the digester and
//! the foreground client.
//!
//! Each channel is a single-producer, single-consumer queue of `heapless`
//! with one writer and one reader. A channel that is full turns the item
//! away and counts it, so that no loss goes unseen.

use vstd::prelude::*;
use crate::frame::{Message, MessageView};

verus! {

/// `heapless::spsc::Queue`, a ring of `N` slots that holds up to `N - 1`
/// items; nothing inside it is looked at.
#[verifier::external_type_specification]
#[verifier::external_body]
#[verifier::reject_recursive_types(T)]
pub struct ExQueue<T, const N: usize>(heapless::spsc::Queue<T, N>);

/// The most bytes that wait in an ingestion queue.
pub const INGEST_CAPACITY: usize = 255;

/// The most messages that wait in a message queue.
pub const MESSAGE_CAPACITY: usize = 7;

/// The most notices that wait in a command queue.
pub const COMMAND_CAPACITY: usize = 3;

/// What the client tells the digester about the command in flight.
#[derive(Clone, Copy, Debug, PartialEq, Eq, Structural)]
pub enum Command {
    /// A command is being sent: its response window opens.
    Issued,
    /// The command in flight ran out of time: its response window closes.
    Abandoned,
}

/// The channel was full and the item was turned away.
#[derive(Clone, Copy, Debug, PartialEq, Eq, Structural)]
pub struct Full;

/// A counter one higher, that stays at its highest value once it is there.
pub open spec fn bumped(count: u64) -> u64 {
    if count < u64::MAX {
        (count + 1) as u64
    } else {
        count
    }
}

/// The bytes waiting in a queue of bytes, oldest first.
pub uninterp spec fn ingest_bytes(q: heapless::spsc::Queue<u8, 256>) -> Seq<u8>;

/// The messages waiting in a queue of messages, oldest first.
pub uninterp spec fn queued_messages(q: heapless::spsc::Queue<Message, 8>) -> Seq<MessageView>;

/// The notices waiting in a queue of notices, oldest first.
pub uninterp spec fn queued_commands(q: heapless::spsc::Queue<Command, 4>) -> Seq<Command>;

/// `heapless::spsc::Queue::new`: the queue starts out empty.
#[verifier::external_body]
fn ingest_new() -> (q: heapless::spsc::Queue<u8, 256>)
    ensures
        ingest_bytes(q) == Seq::<u8>::empty(),
{
    heapless::spsc::Queue::new()
}

/// `heapless::spsc::Queue::enqueue`: appends the byte and reports `true`
/// unless 255 bytes are already waiting, in which case the queue is left
/// alone.
#[verifier::external_body]
fn ingest_enqueue(q: &mut heapless::spsc::Queue<u8, 256>, byte: u8) -> (accepted: bool)
    ensures
        accepted == (ingest_bytes(*old(q)).len() < 255),
        ingest_bytes(*final(q)) == if accepted {
            ingest_bytes(*old(q)).push(byte)
        } else {
            ingest_bytes(*old(q))
        },
{
    q.enqueue(byte).is_ok()
}

/// `heapless::spsc::Queue::dequeue`: removes and returns the oldest byte,
/// or returns `None` from an empty queue.
#[verifier::external_body]
fn ingest_dequeue(q: &mut heapless::spsc::Queue<u8, 256>) -> (r: Option<u8>)
    ensures
        r == if ingest_bytes(*old(q)).len() == 0 {
            None
        } else {
            Some(ingest_bytes(*old(q))[0])
        },
        ingest_bytes(*final(q)) == if r.is_some() {
            ingest_bytes(*old(q)).drop_first()
        } else {
            ingest_bytes(*old(q))
        },
{
    q.dequeue()
}

/// `heapless::spsc::Queue::new`: the queue starts out empty.
#[verifier::external_body]
fn messages_new() -> (q: heapless::spsc::Queue<Message, 8>)
    ensures
        queued_messages(q) == Seq::<MessageView>::empty(),
{
    heapless::spsc::Queue::new()
}

/// `heapless::spsc::Queue::enqueue`: appends the message and reports `true`
/// unless 7 messages are already waiting, in which case the queue is left
/// alone.
#[verifier::external_body]
fn messages_enqueue(q: &mut heapless::spsc::Queue<Message, 8>, message: Message) -> (accepted: bool)
    ensures
        accepted == (queued_messages(*old(q)).len() < 7),
        queued_messages(*final(q)) == if accepted {
            queued_messages(*old(q)).push(message@)
        } else {
            queued_messages(*old(q))
        },
{
    q.enqueue(message).is_ok()
}

/// `heapless::spsc::Queue::dequeue`: removes and returns the oldest
/// message, or returns `None` from an empty queue.
#[verifier::external_body]
fn messages_dequeue(q: &mut heapless::spsc::Queue<Message, 8>) -> (r: Option<Message>)
    ensures
        r.is_some() == (queued_messages(*old(q)).len() > 0),
        r.is_some() ==> r.unwrap()@ == queued_messages(*old(q))[0],
        queued_messages(*final(q)) == if r.is_some() {
            queued_messages(*old(q)).drop_first()
        } else {
            queued_messages(*old(q))
        },
{
    q.dequeue()
}

/// `heapless::spsc::Queue::new`: the queue starts out empty.
#[verifier::external_body]
fn commands_new() -> (q: heapless::spsc::Queue<Command, 4>)
    ensures
        queued_commands(q) == Seq::<Command>::empty(),
{
    heapless::spsc::Queue::new()
}

/// `heapless::spsc::Queue::enqueue`: appends the notice and reports `true`
/// unless 3 notices are already waiting, in which case the queue is left
/// alone.
#[verifier::external_body]
fn commands_enqueue(q: &mut heapless::spsc::Queue<Command, 4>, command: Command) -> (accepted: bool)
    ensures
        accepted == (queued_commands(*old(q)).len() < 3),
        queued_commands(*final(q)) == if accepted {
            queued_commands(*old(q)).push(command)
        } else {
            queued_commands(*old(q))
        },
{
    q.enqueue(command).is_ok()
}

/// `heapless::spsc::Queue::dequeue`: removes and returns the oldest notice,
/// or returns `None` from an empty queue.
#[verifier::external_body]
fn commands_dequeue(q: &mut heapless::spsc::Queue<Command, 4>) -> (r: Option<Command>)
    ensures
        r == if queued_commands(*old(q)).len() == 0 {
            None
        } else {
            Some(queued_commands(*old(q))[0])
        },
        queued_commands(*final(q)) == if r.is_some() {
            queued_commands(*old(q)).drop_first()
        } else {
            queued_commands(*old(q))
        },
{
    q.dequeue()
}

/// The channel from the receive interrupt to the digester.
pub struct IngestQueue {
    inner: heapless::spsc::Queue<u8, 256>,
    dropped: u64,
}

impl IngestQueue {
    /// The bytes that wait, oldest first.
    pub closed spec fn bytes(&self) -> Seq<u8> {
        ingest_bytes(self.inner)
    }

    /// How many bytes were turned away.
    pub closed spec fn dropped_count(&self) -> u64 {
        self.dropped
    }

    /// An empty channel that has turned nothing away.
    pub fn new() -> (q: IngestQueue)
        ensures
            q.bytes() == Seq::<u8>::empty(),
            q.dropped_count() == 0,
    {
        IngestQueue { inner: ingest_new(), dropped: 0 }
    }

    /// Puts a received byte at the end, or turns it away and counts it if
    /// the channel is full.
    pub fn push(&mut self, byte: u8) -> (r: Result<(), Full>)
        ensures
            r.is_ok() == (old(self).bytes().len() < INGEST_CAPACITY),
            r.is_ok() ==> final(self).bytes() == old(self).bytes().push(byte)
                && final(self).dropped_count() == old(self).dropped_count(),
            r.is_err() ==> final(self).bytes() == old(self).bytes()
                && final(self).dropped_count() == bumped(old(self).dropped_count()),
    {
        if ingest_enqueue(&mut self.inner, byte) {
            Ok(())
        } else {
            if self.dropped < u64::MAX {
                self.dropped = self.dropped + 1;
            }
            Err(Full)
        }
    }

    /// Takes the oldest byte, if there is one.
    pub fn pop(&mut self) -> (r: Option<u8>)
        ensures
            r == if old(self).bytes().len() == 0 {
                None
            } else {
                Some(old(self).bytes()[0])
            },
            final(self).bytes() == if r.is_some() {
                old(self).bytes().drop_first()
            } else {
                old(self).bytes()
            },
            final(self).dropped_count() == old(self).dropped_count(),
    {
        ingest_dequeue(&mut self.inner)
    }

    /// How many bytes were turned away since the channel was made.
    pub fn dropped(&self) -> (n: u64)
        ensures
            n == self.dropped_count(),
    {
        self.dropped
    }
}

/// A channel from the digester to the foreground.
pub struct MessageQueue {
    inner: heapless::spsc::Queue<Message, 8>,
    dropped: u64,
}

impl MessageQueue {
    /// The messages that wait, oldest first.
    pub closed spec fn messages(&self) -> Seq<MessageView> {
        queued_messages(self.inner)
    }

    /// How many messages were turned away.
    pub closed spec fn dropped_count(&self) -> u64 {
        self.dropped
    }

    /// An empty channel that has turned nothing away.
    pub fn new() -> (q: MessageQueue)
        ensures
            q.messages() == Seq::<MessageView>::empty(),
            q.dropped_count() == 0,
    {
        MessageQueue { inner: messages_new(), dropped: 0 }
    }

    /// Puts a message at the end, or turns it away and counts it if the
    /// channel is full.
    pub fn push(&mut self, message: Message) -> (r: Result<(), Full>)
        ensures
            r.is_ok() == (old(self).messages().len() < MESSAGE_CAPACITY),
            r.is_ok() ==> final(self).messages() == old(self).messages().push(message@)
                && final(self).dropped_count() == old(self).dropped_count(),
            r.is_err() ==> final(self).messages() == old(self).messages()
                && final(self).dropped_count() == bumped(old(self).dropped_count()),
    {
        if messages_enqueue(&mut self.inner, message) {
            Ok(())
        } else {
            if self.dropped < u64::MAX {
                self.dropped = self.dropped + 1;
            }
            Err(Full)
        }
    }

    /// Takes the oldest message, if there is one.
    pub fn pop(&mut self) -> (r: Option<Message>)
        ensures
            r.is_some() == (old(self).messages().len() > 0),
            r.is_some() ==> r.unwrap()@ == old(self).messages()[0],
            final(self).messages() == if r.is_some() {
                old(self).messages().drop_first()
            } else {
                old(self).messages()
            },
            final(self).dropped_count() == old(self).dropped_count(),
    {
        messages_dequeue(&mut self.inner)
    }

    /// Throws away every message that waits.
    pub fn clear(&mut self)
        ensures
            final(self).messages() == Seq::<MessageView>::empty(),
            final(self).dropped_count() == old(self).dropped_count(),
    {
        loop
            invariant
                self.dropped_count() == old(self).dropped_count(),
            ensures
                self.messages().len() == 0,
            decreases self.messages().len(),
        {
            match self.pop() {
                Some(_) => {},
                None => {
                    break ;
                },
            }
        }
        assert(self.messages() =~= Seq::<MessageView>::empty());
    }

    /// How many messages were turned away since the channel was made.
    pub fn dropped(&self) -> (n: u64)
        ensures
            n == self.dropped_count(),
    {
        self.dropped
    }
}

/// The channel from the client to the digester.
pub struct CommandQueue {
    inner: heapless::spsc::Queue<Command, 4>,
    dropped: u64,
}

impl CommandQueue {
    /// The notices that wait, oldest first.
    pub closed spec fn commands(&self) -> Seq<Command> {
        queued_commands(self.inner)
    }

    /// How many notices were turned away.
    pub closed spec fn dropped_count(&self) -> u64 {
        self.dropped
    }

    /// An empty channel that has turned nothing away.
    pub fn new() -> (q: CommandQueue)
        ensures
            q.commands() == Seq::<Command>::empty(),
            q.dropped_count() == 0,
    {
        CommandQueue { inner: commands_new(), dropped: 0 }
    }

    /// Puts a notice at the end, or turns it away and counts it if the
    /// channel is full.
    pub fn push(&mut self, command: Command) -> (r: Result<(), Full>)
        ensures
            r.is_ok() == (old(self).commands().len() < COMMAND_CAPACITY),
            r.is_ok() ==> final(self).commands() == old(self).commands().push(command)
                && final(self).dropped_count() == old(self).dropped_count(),
            r.is_err() ==> final(self).commands() == old(self).commands()
                && final(self).dropped_count() == bumped(old(self).dropped_count()),
    {
        if commands_enqueue(&mut self.inner, command) {
            Ok(())
        } else {
            if self.dropped < u64::MAX {
                self.dropped = self.dropped + 1;
            }
            Err(Full)
        }
    }

    /// Takes the oldest notice, if there is one.
    pub fn pop(&mut self) -> (r: Option<Command>)
        ensures
            r == if old(self).commands().len() == 0 {
                None
            } else {
                Some(old(self).commands()[0])
            },
            final(self).commands() == if r.is_some() {
                old(self).commands().drop_first()
            } else {
                old(self).commands()
            },
            final(self).dropped_count() == old(self).dropped_count(),
    {
        commands_dequeue(&mut self.inner)
    }

    /// How many notices were turned away since the channel was made.
    pub fn dropped(&self) -> (n: u64)
        ensures
            n == self.dropped_count(),
    {
        self.dropped
    }
}

} // verus!
