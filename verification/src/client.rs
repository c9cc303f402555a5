//! The foreground client: one command in flight, its deadline and the
//! response that resolves it.
//!
//! The client does not write to the transmitter and does not read the clock.
//! Its caller hands it the time, writes the bytes that `begin` has accepted,
//! and asks `poll` until the command is resolved.

use vstd::prelude::*;
use crate::frame::{starts_with, Message, MessageKind, MessageView, Status, CR, LF};
use crate::queue::{bumped, Command, CommandQueue, MessageQueue, COMMAND_CAPACITY};

verus! {

/// Why a command brought no response.
#[derive(Clone, Copy, Debug, PartialEq, Eq, Structural)]
pub enum SendError {
    /// Another command is in flight.
    Busy,
    /// The command does not fit the transmit buffer.
    TooLong,
    /// The transmitter failed.
    Transport,
    /// No response ended before the deadline.
    Timeout,
    /// A line or the response outgrew its buffer.
    Malformed,
    /// The modem turned the command down.
    Rejected,
    /// The response ended well but is not what the command expects.
    Parse,
}

/// The command in flight, as a mathematical value.
pub ghost struct PendingView {
    /// The line that the modem sends back first if it echoes, where the
    /// client looks for it.
    pub echo: Option<Seq<u8>>,
    /// The time from which on the command has run out of time.
    pub deadline: u64,
}

/// The command in flight.
struct Pending {
    echo: Option<Vec<u8>>,
    deadline: u64,
}

/// What `poll` found.
#[derive(Clone, Debug, PartialEq, Eq)]
pub enum Poll {
    /// No command is in flight.
    Idle,
    /// The command in flight is neither answered nor out of time.
    Waiting,
    /// The command was answered well; the lines of the answer, parted by
    /// carriage return and line feed, without echo and closing line.
    Response(Vec<u8>),
    /// The command failed.
    Failed(SendError),
}

/// What `poll` found, as a mathematical value.
pub ghost enum PollView {
    Idle,
    Waiting,
    Response(Seq<u8>),
    Failed(SendError),
}

impl View for Poll {
    type V = PollView;

    open spec fn view(&self) -> PollView {
        match self {
            Poll::Idle => PollView::Idle,
            Poll::Waiting => PollView::Waiting,
            Poll::Response(body) => PollView::Response(body@),
            Poll::Failed(error) => PollView::Failed(*error),
        }
    }
}

/// Whether a byte ends a line.
pub open spec fn is_break(byte: u8) -> bool {
    byte == CR || byte == LF
}

/// The line that a modem which echoes sends back for `command`: the
/// command up to its first carriage return or line feed.
pub open spec fn echo_line(command: Seq<u8>) -> Seq<u8>
    decreases command.len(),
{
    if command.len() == 0 || is_break(command[0]) {
        Seq::empty()
    } else {
        seq![command[0]] + echo_line(command.drop_first())
    }
}

/// Whether `text` begins with the line `echo` and the break after it.
pub open spec fn echoed(text: Seq<u8>, echo: Seq<u8>) -> bool {
    &&& echo.is_prefix_of(text)
    &&& text.len() >= echo.len() + 2
    &&& text[echo.len() as int] == CR
    &&& text[echo.len() as int + 1] == LF
}

/// The lines that a response holds for its command: the response without
/// its closing line of two bytes, without the echo in front if the client
/// looks for one and it is there, and without the break after the last line.
pub open spec fn body_of(bytes: Seq<u8>, echo: Option<Seq<u8>>) -> Seq<u8> {
    let text = if bytes.len() >= 2 {
        bytes.subrange(0, bytes.len() - 2)
    } else {
        Seq::empty()
    };
    let rest = match echo {
        Some(line) => if echoed(text, line) {
            text.subrange(line.len() as int + 2, text.len() as int)
        } else {
            text
        },
        None => text,
    };
    if rest.len() >= 2 {
        rest.subrange(0, rest.len() - 2)
    } else {
        rest
    }
}

/// What a message from the response queue means for the command in flight.
pub open spec fn outcome(message: MessageView, echo: Option<Seq<u8>>) -> PollView {
    match message.kind {
        MessageKind::Response(Status::Success) => PollView::Response(body_of(message.bytes, echo)),
        MessageKind::Response(_) => PollView::Failed(SendError::Rejected),
        _ => PollView::Failed(SendError::Malformed),
    }
}

/// The time by which a command issued at `now` must be answered.
pub open spec fn deadline_of(now: u64, timeout: u64) -> u64 {
    if now + timeout > u64::MAX {
        u64::MAX
    } else {
        (now + timeout) as u64
    }
}

/// The notices after one more was offered: it waits at the end if there
/// was room for it.
pub open spec fn offered(commands: Seq<Command>, command: Command) -> Seq<Command> {
    if commands.len() < COMMAND_CAPACITY {
        commands.push(command)
    } else {
        commands
    }
}

/// The count of notices turned away, after one more was offered.
pub open spec fn offered_count(commands: Seq<Command>, count: u64) -> u64 {
    if commands.len() < COMMAND_CAPACITY {
        count
    } else {
        bumped(count)
    }
}

/// The echo that the client looks for, as a mathematical value.
pub open spec fn echo_view(echo: Option<Vec<u8>>) -> Option<Seq<u8>> {
    match echo {
        Some(line) => Some(line@),
        None => None,
    }
}

/// Computes the line that a modem which echoes sends back for `command`.
pub fn echo_of(command: &[u8]) -> (line: Vec<u8>)
    ensures
        line@ == echo_line(command@),
{
    let mut line: Vec<u8> = Vec::new();
    let mut i: usize = 0;
    assert(command@.subrange(0, command@.len() as int) =~= command@);
    while i < command.len() && command[i] != CR && command[i] != LF
        invariant
            i <= command@.len(),
            echo_line(command@) == line@ + echo_line(command@.subrange(i as int, command@.len() as int)),
        decreases command@.len() - i,
    {
        let ghost tail = command@.subrange(i as int, command@.len() as int);
        let ghost before = line@;
        assert(tail.drop_first() =~= command@.subrange(i as int + 1, command@.len() as int));
        assert(tail[0] == command@[i as int]);
        line.push(command[i]);
        assert(line@ + echo_line(tail.drop_first()) =~= before + (seq![command@[i as int]]
            + echo_line(tail.drop_first())));
        i = i + 1;
    }
    proof {
        let tail = command@.subrange(i as int, command@.len() as int);
        if i < command@.len() {
            assert(tail[0] == command@[i as int]);
        }
        assert(echo_line(tail) =~= Seq::<u8>::empty());
        assert(line@ + Seq::<u8>::empty() =~= line@);
    }
    line
}

/// Tells whether `text` begins with the line `echo` and the break after it.
pub fn begins_with_echo(text: &[u8], echo: &[u8]) -> (found: bool)
    ensures
        found == echoed(text@, echo@),
{
    echo.len() <= text.len() && text.len() - echo.len() >= 2 && starts_with(text, echo)
        && text[echo.len()] == CR && text[echo.len() + 1] == LF
}

/// Takes the lines for the command out of a response that ended well.
pub fn body(bytes: &[u8], echo: &Option<Vec<u8>>) -> (lines: Vec<u8>)
    ensures
        lines@ == body_of(bytes@, echo_view(*echo)),
{
    let text: &[u8] = if bytes.len() >= 2 {
        vstd::slice::slice_subrange(bytes, 0, bytes.len() - 2)
    } else {
        vstd::slice::slice_subrange(bytes, 0, 0)
    };
    assert(bytes@.len() < 2 ==> text@ =~= Seq::<u8>::empty());
    let rest: &[u8] = match echo {
        Some(line) => if begins_with_echo(text, line.as_slice()) {
            vstd::slice::slice_subrange(text, line.len() + 2, text.len())
        } else {
            text
        },
        None => text,
    };
    let kept: &[u8] = if rest.len() >= 2 {
        vstd::slice::slice_subrange(rest, 0, rest.len() - 2)
    } else {
        rest
    };
    let mut lines: Vec<u8> = Vec::new();
    lines.extend_from_slice(kept);
    assert(lines@ =~= kept@);
    lines
}

/// Says what a message from the response queue means for the command in
/// flight.
pub fn resolve(message: &Message, echo: &Option<Vec<u8>>) -> (found: Poll)
    ensures
        found@ == outcome(message@, echo_view(*echo)),
{
    match message.kind {
        MessageKind::Response(Status::Success) => Poll::Response(
            body(message.bytes.as_slice(), echo),
        ),
        MessageKind::Response(_) => Poll::Failed(SendError::Rejected),
        _ => Poll::Failed(SendError::Malformed),
    }
}

/// The foreground side of the link.
pub struct Client {
    pending: Option<Pending>,
    echo: bool,
    tx_capacity: usize,
}

impl Client {
    /// The command in flight, if there is one.
    pub closed spec fn pending(&self) -> Option<PendingView> {
        match self.pending {
            Some(p) => Some(PendingView { echo: echo_view(p.echo), deadline: p.deadline }),
            None => None,
        }
    }

    /// Whether the client looks for an echo in front of each response.
    pub closed spec fn expects_echo(&self) -> bool {
        self.echo
    }

    /// The longest command that the transmit buffer takes.
    pub closed spec fn tx_capacity(&self) -> usize {
        self.tx_capacity
    }

    /// An idle client.
    pub fn new(echo: bool, tx_capacity: usize) -> (client: Client)
        ensures
            client.pending().is_none(),
            client.expects_echo() == echo,
            client.tx_capacity() == tx_capacity,
    {
        Client { pending: None, echo, tx_capacity }
    }

    /// Whether no command is in flight.
    pub fn is_idle(&self) -> (idle: bool)
        ensures
            idle == self.pending().is_none(),
    {
        self.pending.is_none()
    }

    /// Takes a command in flight, to be answered within `timeout` from `now`.
    ///
    /// Fails fast with `Busy` while another command is in flight, and with
    /// `TooLong` if the command does not fit the transmit buffer; nothing
    /// changes then. Otherwise the responses that still wait are stale and
    /// are thrown away, the digester is told that a command is issued, and
    /// the caller is to write `command` to the transmitter.
    pub fn begin(
        &mut self,
        command: &[u8],
        timeout: u64,
        now: u64,
        responses: &mut MessageQueue,
        commands: &mut CommandQueue,
    ) -> (r: Result<(), SendError>)
        ensures
            final(self).expects_echo() == old(self).expects_echo(),
            final(self).tx_capacity() == old(self).tx_capacity(),
            final(responses).dropped_count() == old(responses).dropped_count(),
            r == if old(self).pending().is_some() {
                Err::<(), SendError>(SendError::Busy)
            } else if command@.len() > old(self).tx_capacity() {
                Err::<(), SendError>(SendError::TooLong)
            } else {
                Ok::<(), SendError>(())
            },
            r.is_err() ==> {
                &&& final(self).pending() == old(self).pending()
                &&& final(responses).messages() == old(responses).messages()
                &&& final(commands).commands() == old(commands).commands()
                &&& final(commands).dropped_count() == old(commands).dropped_count()
            },
            r.is_ok() ==> {
                &&& final(self).pending() == Some(
                    PendingView {
                        echo: if old(self).expects_echo() {
                            Some(echo_line(command@))
                        } else {
                            None
                        },
                        deadline: deadline_of(now, timeout),
                    },
                )
                &&& final(responses).messages() == Seq::<MessageView>::empty()
                &&& final(commands).commands() == offered(
                    old(commands).commands(),
                    Command::Issued,
                )
                &&& final(commands).dropped_count() == offered_count(
                    old(commands).commands(),
                    old(commands).dropped_count(),
                )
            },
    {
        if self.pending.is_some() {
            return Err(SendError::Busy);
        }
        if command.len() > self.tx_capacity {
            return Err(SendError::TooLong);
        }
        responses.clear();
        let _ = commands.push(Command::Issued);
        let echo = if self.echo {
            Some(echo_of(command))
        } else {
            None
        };
        self.pending = Some(Pending { echo, deadline: now.saturating_add(timeout) });
        Ok(())
    }

    /// Gives up the command in flight because the transmitter failed, and
    /// tells the digester so. Without a command in flight nothing changes.
    pub fn transmit_failed(&mut self, commands: &mut CommandQueue) -> (error: SendError)
        ensures
            error == SendError::Transport,
            final(self).expects_echo() == old(self).expects_echo(),
            final(self).tx_capacity() == old(self).tx_capacity(),
            final(self).pending().is_none(),
            final(commands).commands() == if old(self).pending().is_some() {
                offered(old(commands).commands(), Command::Abandoned)
            } else {
                old(commands).commands()
            },
            final(commands).dropped_count() == if old(self).pending().is_some() {
                offered_count(old(commands).commands(), old(commands).dropped_count())
            } else {
                old(commands).dropped_count()
            },
    {
        if self.pending.is_some() {
            self.pending = None;
            let _ = commands.push(Command::Abandoned);
        }
        SendError::Transport
    }

    /// Looks whether the command in flight is resolved at the time `now`.
    ///
    /// A response that waits resolves the command, whatever the time. With
    /// no response waiting the command runs out of time at its deadline and
    /// not before; the digester is then told that it was abandoned.
    pub fn poll(&mut self, now: u64, responses: &mut MessageQueue, commands: &mut CommandQueue) -> (found: Poll)
        ensures
            final(self).expects_echo() == old(self).expects_echo(),
            final(self).tx_capacity() == old(self).tx_capacity(),
            final(responses).dropped_count() == old(responses).dropped_count(),
            match old(self).pending() {
                None => {
                    &&& found@ == PollView::Idle
                    &&& final(self).pending().is_none()
                    &&& final(responses).messages() == old(responses).messages()
                    &&& final(commands).commands() == old(commands).commands()
                    &&& final(commands).dropped_count() == old(commands).dropped_count()
                },
                Some(pending) => if old(responses).messages().len() > 0 {
                    &&& found@ == outcome(old(responses).messages()[0], pending.echo)
                    &&& final(self).pending().is_none()
                    &&& final(responses).messages() == old(responses).messages().drop_first()
                    &&& final(commands).commands() == old(commands).commands()
                    &&& final(commands).dropped_count() == old(commands).dropped_count()
                } else if now >= pending.deadline {
                    &&& found@ == PollView::Failed(SendError::Timeout)
                    &&& final(self).pending().is_none()
                    &&& final(responses).messages() == old(responses).messages()
                    &&& final(commands).commands() == offered(
                        old(commands).commands(),
                        Command::Abandoned,
                    )
                    &&& final(commands).dropped_count() == offered_count(
                        old(commands).commands(),
                        old(commands).dropped_count(),
                    )
                } else {
                    &&& found@ == PollView::Waiting
                    &&& final(self).pending() == old(self).pending()
                    &&& final(responses).messages() == old(responses).messages()
                    &&& final(commands).commands() == old(commands).commands()
                    &&& final(commands).dropped_count() == old(commands).dropped_count()
                },
            },
    {
        let deadline = match &self.pending {
            None => {
                return Poll::Idle;
            },
            Some(pending) => pending.deadline,
        };
        match responses.pop() {
            Some(message) => {
                let found = match &self.pending {
                    Some(pending) => resolve(&message, &pending.echo),
                    None => Poll::Idle,
                };
                self.pending = None;
                found
            },
            None => {
                if now >= deadline {
                    self.pending = None;
                    let _ = commands.push(Command::Abandoned);
                    Poll::Failed(SendError::Timeout)
                } else {
                    Poll::Waiting
                }
            },
        }
    }
}

} // verus!
