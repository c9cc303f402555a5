//! The engine: the four channels, the digester and the client as one value.
//!
//! The receive interrupt calls `receive_byte`, the periodic tick calls
//! `tick`, and the foreground calls `begin_send` and `poll`. Each call runs
//! to its end without waiting for anything.

use vstd::prelude::*;
use crate::client::{
    deadline_of, echo_line, offered, offered_count, outcome, Client, PendingView, Poll, PollView,
    SendError,
};
use crate::digester::{
    clean, emitted, joined, lemma_joined_one_by_one, lemma_run_concat, line_break, one_by_one,
    plain_line, run, urc_between_lines, view_of, ConfigError, DigestState, Digester, Limits,
};
use crate::frame::{FrameKind, Message, MessageKind, MessageView};
use crate::matcher::{classify, UrcMatcher};
use crate::queue::{
    bumped, Command, CommandQueue, Full, IngestQueue, MessageQueue, INGEST_CAPACITY,
    MESSAGE_CAPACITY,
};

verus! {

/// What lies downstream of the digester: the two message queues and the
/// counts of what did not reach them.
pub ghost struct Downstream {
    /// The responses that wait for the client, oldest first.
    pub responses: Seq<MessageView>,
    /// The unsolicited result codes that wait for their consumer.
    pub urcs: Seq<MessageView>,
    /// How many responses found their queue full.
    pub response_overruns: u64,
    /// How many unsolicited result codes found their queue full.
    pub urc_overruns: u64,
    /// How many malformed messages the digester has completed.
    pub malformed: u64,
}

/// Whether a message goes to the queue of unsolicited result codes.
pub open spec fn is_urc(kind: MessageKind) -> bool {
    kind is Urc
}

/// The count of malformed messages after one more message.
pub open spec fn counted(malformed: u64, kind: MessageKind) -> u64 {
    if kind is Malformed {
        bumped(malformed)
    } else {
        malformed
    }
}

/// Where one message goes: an unsolicited result code to its queue, any
/// other message to the response queue. A message that finds its queue full
/// is lost and counted.
pub open spec fn deliver(down: Downstream, message: MessageView) -> Downstream {
    if is_urc(message.kind) {
        if down.urcs.len() < MESSAGE_CAPACITY {
            Downstream { urcs: down.urcs.push(message), ..down }
        } else {
            Downstream { urc_overruns: bumped(down.urc_overruns), ..down }
        }
    } else if down.responses.len() < MESSAGE_CAPACITY {
        Downstream {
            responses: down.responses.push(message),
            malformed: counted(down.malformed, message.kind),
            ..down
        }
    } else {
        Downstream {
            response_overruns: bumped(down.response_overruns),
            malformed: counted(down.malformed, message.kind),
            ..down
        }
    }
}

/// Where the messages of a run go, one after the other.
pub open spec fn deliver_all(down: Downstream, messages: Seq<MessageView>) -> Downstream
    decreases messages.len(),
{
    if messages.len() == 0 {
        down
    } else {
        deliver(deliver_all(down, messages.drop_last()), messages.last())
    }
}

/// Delivering in two parts is delivering all at once.
pub proof fn lemma_deliver_all_concat(down: Downstream, a: Seq<MessageView>, b: Seq<MessageView>)
    ensures
        deliver_all(down, a + b) == deliver_all(deliver_all(down, a), b),
    decreases b.len(),
{
    if b.len() == 0 {
        assert(a + b =~= a);
    } else {
        lemma_deliver_all_concat(down, a, b.drop_last());
        assert((a + b).drop_last() =~= a + b.drop_last());
        assert((a + b).last() == b.last());
    }
}

/// A message that finds its queue full changes neither queue and raises the
/// count of its queue by one, unless that count has reached its highest
/// value.
pub proof fn overrun_is_counted(down: Downstream, message: MessageView)
    ensures
        is_urc(message.kind) && down.urcs.len() >= MESSAGE_CAPACITY ==> {
            &&& deliver(down, message).urcs == down.urcs
            &&& deliver(down, message).responses == down.responses
            &&& deliver(down, message).urc_overruns == bumped(down.urc_overruns)
            &&& (down.urc_overruns < u64::MAX ==> deliver(down, message).urc_overruns
                == down.urc_overruns + 1)
        },
        !is_urc(message.kind) && down.responses.len() >= MESSAGE_CAPACITY ==> {
            &&& deliver(down, message).urcs == down.urcs
            &&& deliver(down, message).responses == down.responses
            &&& deliver(down, message).response_overruns == bumped(down.response_overruns)
            &&& (down.response_overruns < u64::MAX ==> deliver(down, message).response_overruns
                == down.response_overruns + 1)
        },
{
}

/// What of the downstream side the client sees: the responses that wait
/// and the counts that go with them.
pub open spec fn response_side(down: Downstream) -> (Seq<MessageView>, u64, u64) {
    (down.responses, down.response_overruns, down.malformed)
}

/// What the response side becomes depends on the response side alone.
pub proof fn lemma_response_side_alone(a: Downstream, b: Downstream, messages: Seq<MessageView>)
    requires
        response_side(a) == response_side(b),
    ensures
        response_side(deliver_all(a, messages)) == response_side(deliver_all(b, messages)),
    decreases messages.len(),
{
    if messages.len() > 0 {
        lemma_response_side_alone(a, b, messages.drop_last());
    }
}

/// An unsolicited result code goes its own way: it joins its queue if there
/// is room, and the response side becomes what it would have become without
/// it.
pub proof fn urc_goes_its_own_way(down: Downstream, urc: MessageView, messages: Seq<MessageView>)
    requires
        is_urc(urc.kind),
    ensures
        deliver_all(down, seq![urc] + messages) == deliver_all(deliver(down, urc), messages),
        down.urcs.len() < MESSAGE_CAPACITY ==> deliver(down, urc).urcs == down.urcs.push(urc),
        response_side(deliver_all(down, seq![urc] + messages)) == response_side(
            deliver_all(down, messages),
        ),
{
    lemma_deliver_all_concat(down, seq![urc], messages);
    assert(seq![urc].drop_last() =~= Seq::<MessageView>::empty());
    assert(seq![urc].last() == urc);
    assert(deliver_all(down, seq![urc].drop_last()) == down);
    assert(deliver_all(down, seq![urc]) == deliver(down, urc));
    lemma_response_side_alone(deliver(down, urc), down, messages);
}

/// The engine as a mathematical value.
pub ghost struct EngineView {
    /// The received bytes that the digester has not taken yet.
    pub ingest: Seq<u8>,
    /// How many received bytes found the ingestion queue full.
    pub ingest_overruns: u64,
    /// The notices that the digester has not taken yet.
    pub commands: Seq<Command>,
    /// How many notices found the command queue full.
    pub command_overruns: u64,
    /// What the digester remembers.
    pub digest: DigestState,
    /// The message queues and their counts.
    pub down: Downstream,
    /// The command in flight, if there is one.
    pub pending: Option<PendingView>,
}

/// Where the digester starts at a tick: from nothing if a notice waits,
/// and from what it remembers otherwise.
pub open spec fn start_of_tick(v: EngineView) -> DigestState {
    if v.commands.len() > 0 {
        clean()
    } else {
        v.digest
    }
}

/// The engine after a tick.
///
/// The digester first takes every notice, and forgets what it remembers if
/// there is one. It then takes every received byte, in the order of
/// arrival, and what it completes goes downstream.
pub open spec fn after_tick<M: UrcMatcher>(matcher: &M, limits: Limits, v: EngineView) -> EngineView {
    let ran = run(matcher, limits, start_of_tick(v), v.ingest);
    EngineView {
        ingest: Seq::empty(),
        commands: Seq::empty(),
        digest: ran.0,
        down: deliver_all(v.down, ran.1),
        ..v
    }
}

/// The engine after `bytes` were received with room for each of them.
pub open spec fn after_bytes(v: EngineView, bytes: Seq<u8>) -> EngineView {
    EngineView { ingest: v.ingest + bytes, ..v }
}

/// Whether the bytes arrive in two batches with a tick in between or all
/// before one tick makes no difference to the engine: it ends in the same
/// state, with the same messages in the same order in each queue and the
/// same counts.
pub proof fn ticks_compose<M: UrcMatcher>(
    matcher: &M,
    limits: Limits,
    v: EngineView,
    a: Seq<u8>,
    b: Seq<u8>,
)
    requires
        v.ingest.len() == 0,
    ensures
        after_tick(matcher, limits, after_bytes(after_tick(matcher, limits, after_bytes(v, a)), b))
            == after_tick(matcher, limits, after_bytes(v, a + b)),
{
    let start = start_of_tick(v);
    assert(v.ingest + a =~= a);
    assert(v.ingest + (a + b) =~= a + b);
    let first = after_tick(matcher, limits, after_bytes(v, a));
    assert(first.ingest + b =~= b);
    lemma_run_concat(matcher, limits, start, a, b);
    let ran_a = run(matcher, limits, start, a);
    let ran_b = run(matcher, limits, ran_a.0, b);
    lemma_deliver_all_concat(v.down, ran_a.1, ran_b.1);
}

/// The engine after rounds of reception and digestion: in each round a
/// chunk of bytes is received, with room for each of them, and a tick
/// follows.
pub open spec fn after_rounds<M: UrcMatcher>(
    matcher: &M,
    limits: Limits,
    v: EngineView,
    chunks: Seq<Seq<u8>>,
) -> EngineView
    decreases chunks.len(),
{
    if chunks.len() == 0 {
        v
    } else {
        after_tick(
            matcher,
            limits,
            after_bytes(after_rounds(matcher, limits, v, chunks.drop_last()), chunks.last()),
        )
    }
}

/// How reception is cut into rounds makes no difference to the engine:
/// after any number of rounds it is where one round with all the bytes
/// would have brought it, with the same messages in the same order in each
/// queue and the same counts.
pub proof fn rounds_compose<M: UrcMatcher>(
    matcher: &M,
    limits: Limits,
    v: EngineView,
    chunks: Seq<Seq<u8>>,
)
    requires
        v.ingest.len() == 0,
        chunks.len() > 0,
    ensures
        after_rounds(matcher, limits, v, chunks) == after_tick(
            matcher,
            limits,
            after_bytes(v, joined(chunks)),
        ),
    decreases chunks.len(),
{
    let init = chunks.drop_last();
    let last = chunks.last();
    if init.len() == 0 {
        assert(joined(init) =~= Seq::<u8>::empty());
        assert(joined(chunks) =~= last);
        assert(after_rounds(matcher, limits, v, init) == v);
    } else {
        rounds_compose(matcher, limits, v, init);
        ticks_compose(matcher, limits, v, joined(init), last);
    }
}

/// Received one byte to a round, the bytes bring the engine where they
/// bring it when they are all received before one tick.
pub proof fn byte_rounds_equal_bulk<M: UrcMatcher>(
    matcher: &M,
    limits: Limits,
    v: EngineView,
    bytes: Seq<u8>,
)
    requires
        v.ingest.len() == 0,
        bytes.len() > 0,
    ensures
        after_rounds(matcher, limits, v, one_by_one(bytes)) == after_tick(
            matcher,
            limits,
            after_bytes(v, bytes),
        ),
{
    rounds_compose(matcher, limits, v, one_by_one(bytes));
    lemma_joined_one_by_one(bytes);
}

/// An unsolicited result code that arrives between two lines does not
/// disturb the response: with it the engine ends a tick with the digester in
/// the same state and the same response side as without it, and the code has
/// gone downstream by itself, ahead of what the other bytes complete.
pub proof fn urc_does_not_disturb_response<M: UrcMatcher>(
    matcher: &M,
    limits: Limits,
    v: EngineView,
    line: Seq<u8>,
    tag: usize,
    rest: Seq<u8>,
)
    requires
        v.ingest.len() == 0,
        start_of_tick(v).line.len() == 0,
        !start_of_tick(v).skipping,
        plain_line(line),
        line.len() <= limits.line,
        classify(matcher, line) == FrameKind::Urc(tag),
    ensures
        ({
            let urc = MessageView { kind: MessageKind::Urc(tag), bytes: line };
            let with = after_tick(
                matcher,
                limits,
                after_bytes(v, line + line_break() + rest),
            );
            let without = after_tick(matcher, limits, after_bytes(v, rest));
            &&& with.digest == without.digest
            &&& response_side(with.down) == response_side(without.down)
            &&& with.down == deliver_all(
                deliver(v.down, urc),
                run(matcher, limits, start_of_tick(v), rest).1,
            )
        }),
{
    let urc = MessageView { kind: MessageKind::Urc(tag), bytes: line };
    let start = start_of_tick(v);
    let bytes = line + line_break() + rest;
    assert(v.ingest + bytes =~= bytes);
    assert(v.ingest + rest =~= rest);
    urc_between_lines(matcher, limits, start, line, tag, rest);
    urc_goes_its_own_way(v.down, urc, run(matcher, limits, start, rest).1);
}

/// Why a command is not taken in flight, if it is not: another one is in
/// flight, or it does not fit the transmit buffer.
pub open spec fn refusal(v: EngineView, tx_capacity: usize, command: Seq<u8>) -> Option<SendError> {
    if v.pending.is_some() {
        Some(SendError::Busy)
    } else if command.len() > tx_capacity {
        Some(SendError::TooLong)
    } else {
        None
    }
}

/// The engine after a command was taken in flight at the time `now`: the
/// responses that waited are gone, the digester has a notice that a command
/// is issued, and the command is to be answered by `now + timeout`.
pub open spec fn after_begin(
    v: EngineView,
    expects_echo: bool,
    command: Seq<u8>,
    timeout: u64,
    now: u64,
) -> EngineView {
    EngineView {
        commands: offered(v.commands, Command::Issued),
        command_overruns: offered_count(v.commands, v.command_overruns),
        down: Downstream { responses: Seq::empty(), ..v.down },
        pending: Some(
            PendingView {
                echo: if expects_echo {
                    Some(echo_line(command))
                } else {
                    None
                },
                deadline: deadline_of(now, timeout),
            },
        ),
        ..v
    }
}

/// The engine after the command in flight was given up: no command is in
/// flight and the digester has a notice of it.
pub open spec fn after_abandon(v: EngineView) -> EngineView {
    EngineView {
        commands: offered(v.commands, Command::Abandoned),
        command_overruns: offered_count(v.commands, v.command_overruns),
        pending: None,
        ..v
    }
}

/// The engine after the client looked at the time `now`, and what it found.
///
/// A response that waits resolves the command in flight, whatever the
/// time. With no response waiting the command runs out of time at its
/// deadline and not before.
pub open spec fn after_poll(v: EngineView, now: u64) -> (EngineView, PollView) {
    match v.pending {
        None => (v, PollView::Idle),
        Some(pending) => if v.down.responses.len() > 0 {
            (
                EngineView {
                    down: Downstream { responses: v.down.responses.drop_first(), ..v.down },
                    pending: None,
                    ..v
                },
                outcome(v.down.responses[0], pending.echo),
            )
        } else if now >= pending.deadline {
            (after_abandon(v), PollView::Failed(SendError::Timeout))
        } else {
            (v, PollView::Waiting)
        },
    }
}

/// A command whose response waits gets that response and never a timeout,
/// however late the client looks.
pub proof fn response_wins_over_deadline(v: EngineView, now: u64)
    requires
        v.pending.is_some(),
        v.down.responses.len() > 0,
    ensures
        after_poll(v, now).1 == outcome(v.down.responses[0], v.pending.unwrap().echo),
        after_poll(v, now).1 != PollView::Failed(SendError::Timeout),
        after_poll(v, now).1 != PollView::Waiting,
        after_poll(v, now).0.pending.is_none(),
{
}

/// A command without a response runs out of time exactly at its deadline:
/// before it the client goes on waiting and nothing changes, from it on the
/// command fails with `Timeout` and no command is in flight.
pub proof fn timeout_at_deadline_not_before(v: EngineView, now: u64)
    requires
        v.pending.is_some(),
        v.down.responses.len() == 0,
    ensures
        (after_poll(v, now).1 == PollView::Failed(SendError::Timeout)) == (now
            >= v.pending.unwrap().deadline),
        now < v.pending.unwrap().deadline ==> after_poll(v, now) == (v, PollView::Waiting),
        now >= v.pending.unwrap().deadline ==> after_poll(v, now).0.pending.is_none(),
{
}

/// What was gathered for a command that ran out of time is not carried
/// into the next one: at the first tick after the timeout the digester
/// starts from nothing, so that its state and the messages that it
/// completes are those of the bytes received since, and of nothing before.
pub proof fn abandoned_command_is_forgotten<M: UrcMatcher>(
    matcher: &M,
    limits: Limits,
    v: EngineView,
    now: u64,
    received: Seq<u8>,
)
    requires
        v.pending.is_some(),
        v.down.responses.len() == 0,
        v.ingest.len() == 0,
        now >= v.pending.unwrap().deadline,
    ensures
        ({
            let timed_out = after_poll(v, now).0;
            let ticked = after_tick(matcher, limits, after_bytes(timed_out, received));
            &&& ticked.digest == run(matcher, limits, clean(), received).0
            &&& ticked.down == deliver_all(v.down, run(matcher, limits, clean(), received).1)
            &&& ticked.pending.is_none()
        }),
        after_tick(matcher, limits, after_poll(v, now).0).digest == clean(),
{
    let timed_out = after_poll(v, now).0;
    assert(timed_out.commands.len() > 0);
    assert(timed_out.ingest + received =~= received);
}

/// A command that is taken in flight starts from nothing too: at the first
/// tick after it the digester forgets what it had gathered, and the
/// responses that waited before it are gone.
pub proof fn issued_command_starts_clean<M: UrcMatcher>(
    matcher: &M,
    limits: Limits,
    v: EngineView,
    expects_echo: bool,
    command: Seq<u8>,
    timeout: u64,
    now: u64,
    received: Seq<u8>,
)
    requires
        v.ingest.len() == 0,
    ensures
        ({
            let begun = after_begin(v, expects_echo, command, timeout, now);
            let ticked = after_tick(matcher, limits, after_bytes(begun, received));
            &&& ticked.digest == run(matcher, limits, clean(), received).0
            &&& ticked.down == deliver_all(
                Downstream { responses: Seq::empty(), ..v.down },
                run(matcher, limits, clean(), received).1,
            )
            &&& ticked.pending == begun.pending
        }),
{
    let begun = after_begin(v, expects_echo, command, timeout, now);
    assert(begun.commands.len() > 0);
    assert(begun.ingest + received =~= received);
}

/// The engine of one serial link.
pub struct Engine<M: UrcMatcher> {
    ingest: IngestQueue,
    responses: MessageQueue,
    urcs: MessageQueue,
    commands: CommandQueue,
    digester: Digester<M>,
    client: Client,
    malformed: u64,
}

impl<M: UrcMatcher> Engine<M> {
    /// The room of the digester's buffers.
    pub closed spec fn limits(&self) -> Limits {
        self.digester.limits()
    }

    /// The matcher that tells the unsolicited result codes.
    pub closed spec fn matcher(&self) -> &M {
        self.digester.matcher()
    }

    /// Whether the client looks for an echo in front of each response.
    pub closed spec fn expects_echo(&self) -> bool {
        self.client.expects_echo()
    }

    /// The longest command that the transmit buffer takes.
    pub closed spec fn tx_capacity(&self) -> usize {
        self.client.tx_capacity()
    }

    /// What lies downstream of the digester.
    pub closed spec fn down(&self) -> Downstream {
        Downstream {
            responses: self.responses.messages(),
            urcs: self.urcs.messages(),
            response_overruns: self.responses.dropped_count(),
            urc_overruns: self.urcs.dropped_count(),
            malformed: self.malformed,
        }
    }

    /// The engine as a mathematical value.
    pub closed spec fn model(&self) -> EngineView {
        EngineView {
            ingest: self.ingest.bytes(),
            ingest_overruns: self.ingest.dropped_count(),
            commands: self.commands.commands(),
            command_overruns: self.commands.dropped_count(),
            digest: self.digester.state(),
            down: self.down(),
            pending: self.client.pending(),
        }
    }

    /// The digester's buffers have room and hold no more than their room.
    pub closed spec fn wf(&self) -> bool {
        self.digester.wf()
    }

    /// A fresh engine, if the buffers of the digester and the transmit
    /// buffer have room.
    pub fn new(limits: Limits, matcher: M, echo: bool, tx_capacity: usize) -> (made: Result<
        Engine<M>,
        ConfigError,
    >)
        ensures
            made.is_ok() == (limits.valid() && tx_capacity >= 1),
            match made {
                Ok(engine) => {
                    &&& engine.wf()
                    &&& engine.limits() == limits
                    &&& *engine.matcher() == matcher
                    &&& engine.expects_echo() == echo
                    &&& engine.tx_capacity() == tx_capacity
                    &&& engine.model() == (EngineView {
                        ingest: Seq::empty(),
                        ingest_overruns: 0,
                        commands: Seq::empty(),
                        command_overruns: 0,
                        digest: clean(),
                        down: Downstream {
                            responses: Seq::empty(),
                            urcs: Seq::empty(),
                            response_overruns: 0,
                            urc_overruns: 0,
                            malformed: 0,
                        },
                        pending: None,
                    })
                },
                Err(error) => error == ConfigError::ZeroCapacity,
            },
    {
        if tx_capacity == 0 {
            return Err(ConfigError::ZeroCapacity);
        }
        match Digester::new(limits, matcher) {
            Ok(digester) => Ok(
                Engine {
                    ingest: IngestQueue::new(),
                    responses: MessageQueue::new(),
                    urcs: MessageQueue::new(),
                    commands: CommandQueue::new(),
                    digester,
                    client: Client::new(echo, tx_capacity),
                    malformed: 0,
                },
            ),
            Err(error) => Err(error),
        }
    }

    /// How many received bytes found the ingestion queue full.
    pub fn ingest_overruns(&self) -> (n: u64)
        ensures
            n == self.model().ingest_overruns,
    {
        self.ingest.dropped()
    }

    /// How many responses found the response queue full.
    pub fn response_overruns(&self) -> (n: u64)
        ensures
            n == self.model().down.response_overruns,
    {
        self.responses.dropped()
    }

    /// How many unsolicited result codes found their queue full.
    pub fn urc_overruns(&self) -> (n: u64)
        ensures
            n == self.model().down.urc_overruns,
    {
        self.urcs.dropped()
    }

    /// How many notices of the client found the command queue full.
    pub fn command_overruns(&self) -> (n: u64)
        ensures
            n == self.model().command_overruns,
    {
        self.commands.dropped()
    }

    /// How many malformed messages the digester has completed.
    pub fn malformed_frames(&self) -> (n: u64)
        ensures
            n == self.model().down.malformed,
    {
        self.malformed
    }

    /// Whether no command is in flight.
    pub fn is_idle(&self) -> (idle: bool)
        ensures
            idle == self.model().pending.is_none(),
    {
        self.client.is_idle()
    }

    /// Whether the digester remembers nothing.
    pub fn is_clean(&self) -> (is_clean: bool)
        ensures
            is_clean == (self.model().digest == clean()),
    {
        let is_clean = self.digester.line_len() == 0 && self.digester.pending_len() == 0
            && !self.digester.is_skipping();
        proof {
            let state = self.model().digest;
            if is_clean {
                assert(state.line =~= Seq::<u8>::empty());
                assert(state.pending =~= Seq::<u8>::empty());
            }
        }
        is_clean
    }

    /// Takes one received byte into the ingestion queue, or turns it away
    /// and counts it if the queue is full. For the receive interrupt.
    pub fn receive_byte(&mut self, byte: u8) -> (r: Result<(), Full>)
        requires
            old(self).wf(),
        ensures
            final(self).wf(),
            final(self).limits() == old(self).limits(),
            final(self).matcher() == old(self).matcher(),
            final(self).expects_echo() == old(self).expects_echo(),
            final(self).tx_capacity() == old(self).tx_capacity(),
            r.is_ok() == (old(self).model().ingest.len() < INGEST_CAPACITY),
            r.is_ok() ==> final(self).model() == after_bytes(old(self).model(), seq![byte]),
            r.is_err() ==> final(self).model() == (EngineView {
                ingest_overruns: bumped(old(self).model().ingest_overruns),
                ..old(self).model()
            }),
    {
        let r = self.ingest.push(byte);
        proof {
            if r.is_ok() {
                assert(old(self).model().ingest + seq![byte] =~= old(self).model().ingest.push(
                    byte,
                ));
            }
        }
        r
    }

    /// Sends one message downstream.
    fn deliver(&mut self, message: Message)
        requires
            old(self).wf(),
        ensures
            final(self).wf(),
            final(self).limits() == old(self).limits(),
            final(self).matcher() == old(self).matcher(),
            final(self).expects_echo() == old(self).expects_echo(),
            final(self).tx_capacity() == old(self).tx_capacity(),
            final(self).model() == (EngineView {
                down: deliver(old(self).model().down, message@),
                ..old(self).model()
            }),
    {
        match message.kind {
            MessageKind::Urc(_) => {
                let _ = self.urcs.push(message);
            },
            MessageKind::Malformed => {
                if self.malformed < u64::MAX {
                    self.malformed = self.malformed + 1;
                }
                let _ = self.responses.push(message);
            },
            MessageKind::Response(_) => {
                let _ = self.responses.push(message);
            },
        }
    }

    /// Takes every notice of the client; tells whether there was one.
    fn take_notices(&mut self) -> (any: bool)
        requires
            old(self).wf(),
        ensures
            final(self).wf(),
            final(self).limits() == old(self).limits(),
            final(self).matcher() == old(self).matcher(),
            final(self).expects_echo() == old(self).expects_echo(),
            final(self).tx_capacity() == old(self).tx_capacity(),
            any == (old(self).model().commands.len() > 0),
            final(self).model() == (EngineView { commands: Seq::empty(), ..old(self).model() }),
    {
        let mut any = false;
        loop
            invariant
                self.wf(),
                self.limits() == old(self).limits(),
                self.matcher() == old(self).matcher(),
                self.expects_echo() == old(self).expects_echo(),
                self.tx_capacity() == old(self).tx_capacity(),
                any ==> old(self).model().commands.len() > 0,
                !any ==> self.model().commands == old(self).model().commands,
                self.model() == (EngineView {
                    commands: self.model().commands,
                    ..old(self).model()
                }),
            ensures
                self.model().commands.len() == 0,
            decreases self.model().commands.len(),
        {
            match self.commands.pop() {
                Some(_) => {
                    any = true;
                },
                None => {
                    break ;
                },
            }
        }
        assert(self.model().commands =~= Seq::<Command>::empty());
        any
    }

    /// One round of the digester. For the periodic tick.
    pub fn tick(&mut self)
        requires
            old(self).wf(),
        ensures
            final(self).wf(),
            final(self).limits() == old(self).limits(),
            final(self).matcher() == old(self).matcher(),
            final(self).expects_echo() == old(self).expects_echo(),
            final(self).tx_capacity() == old(self).tx_capacity(),
            final(self).model() == after_tick(
                old(self).matcher(),
                old(self).limits(),
                old(self).model(),
            ),
    {
        let any = self.take_notices();
        if any {
            self.digester.reset();
        }
        let ghost all = old(self).model().ingest;
        let ghost start = self.model().digest;
        let ghost down = old(self).model().down;
        let ghost taken: int = 0;
        proof {
            assert(all.subrange(0, 0) =~= Seq::<u8>::empty());
            assert(all.subrange(0, all.len() as int) =~= all);
        }
        loop
            invariant
                self.wf(),
                self.limits() == old(self).limits(),
                self.matcher() == old(self).matcher(),
                self.expects_echo() == old(self).expects_echo(),
                self.tx_capacity() == old(self).tx_capacity(),
                0 <= taken <= all.len(),
                all == old(self).model().ingest,
                down == old(self).model().down,
                start == if old(self).model().commands.len() > 0 {
                    clean()
                } else {
                    old(self).model().digest
                },
                self.model() == (EngineView {
                    ingest: all.subrange(taken, all.len() as int),
                    commands: Seq::empty(),
                    digest: run(self.matcher(), self.limits(), start, all.subrange(0, taken)).0,
                    down: deliver_all(
                        down,
                        run(self.matcher(), self.limits(), start, all.subrange(0, taken)).1,
                    ),
                    ..old(self).model()
                }),
            ensures
                taken == all.len(),
            decreases all.len() - taken,
        {
            let ghost before = run(self.matcher(), self.limits(), start, all.subrange(0, taken));
            match self.ingest.pop() {
                None => {
                    break ;
                },
                Some(byte) => {
                    let out = self.digester.push_byte(byte);
                    proof {
                        let upto = all.subrange(0, taken + 1);
                        assert(upto.drop_last() =~= all.subrange(0, taken));
                        assert(upto.last() == byte);
                        assert(all.subrange(taken, all.len() as int).drop_first() =~= all.subrange(
                            taken + 1,
                            all.len() as int,
                        ));
                        let after = run(self.matcher(), self.limits(), start, upto);
                        assert(after.1 == before.1 + emitted(view_of(out)));
                        match view_of(out) {
                            Some(message) => {
                                assert(after.1.drop_last() =~= before.1);
                                assert(after.1.last() == message);
                            },
                            None => {
                                assert(after.1 =~= before.1);
                            },
                        }
                        taken = taken + 1;
                    }
                    match out {
                        Some(message) => {
                            self.deliver(message);
                        },
                        None => {},
                    }
                },
            }
        }
        proof {
            assert(all.subrange(taken, all.len() as int) =~= Seq::<u8>::empty());
            assert(all.subrange(0, taken) =~= all);
        }
    }

    /// Takes a command in flight, to be answered within `timeout` from
    /// `now`; on success the caller is to write `command` to the
    /// transmitter.
    ///
    /// Fails fast with `Busy` while another command is in flight, and with
    /// `TooLong` if the command does not fit the transmit buffer; nothing
    /// changes then. Otherwise the responses that still wait are stale and
    /// are thrown away, and the digester is told that a command is issued.
    pub fn begin_send(&mut self, command: &[u8], timeout: u64, now: u64) -> (r: Result<
        (),
        SendError,
    >)
        requires
            old(self).wf(),
        ensures
            final(self).wf(),
            final(self).limits() == old(self).limits(),
            final(self).matcher() == old(self).matcher(),
            final(self).expects_echo() == old(self).expects_echo(),
            final(self).tx_capacity() == old(self).tx_capacity(),
            r.is_ok() == refusal(old(self).model(), old(self).tx_capacity(), command@).is_none(),
            match r {
                Ok(_) => final(self).model() == after_begin(
                    old(self).model(),
                    old(self).expects_echo(),
                    command@,
                    timeout,
                    now,
                ),
                Err(error) => {
                    &&& final(self).model() == old(self).model()
                    &&& Some(error) == refusal(
                        old(self).model(),
                        old(self).tx_capacity(),
                        command@,
                    )
                },
            },
    {
        self.client.begin(command, timeout, now, &mut self.responses, &mut self.commands)
    }

    /// Gives up the command in flight because the transmitter failed, and
    /// tells the digester so. Without a command in flight nothing changes.
    pub fn transmit_failed(&mut self) -> (error: SendError)
        requires
            old(self).wf(),
        ensures
            final(self).wf(),
            final(self).limits() == old(self).limits(),
            final(self).matcher() == old(self).matcher(),
            final(self).expects_echo() == old(self).expects_echo(),
            final(self).tx_capacity() == old(self).tx_capacity(),
            error == SendError::Transport,
            final(self).model() == if old(self).model().pending.is_some() {
                after_abandon(old(self).model())
            } else {
                old(self).model()
            },
    {
        self.client.transmit_failed(&mut self.commands)
    }

    /// Looks whether the command in flight is resolved at the time `now`.
    ///
    /// A response that waits resolves the command, whatever the time. With
    /// no response waiting the command runs out of time at its deadline and
    /// not before; the digester is then told that it was abandoned.
    pub fn poll(&mut self, now: u64) -> (found: Poll)
        requires
            old(self).wf(),
        ensures
            final(self).wf(),
            final(self).limits() == old(self).limits(),
            final(self).matcher() == old(self).matcher(),
            final(self).expects_echo() == old(self).expects_echo(),
            final(self).tx_capacity() == old(self).tx_capacity(),
            (final(self).model(), found@) == after_poll(old(self).model(), now),
    {
        self.client.poll(now, &mut self.responses, &mut self.commands)
    }

    /// Takes the oldest unsolicited result code that waits, if there is one.
    pub fn next_urc(&mut self) -> (urc: Option<Message>)
        requires
            old(self).wf(),
        ensures
            final(self).wf(),
            final(self).limits() == old(self).limits(),
            final(self).matcher() == old(self).matcher(),
            final(self).expects_echo() == old(self).expects_echo(),
            final(self).tx_capacity() == old(self).tx_capacity(),
            urc.is_some() == (old(self).model().down.urcs.len() > 0),
            urc.is_some() ==> urc.unwrap()@ == old(self).model().down.urcs[0],
            final(self).model() == if urc.is_some() {
                EngineView {
                    down: Downstream {
                        urcs: old(self).model().down.urcs.drop_first(),
                        ..old(self).model().down
                    },
                    ..old(self).model()
                }
            } else {
                old(self).model()
            },
    {
        self.urcs.pop()
    }
}

} // verus!
