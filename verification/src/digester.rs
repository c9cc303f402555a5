//! The digester: from received bytes to messages for the downstream queues.
//!
//! The digester keeps the line that is being received and the lines of the
//! response that has not ended. Each byte moves it one step; what a run of
//! bytes brings about is the steps of its bytes, one after the other.

use vstd::prelude::*;
use crate::frame::{FrameKind, Message, MessageKind, MessageView, Status, CR, LF};
use crate::matcher::{classify, classify_line, UrcMatcher};

verus! {

/// Why an engine could not be set up.
#[derive(Clone, Copy, Debug, PartialEq, Eq, Structural)]
pub enum ConfigError {
    /// A buffer was given no room at all.
    ZeroCapacity,
}

/// The room of the digester's two buffers, in bytes.
#[derive(Clone, Copy, Debug, PartialEq, Eq, Structural)]
pub struct Limits {
    /// The longest line that is taken in.
    pub line: usize,
    /// The room for the lines of a response before its last one, each
    /// counted with the two bytes that part it from the next.
    pub response: usize,
}

impl Limits {
    /// Both buffers have room.
    pub open spec fn valid(self) -> bool {
        self.line >= 1 && self.response >= 1
    }
}

/// What the digester remembers between two bytes.
pub ghost struct DigestState {
    /// The line being received, without carriage returns.
    pub line: Seq<u8>,
    /// The lines of the response that has not ended, each followed by a
    /// carriage return and a line feed.
    pub pending: Seq<u8>,
    /// Whether the rest of the current line is being thrown away.
    pub skipping: bool,
}

/// The state in which nothing is remembered.
pub open spec fn clean() -> DigestState {
    DigestState { line: Seq::empty(), pending: Seq::empty(), skipping: false }
}

/// The two bytes that part the lines of a response.
pub open spec fn line_break() -> Seq<u8> {
    seq![CR, LF]
}

/// What happens when a line feed ends the frame `s.line`.
pub open spec fn end_of_frame<M: UrcMatcher>(matcher: &M, limits: Limits, s: DigestState) -> (
    DigestState,
    Option<MessageView>,
) {
    match classify(matcher, s.line) {
        FrameKind::ResponseTerminator(status) => (
            clean(),
            Some(MessageView { kind: MessageKind::Response(status), bytes: s.pending + s.line }),
        ),
        FrameKind::Urc(tag) => (
            DigestState { line: Seq::empty(), pending: s.pending, skipping: false },
            Some(MessageView { kind: MessageKind::Urc(tag), bytes: s.line }),
        ),
        FrameKind::ResponseFragment => if s.pending.len() + s.line.len() + 2 <= limits.response {
            (
                DigestState {
                    line: Seq::empty(),
                    pending: s.pending + s.line + line_break(),
                    skipping: false,
                },
                None,
            )
        } else {
            (clean(), Some(MessageView { kind: MessageKind::Malformed, bytes: s.pending + s.line }))
        },
    }
}

/// What one received byte does: the state after it and the message that it
/// completes, if it completes one.
///
/// A carriage return changes nothing. A line feed ends the line: an empty
/// line is passed over, any other is a frame. Any other byte joins the line;
/// if the line is full, what was gathered leaves as a malformed message and
/// the rest of the line is thrown away.
pub open spec fn step<M: UrcMatcher>(matcher: &M, limits: Limits, s: DigestState, byte: u8) -> (
    DigestState,
    Option<MessageView>,
) {
    if byte == CR {
        (s, None)
    } else if byte == LF {
        if s.skipping {
            (DigestState { line: Seq::empty(), pending: s.pending, skipping: false }, None)
        } else if s.line.len() == 0 {
            (s, None)
        } else {
            end_of_frame(matcher, limits, s)
        }
    } else if s.skipping {
        (s, None)
    } else if s.line.len() < limits.line {
        (DigestState { line: s.line.push(byte), pending: s.pending, skipping: false }, None)
    } else {
        (
            DigestState { line: Seq::empty(), pending: Seq::empty(), skipping: true },
            Some(MessageView { kind: MessageKind::Malformed, bytes: s.pending + s.line }),
        )
    }
}

/// The message of a step as a sequence of none or one.
pub open spec fn emitted(out: Option<MessageView>) -> Seq<MessageView> {
    match out {
        Some(message) => seq![message],
        None => Seq::empty(),
    }
}

/// What a run of bytes does: the state after the last of them and the
/// messages that they complete, in the order in which they are completed.
pub open spec fn run<M: UrcMatcher>(matcher: &M, limits: Limits, s: DigestState, bytes: Seq<u8>) -> (
    DigestState,
    Seq<MessageView>,
)
    decreases bytes.len(),
{
    if bytes.len() == 0 {
        (s, Seq::empty())
    } else {
        let before = run(matcher, limits, s, bytes.drop_last());
        let last = step(matcher, limits, before.0, bytes.last());
        (last.0, before.1 + emitted(last.1))
    }
}

/// A run in two parts: the second part starts where the first one ends, and
/// the messages of the first come before those of the second.
pub proof fn lemma_run_concat<M: UrcMatcher>(
    matcher: &M,
    limits: Limits,
    s: DigestState,
    a: Seq<u8>,
    b: Seq<u8>,
)
    ensures
        run(matcher, limits, s, a + b) == (
            run(matcher, limits, run(matcher, limits, s, a).0, b).0,
            run(matcher, limits, s, a).1 + run(matcher, limits, run(matcher, limits, s, a).0, b).1,
        ),
    decreases b.len(),
{
    let first = run(matcher, limits, s, a);
    if b.len() == 0 {
        assert(a + b =~= a);
        assert(first.1 + Seq::<MessageView>::empty() =~= first.1);
    } else {
        lemma_run_concat(matcher, limits, s, a, b.drop_last());
        assert((a + b).drop_last() =~= a + b.drop_last());
        assert((a + b).last() == b.last());
        let rest = run(matcher, limits, first.0, b.drop_last());
        let last = step(matcher, limits, rest.0, b.last());
        assert((first.1 + rest.1) + emitted(last.1) =~= first.1 + (rest.1 + emitted(last.1)));
    }
}

/// A run of one byte is one step: taking a byte in by itself does what
/// taking it in as a run of one does.
pub proof fn one_byte_is_one_step<M: UrcMatcher>(matcher: &M, limits: Limits, s: DigestState, byte: u8)
    ensures
        run(matcher, limits, s, seq![byte]) == (
            step(matcher, limits, s, byte).0,
            emitted(step(matcher, limits, s, byte).1),
        ),
{
    let bytes = seq![byte];
    assert(bytes.drop_last() =~= Seq::<u8>::empty());
    assert(run(matcher, limits, s, bytes.drop_last()) == (s, Seq::<MessageView>::empty()));
    assert(Seq::<MessageView>::empty() + emitted(step(matcher, limits, s, byte).1) =~= emitted(
        step(matcher, limits, s, byte).1,
    ));
}

/// The chunks of a byte stream, laid end to end.
pub open spec fn joined(chunks: Seq<Seq<u8>>) -> Seq<u8>
    decreases chunks.len(),
{
    if chunks.len() == 0 {
        Seq::empty()
    } else {
        joined(chunks.drop_last()) + chunks.last()
    }
}

/// What the digester does when it is fed chunk after chunk.
pub open spec fn run_chunks<M: UrcMatcher>(
    matcher: &M,
    limits: Limits,
    s: DigestState,
    chunks: Seq<Seq<u8>>,
) -> (DigestState, Seq<MessageView>)
    decreases chunks.len(),
{
    if chunks.len() == 0 {
        (s, Seq::empty())
    } else {
        let before = run_chunks(matcher, limits, s, chunks.drop_last());
        let last = run(matcher, limits, before.0, chunks.last());
        (last.0, before.1 + last.1)
    }
}

/// A byte stream cut into bytes.
pub open spec fn one_by_one(bytes: Seq<u8>) -> Seq<Seq<u8>> {
    Seq::new(bytes.len(), |i: int| seq![bytes[i]])
}

/// How the received bytes are cut into chunks makes no difference: fed
/// chunk after chunk, the digester ends in the same state and completes the
/// same messages in the same order as when it is fed all the bytes at once.
pub proof fn chunking_is_transparent<M: UrcMatcher>(
    matcher: &M,
    limits: Limits,
    s: DigestState,
    chunks: Seq<Seq<u8>>,
)
    ensures
        run_chunks(matcher, limits, s, chunks) == run(matcher, limits, s, joined(chunks)),
    decreases chunks.len(),
{
    if chunks.len() > 0 {
        chunking_is_transparent(matcher, limits, s, chunks.drop_last());
        lemma_run_concat(matcher, limits, s, joined(chunks.drop_last()), chunks.last());
    }
}

/// The bytes of a stream, cut one by one and laid end to end, are the stream.
pub proof fn lemma_joined_one_by_one(bytes: Seq<u8>)
    ensures
        joined(one_by_one(bytes)) == bytes,
    decreases bytes.len(),
{
    if bytes.len() == 0 {
        assert(joined(one_by_one(bytes)) =~= bytes);
    } else {
        lemma_joined_one_by_one(bytes.drop_last());
        assert(one_by_one(bytes).drop_last() =~= one_by_one(bytes.drop_last()));
        assert(one_by_one(bytes).last() == seq![bytes.last()]);
        assert(bytes.drop_last() + seq![bytes.last()] =~= bytes);
    }
}

/// Fed one byte at a time, the digester ends in the same state and completes
/// the same messages in the same order as when it is fed the bytes in bulk.
pub proof fn byte_by_byte_equals_bulk<M: UrcMatcher>(
    matcher: &M,
    limits: Limits,
    s: DigestState,
    bytes: Seq<u8>,
)
    ensures
        run_chunks(matcher, limits, s, one_by_one(bytes)) == run(matcher, limits, s, bytes),
{
    chunking_is_transparent(matcher, limits, s, one_by_one(bytes));
    lemma_joined_one_by_one(bytes);
}

/// Whether `line` can be received as one line: it has a byte, no carriage
/// return and no line feed.
pub open spec fn plain_line(line: Seq<u8>) -> bool {
    &&& line.len() > 0
    &&& forall|i: int| 0 <= i < line.len() ==> line[i] != CR && line[i] != LF
}

/// The bytes of a line that fits join the line being received and complete
/// nothing.
pub proof fn lemma_run_within_line<M: UrcMatcher>(
    matcher: &M,
    limits: Limits,
    s: DigestState,
    bytes: Seq<u8>,
)
    requires
        !s.skipping,
        s.line.len() + bytes.len() <= limits.line,
        forall|i: int| 0 <= i < bytes.len() ==> bytes[i] != CR && bytes[i] != LF,
    ensures
        run(matcher, limits, s, bytes) == (
            DigestState { line: s.line + bytes, pending: s.pending, skipping: false },
            Seq::<MessageView>::empty(),
        ),
    decreases bytes.len(),
{
    if bytes.len() == 0 {
        assert(s.line + bytes =~= s.line);
    } else {
        lemma_run_within_line(matcher, limits, s, bytes.drop_last());
        assert((s.line + bytes.drop_last()).push(bytes.last()) =~= s.line + bytes);
        assert(Seq::<MessageView>::empty() + emitted(None) =~= Seq::<MessageView>::empty());
    }
}

/// What a line that fits brings about once its break has arrived: what
/// the end of that frame brings about.
pub proof fn lemma_run_line<M: UrcMatcher>(
    matcher: &M,
    limits: Limits,
    s: DigestState,
    line: Seq<u8>,
)
    requires
        s.line.len() == 0,
        !s.skipping,
        plain_line(line),
        line.len() <= limits.line,
    ensures
        run(matcher, limits, s, line + line_break()) == (
            end_of_frame(
                matcher,
                limits,
                DigestState { line, pending: s.pending, skipping: false },
            ).0,
            emitted(
                end_of_frame(
                    matcher,
                    limits,
                    DigestState { line, pending: s.pending, skipping: false },
                ).1,
            ),
        ),
{
    let full = DigestState { line, pending: s.pending, skipping: false };
    lemma_run_within_line(matcher, limits, s, line);
    assert(s.line + line =~= line);
    let with_cr = line.push(CR);
    assert(with_cr.drop_last() =~= line);
    assert(run(matcher, limits, s, with_cr) == (full, Seq::<MessageView>::empty())) by {
        assert(Seq::<MessageView>::empty() + emitted(None) =~= Seq::<MessageView>::empty());
    }
    let whole = line + line_break();
    assert(whole.drop_last() =~= with_cr);
    assert(whole.last() == LF);
    let end = end_of_frame(matcher, limits, full);
    assert(Seq::<MessageView>::empty() + emitted(end.1) =~= emitted(end.1));
}

/// An unsolicited result code that arrives between two lines of a response
/// leaves the response alone: the digester hands it out by itself and
/// remembers what it remembered before.
pub proof fn urc_leaves_response_alone<M: UrcMatcher>(
    matcher: &M,
    limits: Limits,
    s: DigestState,
    line: Seq<u8>,
    tag: usize,
)
    requires
        s.line.len() == 0,
        !s.skipping,
        plain_line(line),
        line.len() <= limits.line,
        classify(matcher, line) == FrameKind::Urc(tag),
    ensures
        run(matcher, limits, s, line + line_break()) == (
            s,
            seq![MessageView { kind: MessageKind::Urc(tag), bytes: line }],
        ),
{
    lemma_run_line(matcher, limits, s, line);
    assert(s.line =~= Seq::<u8>::empty());
}

/// With an unsolicited result code put in between two lines, the digester
/// completes the same messages as without it, after the code itself, and ends
/// in the same state.
pub proof fn urc_between_lines<M: UrcMatcher>(
    matcher: &M,
    limits: Limits,
    s: DigestState,
    line: Seq<u8>,
    tag: usize,
    rest: Seq<u8>,
)
    requires
        s.line.len() == 0,
        !s.skipping,
        plain_line(line),
        line.len() <= limits.line,
        classify(matcher, line) == FrameKind::Urc(tag),
    ensures
        run(matcher, limits, s, line + line_break() + rest) == (
            run(matcher, limits, s, rest).0,
            seq![MessageView { kind: MessageKind::Urc(tag), bytes: line }] + run(
                matcher,
                limits,
                s,
                rest,
            ).1,
        ),
{
    urc_leaves_response_alone(matcher, limits, s, line, tag);
    lemma_run_concat(matcher, limits, s, line + line_break(), rest);
}

/// Whether `line` is taken in as one more line of a response: it can be
/// received as one line, fits the line buffer, and is neither a closing
/// line nor an unsolicited result code.
pub open spec fn is_fragment<M: UrcMatcher>(matcher: &M, limits: Limits, line: Seq<u8>) -> bool {
    &&& plain_line(line)
    &&& line.len() <= limits.line
    &&& classify(matcher, line) == FrameKind::ResponseFragment
}

/// Lines as the modem sends them: each followed by a carriage return and a
/// line feed.
pub open spec fn on_the_wire(lines: Seq<Seq<u8>>) -> Seq<u8>
    decreases lines.len(),
{
    if lines.len() == 0 {
        Seq::empty()
    } else {
        on_the_wire(lines.drop_last()) + lines.last() + line_break()
    }
}

/// Lines of a response are gathered in the order of arrival, each with its
/// break, as long as they fit, and complete nothing.
pub proof fn fragments_are_gathered<M: UrcMatcher>(
    matcher: &M,
    limits: Limits,
    s: DigestState,
    lines: Seq<Seq<u8>>,
)
    requires
        s.line.len() == 0,
        !s.skipping,
        forall|i: int| 0 <= i < lines.len() ==> is_fragment(matcher, limits, #[trigger] lines[i]),
        s.pending.len() + on_the_wire(lines).len() <= limits.response,
    ensures
        run(matcher, limits, s, on_the_wire(lines)) == (
            DigestState {
                line: Seq::empty(),
                pending: s.pending + on_the_wire(lines),
                skipping: false,
            },
            Seq::<MessageView>::empty(),
        ),
    decreases lines.len(),
{
    if lines.len() == 0 {
        assert(s.pending + on_the_wire(lines) =~= s.pending);
        assert(s.line =~= Seq::<u8>::empty());
    } else {
        let init = lines.drop_last();
        let last = lines.last();
        assert(forall|i: int| 0 <= i < init.len() ==> is_fragment(matcher, limits, #[trigger] init[i]))
            by {
            assert(forall|i: int| 0 <= i < init.len() ==> init[i] == lines[i]);
        }
        assert(is_fragment(matcher, limits, last));
        fragments_are_gathered(matcher, limits, s, init);
        let mid = DigestState {
            line: Seq::empty(),
            pending: s.pending + on_the_wire(init),
            skipping: false,
        };
        lemma_run_line(matcher, limits, mid, last);
        lemma_run_concat(matcher, limits, s, on_the_wire(init), last + line_break());
        assert(on_the_wire(init) + (last + line_break()) =~= on_the_wire(lines));
        assert(mid.pending + last + line_break() =~= s.pending + on_the_wire(lines));
        assert(Seq::<MessageView>::empty() + Seq::<MessageView>::empty() =~= Seq::<
            MessageView,
        >::empty());
    }
}

/// A response that fits is digested whole: its lines and its closing line,
/// each with its break, complete exactly one message, which holds them all
/// and carries the status of the closing line; the digester then remembers
/// nothing.
pub proof fn response_is_digested_whole<M: UrcMatcher>(
    matcher: &M,
    limits: Limits,
    s: DigestState,
    lines: Seq<Seq<u8>>,
    closing: Seq<u8>,
    status: Status,
)
    requires
        s.line.len() == 0,
        !s.skipping,
        forall|i: int| 0 <= i < lines.len() ==> is_fragment(matcher, limits, #[trigger] lines[i]),
        s.pending.len() + on_the_wire(lines).len() <= limits.response,
        plain_line(closing),
        closing.len() <= limits.line,
        classify(matcher, closing) == FrameKind::ResponseTerminator(status),
    ensures
        run(matcher, limits, s, on_the_wire(lines) + closing + line_break()) == (
            clean(),
            seq![
                MessageView {
                    kind: MessageKind::Response(status),
                    bytes: s.pending + on_the_wire(lines) + closing,
                },
            ],
        ),
{
    fragments_are_gathered(matcher, limits, s, lines);
    let mid = DigestState {
        line: Seq::empty(),
        pending: s.pending + on_the_wire(lines),
        skipping: false,
    };
    lemma_run_line(matcher, limits, mid, closing);
    lemma_run_concat(matcher, limits, s, on_the_wire(lines), closing + line_break());
    assert(on_the_wire(lines) + (closing + line_break()) =~= on_the_wire(lines) + closing
        + line_break());
    let message = MessageView {
        kind: MessageKind::Response(status),
        bytes: s.pending + on_the_wire(lines) + closing,
    };
    assert(Seq::<MessageView>::empty() + emitted(Some(message)) =~= seq![message]);
}

/// The messages of a vector as mathematical values.
pub open spec fn views(messages: Seq<Message>) -> Seq<MessageView> {
    messages.map_values(|m: Message| m@)
}

/// The message of a step as a mathematical value.
pub open spec fn view_of(out: Option<Message>) -> Option<MessageView> {
    match out {
        Some(message) => Some(message@),
        None => None,
    }
}

/// The digester of one serial link.
pub struct Digester<M: UrcMatcher> {
    limits: Limits,
    matcher: M,
    line: Vec<u8>,
    pending: Vec<u8>,
    skipping: bool,
}

impl<M: UrcMatcher> Digester<M> {
    /// The room of the buffers.
    pub closed spec fn limits(&self) -> Limits {
        self.limits
    }

    /// The matcher that tells the unsolicited result codes.
    pub closed spec fn matcher(&self) -> &M {
        &self.matcher
    }

    /// What the digester remembers.
    pub closed spec fn state(&self) -> DigestState {
        DigestState { line: self.line@, pending: self.pending@, skipping: self.skipping }
    }

    /// The buffers have room and hold no more than their room.
    pub closed spec fn wf(&self) -> bool {
        &&& self.limits.valid()
        &&& self.line@.len() <= self.limits.line
        &&& self.pending@.len() <= self.limits.response
    }

    /// A digester that remembers nothing, if both buffers have room.
    pub fn new(limits: Limits, matcher: M) -> (made: Result<Digester<M>, ConfigError>)
        ensures
            made.is_ok() == limits.valid(),
            match made {
                Ok(digester) => {
                    &&& digester.wf()
                    &&& digester.limits() == limits
                    &&& *digester.matcher() == matcher
                    &&& digester.state() == clean()
                },
                Err(error) => error == ConfigError::ZeroCapacity,
            },
    {
        if limits.line == 0 || limits.response == 0 {
            return Err(ConfigError::ZeroCapacity);
        }
        Ok(Digester { limits, matcher, line: Vec::new(), pending: Vec::new(), skipping: false })
    }

    /// The number of bytes of the line being received.
    pub fn line_len(&self) -> (n: usize)
        ensures
            n == self.state().line.len(),
    {
        self.line.len()
    }

    /// The number of bytes gathered for the response that has not ended.
    pub fn pending_len(&self) -> (n: usize)
        ensures
            n == self.state().pending.len(),
    {
        self.pending.len()
    }

    /// Whether the rest of the current line is being thrown away.
    pub fn is_skipping(&self) -> (skipping: bool)
        ensures
            skipping == self.state().skipping,
    {
        self.skipping
    }

    /// Forgets the line being received and the response that has not ended.
    pub fn reset(&mut self)
        requires
            old(self).wf(),
        ensures
            final(self).wf(),
            final(self).limits() == old(self).limits(),
            final(self).matcher() == old(self).matcher(),
            final(self).state() == clean(),
    {
        self.line.clear();
        self.pending.clear();
        self.skipping = false;
    }

    /// Hands out what was gathered, as a message of the given kind, and
    /// empties both buffers.
    fn flush(&mut self, kind: MessageKind) -> (message: Message)
        requires
            old(self).wf(),
        ensures
            final(self).wf(),
            final(self).limits() == old(self).limits(),
            final(self).matcher() == old(self).matcher(),
            final(self).state() == (DigestState {
                line: Seq::empty(),
                pending: Seq::empty(),
                skipping: old(self).state().skipping,
            }),
            message@ == (MessageView {
                kind,
                bytes: old(self).state().pending + old(self).state().line,
            }),
    {
        let mut bytes: Vec<u8> = Vec::new();
        bytes.extend_from_slice(self.pending.as_slice());
        bytes.extend_from_slice(self.line.as_slice());
        self.line.clear();
        self.pending.clear();
        assert(bytes@ =~= old(self).state().pending + old(self).state().line);
        Message { kind, bytes }
    }

    /// Takes in the frame that a line feed has just ended.
    fn finish_frame(&mut self) -> (out: Option<Message>)
        requires
            old(self).wf(),
            !old(self).state().skipping,
        ensures
            final(self).wf(),
            final(self).limits() == old(self).limits(),
            final(self).matcher() == old(self).matcher(),
            (final(self).state(), view_of(out)) == end_of_frame(
                old(self).matcher(),
                old(self).limits(),
                old(self).state(),
            ),
    {
        match classify_line(&self.matcher, self.line.as_slice()) {
            FrameKind::ResponseTerminator(status) => Some(self.flush(MessageKind::Response(status))),
            FrameKind::Urc(tag) => {
                let mut bytes: Vec<u8> = Vec::new();
                bytes.extend_from_slice(self.line.as_slice());
                self.line.clear();
                assert(bytes@ =~= old(self).state().line);
                Some(Message { kind: MessageKind::Urc(tag), bytes })
            },
            FrameKind::ResponseFragment => {
                let room: usize = self.limits.response - self.pending.len();
                if self.line.len() <= room && room - self.line.len() >= 2 {
                    self.pending.extend_from_slice(self.line.as_slice());
                    self.pending.push(CR);
                    self.pending.push(LF);
                    self.line.clear();
                    assert(self.pending@ =~= old(self).state().pending + old(self).state().line
                        + line_break());
                    None
                } else {
                    Some(self.flush(MessageKind::Malformed))
                }
            },
        }
    }

    /// Takes in one received byte and hands out the message that it
    /// completes, if it completes one.
    pub fn push_byte(&mut self, byte: u8) -> (out: Option<Message>)
        requires
            old(self).wf(),
        ensures
            final(self).wf(),
            final(self).limits() == old(self).limits(),
            final(self).matcher() == old(self).matcher(),
            (final(self).state(), view_of(out)) == step(
                old(self).matcher(),
                old(self).limits(),
                old(self).state(),
                byte,
            ),
    {
        if byte == CR {
            None
        } else if byte == LF {
            if self.skipping {
                self.line.clear();
                self.skipping = false;
                None
            } else if self.line.len() == 0 {
                None
            } else {
                self.finish_frame()
            }
        } else if self.skipping {
            None
        } else if self.line.len() < self.limits.line {
            self.line.push(byte);
            None
        } else {
            let message = self.flush(MessageKind::Malformed);
            self.skipping = true;
            Some(message)
        }
    }

    /// Takes in a run of received bytes and hands out the messages that
    /// they complete, in the order in which they are completed.
    pub fn feed(&mut self, bytes: &[u8]) -> (out: Vec<Message>)
        requires
            old(self).wf(),
        ensures
            final(self).wf(),
            final(self).limits() == old(self).limits(),
            final(self).matcher() == old(self).matcher(),
            (final(self).state(), views(out@)) == run(
                old(self).matcher(),
                old(self).limits(),
                old(self).state(),
                bytes@,
            ),
    {
        let mut out: Vec<Message> = Vec::new();
        let mut i: usize = 0;
        assert(bytes@.subrange(0, 0) =~= Seq::<u8>::empty());
        assert(views(out@) =~= Seq::<MessageView>::empty());
        while i < bytes.len()
            invariant
                i <= bytes@.len(),
                self.wf(),
                self.limits() == old(self).limits(),
                self.matcher() == old(self).matcher(),
                (self.state(), views(out@)) == run(
                    old(self).matcher(),
                    old(self).limits(),
                    old(self).state(),
                    bytes@.subrange(0, i as int),
                ),
            decreases bytes@.len() - i,
        {
            let ghost before = views(out@);
            let step_out = self.push_byte(bytes[i]);
            match step_out {
                Some(message) => {
                    out.push(message);
                },
                None => {},
            }
            proof {
                let upto = bytes@.subrange(0, i as int + 1);
                assert(upto.drop_last() =~= bytes@.subrange(0, i as int));
                assert(upto.last() == bytes@[i as int]);
                assert(views(out@) =~= before + emitted(view_of(step_out)));
            }
            i = i + 1;
        }
        assert(bytes@.subrange(0, i as int) =~= bytes@);
        out
    }
}

} // verus!
