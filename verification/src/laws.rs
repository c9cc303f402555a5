//! What holds of a whole exchange: a command, the bytes that the modem
//! sends back, a tick, and what the client then finds.

use vstd::prelude::*;
use crate::client::{body_of, echo_line, echoed, outcome, PollView, SendError};
use crate::command::{concluded, AtCommand};
use crate::digester::{
    clean, is_fragment, line_break, on_the_wire, plain_line, response_is_digested_whole, run,
    Limits,
};
use crate::engine::{
    after_begin, after_bytes, after_poll, after_tick, deliver, deliver_all, refusal, Downstream,
    EngineView,
};
use crate::frame::{ok_text, FrameKind, MessageKind, MessageView, Status, CR, LF};
use crate::matcher::{classify, UrcMatcher};

verus! {

/// The lines of a response as its command gets them: parted by breaks,
/// with no break after the last.
pub open spec fn body_text(lines: Seq<Seq<u8>>) -> Seq<u8> {
    if lines.len() == 0 {
        Seq::empty()
    } else {
        on_the_wire(lines.drop_last()) + lines.last()
    }
}

/// The lines that the modem sends back for a command: its echo first, if
/// it echoes, then the lines of the response.
pub open spec fn sent_back(echo: Option<Seq<u8>>, lines: Seq<Seq<u8>>) -> Seq<Seq<u8>> {
    match echo {
        Some(line) => seq![line] + lines,
        None => lines,
    }
}

/// Lines on the wire behind a first line are that line, its break, and the
/// lines on the wire.
pub proof fn lemma_wire_prepend(first: Seq<u8>, lines: Seq<Seq<u8>>)
    ensures
        on_the_wire(seq![first] + lines) == first + line_break() + on_the_wire(lines),
    decreases lines.len(),
{
    let all = seq![first] + lines;
    if lines.len() == 0 {
        assert(all.drop_last() =~= Seq::<Seq<u8>>::empty());
        assert(all.last() == first);
        assert(on_the_wire(all.drop_last()) =~= Seq::<u8>::empty());
        assert(on_the_wire(lines) =~= Seq::<u8>::empty());
        assert(on_the_wire(all) =~= first + line_break() + on_the_wire(lines));
    } else {
        lemma_wire_prepend(first, lines.drop_last());
        assert(all.drop_last() =~= seq![first] + lines.drop_last());
        assert(all.last() == lines.last());
        assert(on_the_wire(all) =~= first + line_break() + on_the_wire(lines));
    }
}

/// The client takes the echo and the closing `OK` out of a response and
/// hands the lines in between to the command, as they came.
pub proof fn body_of_response(echo: Option<Seq<u8>>, lines: Seq<Seq<u8>>)
    ensures
        body_of(on_the_wire(sent_back(echo, lines)) + ok_text(), echo) == body_text(lines),
{
    let text = on_the_wire(sent_back(echo, lines));
    let bytes = text + ok_text();
    assert(bytes.subrange(0, bytes.len() - 2) =~= text);
    let wire = on_the_wire(lines);
    match echo {
        Some(line) => {
            lemma_wire_prepend(line, lines);
            assert(text =~= line + line_break() + wire);
            assert(line =~= text.subrange(0, line.len() as int));
            assert(text[line.len() as int] == CR);
            assert(text[line.len() as int + 1] == LF);
            assert(echoed(text, line));
            assert(text.subrange(line.len() as int + 2, text.len() as int) =~= wire);
        },
        None => {},
    }
    if lines.len() > 0 {
        assert(wire == on_the_wire(lines.drop_last()) + lines.last() + line_break());
        assert(wire.subrange(0, wire.len() - 2) =~= body_text(lines));
    } else {
        assert(wire =~= Seq::<u8>::empty());
    }
}

/// A command that is taken in flight and whose response arrives whole gets
/// the lines of that response, whenever the client looks: never a timeout,
/// never the echo, never what was received or gathered before the command.
///
/// The response is `lines`, behind the echo of the command if the modem
/// echoes, closed by `OK`; each line is one that the digester takes for a
/// line of a response, and together they fit its buffer.
pub proof fn answered_command_gets_its_response<M: UrcMatcher>(
    matcher: &M,
    limits: Limits,
    v: EngineView,
    expects_echo: bool,
    tx_capacity: usize,
    command: Seq<u8>,
    timeout: u64,
    now: u64,
    lines: Seq<Seq<u8>>,
    later: u64,
)
    requires
        refusal(v, tx_capacity, command).is_none(),
        v.ingest.len() == 0,
        limits.line >= 2,
        forall|i: int| 0 <= i < lines.len() ==> is_fragment(matcher, limits, #[trigger] lines[i]),
        expects_echo ==> is_fragment(matcher, limits, echo_line(command)),
        on_the_wire(
            sent_back(
                if expects_echo {
                    Some(echo_line(command))
                } else {
                    None
                },
                lines,
            ),
        ).len() <= limits.response,
    ensures
        ({
            let echo = if expects_echo {
                Some(echo_line(command))
            } else {
                None
            };
            let received = on_the_wire(sent_back(echo, lines)) + ok_text() + line_break();
            let begun = after_begin(v, expects_echo, command, timeout, now);
            let ticked = after_tick(matcher, limits, after_bytes(begun, received));
            &&& after_poll(ticked, later).1 == PollView::Response(body_text(lines))
            &&& after_poll(ticked, later).0.pending.is_none()
            &&& ticked.digest == clean()
        }),
{
    let echo = if expects_echo {
        Some(echo_line(command))
    } else {
        None
    };
    let sent = sent_back(echo, lines);
    let received = on_the_wire(sent) + ok_text() + line_break();
    let begun = after_begin(v, expects_echo, command, timeout, now);
    assert(begun.commands.len() > 0);
    assert(begun.ingest + received =~= received);
    assert forall|i: int| 0 <= i < sent.len() implies is_fragment(
        matcher,
        limits,
        #[trigger] sent[i],
    ) by {
        if expects_echo {
            if i > 0 {
                assert(sent[i] == lines[i - 1]);
            }
        }
    }
    assert(plain_line(ok_text()));
    assert(classify(matcher, ok_text()) == FrameKind::ResponseTerminator(Status::Success));
    response_is_digested_whole(matcher, limits, clean(), sent, ok_text(), Status::Success);
    let message = MessageView {
        kind: MessageKind::Response(Status::Success),
        bytes: on_the_wire(sent) + ok_text(),
    };
    assert(clean().pending + on_the_wire(sent) + ok_text() =~= message.bytes);
    assert(run(matcher, limits, clean(), received) == (clean(), seq![message]));
    let emptied = Downstream { responses: Seq::empty(), ..v.down };
    assert(seq![message].drop_last() =~= Seq::<MessageView>::empty());
    assert(seq![message].last() == message);
    assert(deliver_all(emptied, seq![message].drop_last()) == emptied);
    assert(deliver_all(emptied, seq![message]) == deliver(emptied, message));
    let ticked = after_tick(matcher, limits, after_bytes(begun, received));
    assert(ticked.down.responses =~= seq![message]);
    assert(ticked.pending == begun.pending);
    body_of_response(echo, lines);
    assert(outcome(message, echo) == PollView::Response(body_text(lines)));
}

/// What the caller of a typed command is owed for a response that arrived
/// whole: the lines of the response as the command reads them.
pub proof fn answered_command_is_read_by_its_command<C: AtCommand>(
    command: &C,
    lines: Seq<Seq<u8>>,
)
    ensures
        concluded(command, PollView::Response(body_text(lines))) == Some(
            match command.parsed(body_text(lines)) {
                Some(response) => Ok::<C::Response, SendError>(response),
                None => Err::<C::Response, SendError>(
                    SendError::Parse,
                ),
            },
        ),
{
}

} // verus!
