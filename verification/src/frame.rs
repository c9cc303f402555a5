//! Lines of the byte stream and what they are taken for.
//!
//! A line is what stands between two line feeds, carriage returns left out.
//! A line that is not empty is a frame: the last line of a response, an
//! unsolicited result code, or one more line of a response still to end.

use vstd::prelude::*;

verus! {

/// Carriage return, which the modem sends before each line feed.
pub const CR: u8 = 13;

/// Line feed, which ends a line.
pub const LF: u8 = 10;

/// How the modem closed a response.
#[derive(Clone, Copy, Debug, PartialEq, Eq, Structural)]
pub enum Status {
    /// The line `OK`.
    Success,
    /// The line `ERROR`.
    Failure,
    /// A status line with a cause, `+CME ERROR:` or `+CMS ERROR:`.
    Other,
}

/// What a frame is taken for.
#[derive(Clone, Copy, Debug, PartialEq, Eq, Structural)]
pub enum FrameKind {
    /// One more line of a response that has not ended.
    ResponseFragment,
    /// The line that ends a response.
    ResponseTerminator(Status),
    /// An unsolicited result code, with the tag its matcher gave it.
    Urc(usize),
}

/// What a message in a downstream queue stands for.
#[derive(Clone, Copy, Debug, PartialEq, Eq, Structural)]
pub enum MessageKind {
    /// A response that ended with the given status.
    Response(Status),
    /// What had been gathered when a line or a response outgrew its buffer.
    Malformed,
    /// An unsolicited result code, with the tag its matcher gave it.
    Urc(usize),
}

/// What the digester hands to a downstream queue.
#[derive(Clone, Debug, PartialEq, Eq)]
pub struct Message {
    pub kind: MessageKind,
    pub bytes: Vec<u8>,
}

/// A message as a mathematical value.
pub ghost struct MessageView {
    pub kind: MessageKind,
    pub bytes: Seq<u8>,
}

impl View for Message {
    type V = MessageView;

    open spec fn view(&self) -> MessageView {
        MessageView { kind: self.kind, bytes: self.bytes@ }
    }
}

/// The line `OK`.
pub open spec fn ok_text() -> Seq<u8> {
    seq![79u8, 75u8]
}

/// The line `ERROR`.
pub open spec fn error_text() -> Seq<u8> {
    seq![69u8, 82u8, 82u8, 79u8, 82u8]
}

/// The text `+CME ERROR:`.
pub open spec fn cme_text() -> Seq<u8> {
    seq![43u8, 67u8, 77u8, 69u8, 32u8, 69u8, 82u8, 82u8, 79u8, 82u8, 58u8]
}

/// The text `+CMS ERROR:`.
pub open spec fn cms_text() -> Seq<u8> {
    seq![43u8, 67u8, 77u8, 83u8, 32u8, 69u8, 82u8, 82u8, 79u8, 82u8, 58u8]
}

/// The status with which `line` ends a response, if it ends one.
pub open spec fn terminal(line: Seq<u8>) -> Option<Status> {
    if line == ok_text() {
        Some(Status::Success)
    } else if line == error_text() {
        Some(Status::Failure)
    } else if cme_text().is_prefix_of(line) || cms_text().is_prefix_of(line) {
        Some(Status::Other)
    } else {
        None
    }
}

/// Whether `line` begins with `prefix`.
pub fn starts_with(line: &[u8], prefix: &[u8]) -> (found: bool)
    ensures
        found == prefix@.is_prefix_of(line@),
{
    if prefix.len() > line.len() {
        return false;
    }
    let mut i: usize = 0;
    while i < prefix.len()
        invariant
            i <= prefix.len() <= line.len(),
            forall|j: int| 0 <= j < i ==> line@[j] == prefix@[j],
        decreases prefix.len() - i,
    {
        if line[i] != prefix[i] {
            assert(line@.subrange(0, prefix@.len() as int)[i as int] == line@[i as int]);
            return false;
        }
        i = i + 1;
    }
    assert(prefix@ =~= line@.subrange(0, prefix@.len() as int));
    true
}

/// Tells whether `line` ends a response, and with which status.
pub fn terminal_status(line: &[u8]) -> (status: Option<Status>)
    ensures
        status == terminal(line@),
{
    let ok: [u8; 2] = [79, 75];
    let error: [u8; 5] = [69, 82, 82, 79, 82];
    let cme: [u8; 11] = [43, 67, 77, 69, 32, 69, 82, 82, 79, 82, 58];
    let cms: [u8; 11] = [43, 67, 77, 83, 32, 69, 82, 82, 79, 82, 58];
    assert(ok@ =~= ok_text());
    assert(error@ =~= error_text());
    assert(cme@ =~= cme_text());
    assert(cms@ =~= cms_text());
    if line.len() == 2 && starts_with(line, ok.as_slice()) {
        assert(line@ =~= ok_text());
        Some(Status::Success)
    } else if line.len() == 5 && starts_with(line, error.as_slice()) {
        assert(line@ =~= error_text());
        Some(Status::Failure)
    } else if starts_with(line, cme.as_slice()) || starts_with(line, cms.as_slice()) {
        Some(Status::Other)
    } else {
        None
    }
}

} // verus!
