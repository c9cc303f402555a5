//! Typed commands: what a command is on the wire and what its response
//! means.

use vstd::prelude::*;
use crate::client::{Poll, PollView, SendError};
use crate::engine::{after_begin, refusal, Engine};
use crate::frame::{CR, LF};
use crate::matcher::UrcMatcher;

verus! {

/// A command that knows its bytes on the wire, how long its response may
/// take, and how to read that response.
///
/// The vocabulary of a modem is a set of types with this capability; the
/// engine needs nothing else of them.
pub trait AtCommand {
    /// What a response to the command is read as.
    type Response;

    /// The bytes of the command on the wire.
    spec fn wire(&self) -> Seq<u8>;

    /// How long the response may take, in the unit of the caller's clock.
    spec fn time_allowed(&self) -> u64;

    /// What the lines of a response are read as; `None` if they are not
    /// what the command expects.
    spec fn parsed(&self, body: Seq<u8>) -> Option<Self::Response>;

    /// Writes the command out.
    fn encode(&self) -> (bytes: Vec<u8>)
        ensures
            bytes@ == self.wire(),
    ;

    /// Tells how long the response may take.
    fn timeout(&self) -> (ticks: u64)
        ensures
            ticks == self.time_allowed(),
    ;

    /// Reads the lines of a response.
    fn parse(&self, body: &[u8]) -> (response: Option<Self::Response>)
        ensures
            response == self.parsed(body@),
    ;
}

/// The response that says no more than that the modem agreed.
#[derive(Clone, Copy, Debug, PartialEq, Eq, Structural)]
pub struct Acknowledged;

/// A command that the modem answers with the closing line alone.
#[derive(Clone, Debug, PartialEq, Eq)]
pub struct Directive {
    /// The bytes of the command on the wire.
    pub text: Vec<u8>,
    /// How long the closing line may take.
    pub time_allowed: u64,
}

/// The time that a modem has to answer the bare `AT`.
pub const ATTENTION_TIMEOUT: u64 = 1000;

/// The bare `AT` on the wire.
pub open spec fn attention_text() -> Seq<u8> {
    seq![65u8, 84u8, CR, LF]
}

impl Directive {
    /// The bare `AT`, which a modem that listens answers with `OK`.
    pub fn attention() -> (command: Directive)
        ensures
            command.text@ == attention_text(),
            command.time_allowed == ATTENTION_TIMEOUT,
    {
        let mut text: Vec<u8> = Vec::new();
        text.push(65u8);
        text.push(84u8);
        text.push(CR);
        text.push(LF);
        assert(text@ =~= attention_text());
        Directive { text, time_allowed: ATTENTION_TIMEOUT }
    }
}

impl AtCommand for Directive {
    type Response = Acknowledged;

    open spec fn wire(&self) -> Seq<u8> {
        self.text@
    }

    open spec fn time_allowed(&self) -> u64 {
        self.time_allowed
    }

    open spec fn parsed(&self, body: Seq<u8>) -> Option<Acknowledged> {
        if body.len() == 0 {
            Some(Acknowledged)
        } else {
            None
        }
    }

    fn encode(&self) -> (bytes: Vec<u8>) {
        let mut bytes: Vec<u8> = Vec::new();
        bytes.extend_from_slice(self.text.as_slice());
        assert(bytes@ =~= self.text@);
        bytes
    }

    fn timeout(&self) -> (ticks: u64) {
        self.time_allowed
    }

    fn parse(&self, body: &[u8]) -> (response: Option<Acknowledged>) {
        if body.len() == 0 {
            Some(Acknowledged)
        } else {
            None
        }
    }
}

/// What the caller of a command is owed once `poll` has found `found`:
/// nothing yet while the command is in flight, the response as the command
/// reads it, `Parse` if the command cannot read it, or the failure.
pub open spec fn concluded<C: AtCommand>(command: &C, found: PollView) -> Option<
    Result<C::Response, SendError>,
> {
    match found {
        PollView::Idle => None,
        PollView::Waiting => None,
        PollView::Response(body) => Some(
            match command.parsed(body) {
                Some(response) => Ok(response),
                None => Err(SendError::Parse),
            },
        ),
        PollView::Failed(error) => Some(Err(error)),
    }
}

/// Turns what `poll` found into what the caller of the command is owed.
pub fn conclude<C: AtCommand>(command: &C, found: &Poll) -> (owed: Option<
    Result<C::Response, SendError>,
>)
    ensures
        owed == concluded(command, found@),
{
    match found {
        Poll::Idle => None,
        Poll::Waiting => None,
        Poll::Response(body) => Some(
            match command.parse(body.as_slice()) {
                Some(response) => Ok(response),
                None => Err(SendError::Parse),
            },
        ),
        Poll::Failed(error) => Some(Err(*error)),
    }
}

/// A failure that the link or the modem caused is handed on as it is: the
/// command's reading of responses has no part in it.
pub proof fn failure_is_not_reparsed<C: AtCommand>(command: &C, error: SendError)
    ensures
        concluded(command, PollView::Failed(error)) == Some(
            Err::<C::Response, SendError>(error),
        ),
{
}

impl<M: UrcMatcher> Engine<M> {
    /// Takes a typed command in flight at the time `now`; on success it
    /// hands out the bytes that the caller is to write to the transmitter.
    ///
    /// Fails as `begin_send` does, and nothing changes then.
    pub fn begin_command<C: AtCommand>(&mut self, command: &C, now: u64) -> (r: Result<
        Vec<u8>,
        SendError,
    >)
        requires
            old(self).wf(),
        ensures
            final(self).wf(),
            final(self).limits() == old(self).limits(),
            final(self).matcher() == old(self).matcher(),
            final(self).expects_echo() == old(self).expects_echo(),
            final(self).tx_capacity() == old(self).tx_capacity(),
            r.is_ok() == refusal(
                old(self).model(),
                old(self).tx_capacity(),
                command.wire(),
            ).is_none(),
            match r {
                Ok(bytes) => {
                    &&& bytes@ == command.wire()
                    &&& final(self).model() == after_begin(
                        old(self).model(),
                        old(self).expects_echo(),
                        command.wire(),
                        command.time_allowed(),
                        now,
                    )
                },
                Err(error) => {
                    &&& final(self).model() == old(self).model()
                    &&& Some(error) == refusal(
                        old(self).model(),
                        old(self).tx_capacity(),
                        command.wire(),
                    )
                },
            },
    {
        let bytes = command.encode();
        let timeout = command.timeout();
        match self.begin_send(bytes.as_slice(), timeout, now) {
            Ok(_) => Ok(bytes),
            Err(error) => Err(error),
        }
    }
}

} // verus!
