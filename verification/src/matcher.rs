//! Telling unsolicited result codes from response lines.

use vstd::prelude::*;
use crate::frame::{starts_with, terminal, terminal_status, FrameKind};

verus! {

/// Decides whether a line is an unsolicited result code.
///
/// An integrator supplies a matcher of its own to widen what is recognized.
/// A matcher answers for every line and changes nothing.
pub trait UrcMatcher {
    /// The tag of the unsolicited result code that `line` is, if it is one.
    spec fn recognizes(&self, line: Seq<u8>) -> Option<usize>;

    /// Looks at one line.
    fn recognize(&self, line: &[u8]) -> (tag: Option<usize>)
        ensures
            tag == self.recognizes(line@),
    ;
}

/// Recognizes the lines that begin with one of a fixed list of prefixes.
///
/// The tag of a line is the place in the list of the first prefix that the
/// line begins with. An empty prefix stands at the beginning of every line.
#[derive(Clone, Debug)]
pub struct PrefixMatcher {
    pub prefixes: Vec<Vec<u8>>,
}

/// The least place below `upto` at which `prefixes` holds a prefix of
/// `line`, if there is one.
pub open spec fn first_prefix(prefixes: Seq<Vec<u8>>, line: Seq<u8>, upto: int) -> Option<usize>
    decreases upto,
{
    if upto <= 0 || upto > prefixes.len() {
        None
    } else {
        match first_prefix(prefixes, line, upto - 1) {
            Some(found) => Some(found),
            None => if prefixes[upto - 1]@.is_prefix_of(line) {
                Some((upto - 1) as usize)
            } else {
                None
            },
        }
    }
}

/// The tag of a line is the place of the first prefix in the list that the
/// line begins with; a line without a tag begins with none of them.
pub proof fn first_prefix_is_least(prefixes: Seq<Vec<u8>>, line: Seq<u8>, upto: int)
    requires
        0 <= upto <= prefixes.len() <= usize::MAX,
    ensures
        match first_prefix(prefixes, line, upto) {
            Some(found) => {
                &&& found < upto
                &&& prefixes[found as int]@.is_prefix_of(line)
                &&& forall|j: int| 0 <= j < found ==> !(#[trigger] prefixes[j])@.is_prefix_of(line)
            },
            None => forall|j: int| 0 <= j < upto ==> !(#[trigger] prefixes[j])@.is_prefix_of(line),
        },
    decreases upto,
{
    if upto > 0 {
        first_prefix_is_least(prefixes, line, upto - 1);
    }
}

impl PrefixMatcher {
    /// A matcher for the given prefixes.
    pub fn new(prefixes: Vec<Vec<u8>>) -> (matcher: PrefixMatcher)
        ensures
            matcher.prefixes == prefixes,
    {
        PrefixMatcher { prefixes }
    }
}

impl UrcMatcher for PrefixMatcher {
    open spec fn recognizes(&self, line: Seq<u8>) -> Option<usize> {
        first_prefix(self.prefixes@, line, self.prefixes@.len() as int)
    }

    fn recognize(&self, line: &[u8]) -> (tag: Option<usize>) {
        let mut i: usize = 0;
        while i < self.prefixes.len()
            invariant
                i <= self.prefixes@.len(),
                first_prefix(self.prefixes@, line@, i as int).is_none(),
            decreases self.prefixes@.len() - i,
        {
            if starts_with(line, self.prefixes[i].as_slice()) {
                proof {
                    lemma_first_prefix_stays(
                        self.prefixes@,
                        line@,
                        i as int + 1,
                        self.prefixes@.len() as int,
                    );
                }
                return Some(i);
            }
            i = i + 1;
        }
        None
    }
}

/// Once a prefix is found, looking further finds the same one.
pub proof fn lemma_first_prefix_stays(prefixes: Seq<Vec<u8>>, line: Seq<u8>, from: int, upto: int)
    requires
        0 <= from <= upto <= prefixes.len(),
        first_prefix(prefixes, line, from).is_some(),
    ensures
        first_prefix(prefixes, line, upto) == first_prefix(prefixes, line, from),
    decreases upto - from,
{
    if from < upto {
        lemma_first_prefix_stays(prefixes, line, from, upto - 1);
    }
}

/// What the frame `line` is taken for: the last line of a response first,
/// then what the matcher recognizes, and a response fragment otherwise.
pub open spec fn classify<M: UrcMatcher>(matcher: &M, line: Seq<u8>) -> FrameKind {
    match terminal(line) {
        Some(status) => FrameKind::ResponseTerminator(status),
        None => match matcher.recognizes(line) {
            Some(tag) => FrameKind::Urc(tag),
            None => FrameKind::ResponseFragment,
        },
    }
}

/// Classifies one frame.
pub fn classify_line<M: UrcMatcher>(matcher: &M, line: &[u8]) -> (kind: FrameKind)
    ensures
        kind == classify(matcher, line@),
{
    match terminal_status(line) {
        Some(status) => FrameKind::ResponseTerminator(status),
        None => match matcher.recognize(line) {
            Some(tag) => FrameKind::Urc(tag),
            None => FrameKind::ResponseFragment,
        },
    }
}

} // verus!
