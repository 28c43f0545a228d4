//! Source ranges of syntax nodes.
use vstd::prelude::*;

verus! {

/// A half-open range `start..end` of character offsets.
#[derive(Debug, Clone, Copy, PartialEq, Eq, Structural)]
pub struct Span {
    pub start: usize,
    pub end: usize,
}

impl Span {
    /// The range `start..end`.
    pub fn new(start: usize, end: usize) -> (r: Self)
        ensures
            r == (Span { start, end }),
    {
        Span { start, end }
    }

    /// The empty range at `start`, to be extended.
    pub fn start_from(start: usize) -> (r: Self)
        ensures
            r == (Span { start, end: start }),
    {
        Self::new(start, start)
    }

    /// This range with its end replaced by `end`.
    pub fn extend(self, end: usize) -> (r: Self)
        ensures
            r == (Span { start: self.start, end }),
    {
        Span { start: self.start, end }
    }
}

} // verus!
