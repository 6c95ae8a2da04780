use vstd::prelude::*;

verus! {

/// A range of byte offsets `[start, end)` in a source text.
#[derive(Clone, Copy, Debug, PartialEq, Eq, Structural)]
pub struct Span {
    pub start: usize,
    pub end: usize,
}

impl Span {
    /// The span lies inside a source text of `len` bytes.
    pub open spec fn within(self, len: nat) -> bool {
        self.start <= self.end && self.end <= len
    }

    pub fn new(start: usize, end: usize) -> (span: Span)
        ensures
            span.start == start,
            span.end == end,
    {
        Span { start, end }
    }

    /// Tells whether the span lies inside a source text of `len` bytes.
    pub fn is_within(&self, len: usize) -> (b: bool)
        ensures
            b == self.within(len as nat),
    {
        self.start <= self.end && self.end <= len
    }
}

} // verus!
