//! Source positions: a half-open range of character offsets within a
//! registered source buffer, used by every later stage for diagnostics.

use vstd::prelude::*;

verus! {

/// A half-open range `start..end` of character offsets in the source buffer
/// identified by `source`.
#[derive(Debug, Clone, Copy, PartialEq, Eq, Structural)]
pub struct Span {
    /// The beginning of the span (inclusive).
    pub start: usize,
    /// The end of the span (exclusive).
    pub end: usize,
    /// The identifier of the source buffer that this span points into.
    pub source: u64,
}

impl Span {
    /// A span is well formed when it does not run backwards.
    pub open spec fn wf(self) -> bool {
        self.start <= self.end
    }

    /// Create a new span with a given start and end.
    pub fn new(start: usize, end: usize, source: u64) -> (r: Span)
        requires
            start <= end,
        ensures
            r == (Span { start, end, source }),
    {
        Span { start, end, source }
    }

    /// The number of characters the span covers.
    pub fn len(&self) -> (r: usize)
        requires
            self.wf(),
        ensures
            r == self.end - self.start,
    {
        self.end - self.start
    }

    /// The smallest span covering both `self` and `other`, used when a
    /// parent node's span is merged from its children's spans.
    pub fn merge(&self, other: &Span) -> (r: Span)
        ensures
            r.start == if self.start <= other.start {
                self.start
            } else {
                other.start
            },
            r.end == if self.end >= other.end {
                self.end
            } else {
                other.end
            },
            r.source == self.source,
    {
        Span {
            start: if self.start <= other.start {
                self.start
            } else {
                other.start
            },
            end: if self.end >= other.end {
                self.end
            } else {
                other.end
            },
            source: self.source,
        }
    }
}

} // verus!
