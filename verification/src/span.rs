//! Source spans and node identities.

use vstd::prelude::*;

verus! {

/// The identity reserved for nodes that have none (synthetic and wrapper nodes).
pub const DUMMY_NODE_ID: u32 = 0xffff_ffffu32;

/// Which text buffer a span points into.
#[derive(Clone, Copy, Debug, PartialEq, Eq, Structural)]
pub enum Source {
    /// No buffer: the span of a synthesized node.
    Absent,
    /// The old source text.
    Old,
    /// Text that the printer produced.
    Printed,
}

/// A range of bytes `lo..hi` in one text buffer.
#[derive(Clone, Copy, Debug, PartialEq, Eq, Structural)]
pub struct Span {
    pub lo: u32,
    pub hi: u32,
    pub source: Source,
}

impl Span {
    /// The span that points nowhere.
    pub open spec fn spec_dummy() -> Span {
        Span { lo: 0, hi: 0, source: Source::Absent }
    }

    /// `other` lies inside `self`, in the same buffer.
    pub open spec fn spec_contains(self, other: Span) -> bool {
        self.source == other.source && self.lo <= other.lo && other.hi <= self.hi
    }

    /// The two spans are in different buffers or share no byte.
    pub open spec fn spec_disjoint(self, other: Span) -> bool {
        self.source != other.source || self.hi <= other.lo || other.hi <= self.lo
    }

    /// The span `lo..hi` in the buffer `source`.
    pub fn new(lo: u32, hi: u32, source: Source) -> (s: Span)
        ensures
            s == (Span { lo, hi, source }),
    {
        Span { lo, hi, source }
    }

    /// The span that points nowhere.
    #[verifier::when_used_as_spec(spec_dummy)]
    pub fn dummy() -> (s: Span)
        ensures
            s == Span::spec_dummy(),
    {
        Span { lo: 0, hi: 0, source: Source::Absent }
    }

    /// Whether the span points into the old source text.
    pub fn is_old(&self) -> (b: bool)
        ensures
            b == (self.source == Source::Old),
    {
        self.source == Source::Old
    }

    /// Whether `other` lies inside `self`, in the same buffer.
    #[verifier::when_used_as_spec(spec_contains)]
    pub fn contains(self, other: Span) -> (b: bool)
        ensures
            b == self.spec_contains(other),
    {
        self.source == other.source && self.lo <= other.lo && other.hi <= self.hi
    }

    /// Whether the two spans are in different buffers or share no byte.
    #[verifier::when_used_as_spec(spec_disjoint)]
    pub fn disjoint(self, other: Span) -> (b: bool)
        ensures
            b == self.spec_disjoint(other),
    {
        self.source != other.source || self.hi <= other.lo || other.hi <= self.lo
    }
}

} // verus!
