use vstd::prelude::*;

verus! {

/// Number of nanoseconds in a second.
pub const NANOS_PER_SEC: u32 = 1_000_000_000;

/// A span of time: whole seconds plus a fraction of a second in nanoseconds.
#[derive(Debug, Copy, Clone, PartialEq, Eq, Structural)]
pub struct Span {
    secs: u64,
    nanos: u32,
}

impl Span {
    #[verifier::type_invariant]
    closed spec fn wf(self) -> bool {
        self.nanos < NANOS_PER_SEC
    }

    /// Whole seconds of the span.
    pub closed spec fn spec_secs(self) -> u64 {
        self.secs
    }

    /// Fractional nanoseconds of the span.
    pub closed spec fn spec_nanos(self) -> u32 {
        self.nanos
    }

    /// The span in nanoseconds.
    pub open spec fn total(self) -> int {
        self.spec_secs() * (NANOS_PER_SEC as int) + self.spec_nanos()
    }

    /// A span from seconds and a fraction of a second.
    pub fn new(secs: u64, nanos: u32) -> (r: Span)
        requires
            nanos < NANOS_PER_SEC,
        ensures
            r.spec_secs() == secs,
            r.spec_nanos() == nanos,
    {
        Span { secs, nanos }
    }

    /// A span of whole seconds.
    pub fn from_secs(secs: u64) -> (r: Span)
        ensures
            r.spec_secs() == secs,
            r.spec_nanos() == 0,
    {
        Span { secs, nanos: 0 }
    }

    /// The empty span.
    pub fn zero() -> (r: Span)
        ensures
            r.total() == 0,
            r.spec_secs() == 0,
            r.spec_nanos() == 0,
    {
        Span { secs: 0, nanos: 0 }
    }

    pub fn secs(&self) -> (r: u64)
        ensures
            r == self.spec_secs(),
    {
        self.secs
    }

    pub fn subsec_nanos(&self) -> (r: u32)
        ensures
            r == self.spec_nanos(),
            r < NANOS_PER_SEC,
    {
        proof { use_type_invariant(self); }
        self.nanos
    }

    /// True when `self` is at least as long as `other`.
    pub fn at_least(&self, other: &Span) -> (r: bool)
        ensures
            r == (self.total() >= other.total()),
    {
        proof {
            use_type_invariant(self);
            use_type_invariant(other);
        }
        self.secs > other.secs || (self.secs == other.secs && self.nanos >= other.nanos)
    }

    /// `self - other`, or the empty span when `other` is longer.
    pub fn saturating_sub(&self, other: &Span) -> (r: Span)
        ensures
            r.total() == if self.total() >= other.total() { self.total() - other.total() } else { 0 },
    {
        proof {
            use_type_invariant(self);
            use_type_invariant(other);
        }
        if self.secs < other.secs || (self.secs == other.secs && self.nanos < other.nanos) {
            Span { secs: 0, nanos: 0 }
        } else if self.nanos >= other.nanos {
            Span { secs: self.secs - other.secs, nanos: self.nanos - other.nanos }
        } else {
            Span { secs: self.secs - other.secs - 1, nanos: self.nanos + NANOS_PER_SEC - other.nanos }
        }
    }
}

} // verus!
