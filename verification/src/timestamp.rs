//! Points in time, as the registry reports them.
use vstd::prelude::*;

verus! {

/// A point in time: whole seconds since the Unix epoch and the nanoseconds
/// into that second. Two timestamps are ordered by their seconds first.
#[derive(Clone, Copy, Debug, PartialEq, Eq, Structural)]
pub struct Timestamp {
    pub seconds: i64,
    pub nanoseconds: u32,
}

impl Timestamp {
    /// `self` is strictly earlier than `other`.
    pub open spec fn precedes(self, other: Timestamp) -> bool {
        self.seconds < other.seconds || (self.seconds == other.seconds && self.nanoseconds
            < other.nanoseconds)
    }

    /// `self` is not later than `other`.
    pub open spec fn not_after(self, other: Timestamp) -> bool {
        !other.precedes(self)
    }

    /// The point in time `nanoseconds` after the whole second `seconds`.
    pub fn new(seconds: i64, nanoseconds: u32) -> (t: Timestamp)
        ensures
            t == (Timestamp { seconds, nanoseconds }),
    {
        Timestamp { seconds, nanoseconds }
    }

    /// Tells whether `self` is strictly earlier than `other`.
    pub fn is_before(&self, other: &Timestamp) -> (earlier: bool)
        ensures
            earlier == self.precedes(*other),
    {
        self.seconds < other.seconds || (self.seconds == other.seconds && self.nanoseconds
            < other.nanoseconds)
    }
}

impl DeepView for Timestamp {
    type V = Timestamp;

    open spec fn deep_view(&self) -> Timestamp {
        *self
    }
}

/// No timestamp is earlier than itself.
pub proof fn lemma_precedes_irreflexive(a: Timestamp)
    ensures
        !a.precedes(a),
{
}

/// Of two different timestamps exactly one is the earlier.
pub proof fn lemma_precedes_total(a: Timestamp, b: Timestamp)
    ensures
        a.precedes(b) || b.precedes(a) || a == b,
        !(a.precedes(b) && b.precedes(a)),
{
}

/// Being earlier carries over: if `a` is before `b` and `b` is not after `c`,
/// then `a` is before `c`.
pub proof fn lemma_precedes_transitive(a: Timestamp, b: Timestamp, c: Timestamp)
    ensures
        a.precedes(b) && b.precedes(c) ==> a.precedes(c),
        a.precedes(b) && b.not_after(c) ==> a.precedes(c),
        a.not_after(b) && b.precedes(c) ==> a.precedes(c),
        a.not_after(b) && b.not_after(c) ==> a.not_after(c),
{
}

} // verus!
