//! Priority hints attached to requests.
//!
//! A hint carries a deadline-like value: the smaller the value, the more
//! urgent the request. The type is ordered so that a max-heap pops the most
//! urgent hint first.
use vstd::prelude::*;

verus! {

/// Scheduling priority hint. Smaller values are more urgent.
///
/// The hint is stored as its distance from `u64::MAX`, so that the derived
/// ordering ranks more urgent hints higher.
#[derive(Clone, Copy, Debug, PartialEq, Eq, PartialOrd, Ord, Hash, Structural)]
pub struct PriorityHint {
    urgency: u64,
}

impl View for PriorityHint {
    type V = u64;

    /// The hint's value (smaller is more urgent).
    open spec fn view(&self) -> u64 {
        (u64::MAX - self.urgency_key()) as u64
    }
}

impl PriorityHint {
    /// The stored urgency key by which hints are ordered.
    pub closed spec fn urgency_key(self) -> u64 {
        self.urgency
    }

    /// Creates a hint with the given value.
    pub fn new(value: u64) -> (h: PriorityHint)
        ensures
            h@ == value,
            h.urgency_key() == u64::MAX - value,
    {
        PriorityHint { urgency: u64::MAX - value }
    }

    /// The most urgent hint, used for infrastructure work.
    pub fn infra() -> (h: PriorityHint)
        ensures
            h@ == 0,
            h.urgency_key() == u64::MAX,
    {
        PriorityHint { urgency: u64::MAX }
    }

    /// The hint's value.
    pub fn value(&self) -> (v: u64)
        ensures
            v == self@,
    {
        u64::MAX - self.urgency
    }

    /// Whether this hint is strictly more urgent than `other`.
    pub fn is_more_urgent_than(&self, other: &PriorityHint) -> (b: bool)
        ensures
            b == (self@ < other@),
            b == (self.urgency_key() > other.urgency_key()),
    {
        self.urgency > other.urgency
    }
}

/// The stored key is determined by the value, and a smaller value means a
/// larger key: hints ordered by key are ordered by urgency.
pub proof fn lemma_priority_order_reverses_value(a: PriorityHint, b: PriorityHint)
    ensures
        a@ < b@ <==> a.urgency_key() > b.urgency_key(),
        a@ == b@ <==> a == b,
{
}

} // verus!
