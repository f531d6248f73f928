//! Latency estimation along the RPC call tree: latency maps keyed by
//! method ids, fanout-group recovery and lookup, and the per-request
//! tracker that turns child-call timings into observations.
use vstd::prelude::*;

pub mod apply;
pub mod fanout;
pub mod keys;
pub mod latency_map;
pub mod layer;
pub mod patterns;
pub mod tracker;

verus! {

} // verus!
