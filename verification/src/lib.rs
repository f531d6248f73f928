//! Request prioritisation, latency estimation and admission control for
//! SLO-aware RPC serving.
use vstd::prelude::*;

pub mod balance;
pub mod context;
pub mod deadline;
pub mod estimation;
pub mod flags;
pub mod header;
pub mod hook_state;
pub mod latency_estimator;
pub mod pred_admission;
pub mod priority;
pub mod queue_latency;
pub mod rajomon;
pub mod registry;
pub mod sorting;
pub mod task_queue;
pub mod text;
pub mod timing;

verus! {

} // verus!
