# masa

SLO-aware request scheduling for RPC services: every request carries a
context (its SLO, deadline and priority hint) along the call tree, and each
server uses it to prioritise work, tighten the deadlines of child calls from
learned latency estimates, abort work that can no longer meet its deadline,
and shed load with token-based admission control.

The library in `src/` is verified with Verus; every public function states
what it returns or changes in its `requires`/`ensures` contract.

- `context`, `header`, `priority`: the request context, its header text
  (base64 of the serialized bytes) and priority hints.
- `deadline`, `hook_state`, `queue_latency`: child deadlines and priorities,
  local and end-to-end deadline guards, oracle hints, queue-latency
  accounting.
- `latency_estimator`: EWMA, sliding-histogram and RMS latency estimators.
- `estimation`: latency maps keyed by method ids, fanout-group recovery and
  pattern lookup, the per-request estimation tracker and layer, and the
  feeding of a finished request's observations to the server's estimators.
- `pred_admission`: the integer decisions of predictive admission control
  (feasibility before a child call, the per-request admission check).
- `rajomon`: token-based admission control with price propagation (server
  pricing state, client token bucket, per-request layer).
- `registry`: method and service ids.
- `balance`, `task_queue`: round-robin balancing and the executor's priority
  run queue.
- `flags`, `text`, `sorting`, `timing`: policy feature rules, message texts,
  sorting and latency timers.

`app/` holds what Verus does not check: the serde wire format of the
context, HTTP header access, the clock, the policy-parameter file, the
process-wide state with its background workers, the `tower_service`
balancer, the mutex around the run queue, and the floating-point parts of
the estimation policy and of predictive admission control.
