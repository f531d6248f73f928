//! Predictive admission control: the integer decisions of the feasibility
//! check before a child call, and of the per-request admission check over
//! the latency maps. The probabilistic parts (decay, shedding by overshoot,
//! the AIMD controller) work in floating point and are left to the caller.
use vstd::prelude::*;

use crate::context::Context;
use crate::deadline::sat_sub;
use crate::estimation::keys::{MethodKey, ParentToChildKey};
use crate::estimation::latency_map::{read_estimate, view_after_read, EstimateKind, LatencyMap};
use crate::latency_estimator::LatencyEstimator;
use crate::registry::MethodId;
use crate::text::{early_return_message, early_return_text};

verus! {

/// The first decision of the feasibility check before a child call.
#[derive(Debug, Clone, Copy, PartialEq, Eq, Structural)]
pub enum FeasibilityStep {
    /// The end-to-end deadline has passed: reject the child call.
    Reject,
    /// Nothing is known of the child or of the work after it: admit.
    Admit,
    /// Decide from the (decayed) estimates, with this much time left.
    NeedsDecay { time_left: u64 },
}

/// The first decision of the feasibility check before a child call at
/// `now`: reject once the end-to-end deadline has passed, admit on a cold
/// start (no mean estimate for the child nor for the work after it), and
/// otherwise go on with the time left.
pub fn before_child_feasibility(now: u64, e2e_deadline: u64, child_mean: u64, remaining_mean: u64) -> (r:
    FeasibilityStep)
    ensures
        e2e_deadline <= now ==> r is Reject,
        e2e_deadline > now && child_mean == 0 && remaining_mean == 0 ==> r is Admit,
        e2e_deadline > now && !(child_mean == 0 && remaining_mean == 0) ==> r == (FeasibilityStep::NeedsDecay {
            time_left: (e2e_deadline - now) as u64,
        }),
{
    let time_left = e2e_deadline.saturating_sub(now);
    if time_left == 0 {
        return FeasibilityStep::Reject;
    }
    if child_mean == 0 && remaining_mean == 0 {
        return FeasibilityStep::Admit;
    }
    FeasibilityStep::NeedsDecay { time_left }
}

/// The fast path of the feasibility check: the call is admitted without
/// further ado when the raw mean estimates of the child and of the work
/// after it finish by the end-to-end deadline.
pub fn raw_means_fit(now: u64, e2e_deadline: u64, child_mean: u64, remaining_mean: u64) -> (r: bool)
    requires
        now + child_mean + remaining_mean <= u64::MAX,
    ensures
        r == (now + child_mean + remaining_mean <= e2e_deadline),
{
    now + child_mean + remaining_mean <= e2e_deadline
}

/// Reason of a child call rejected by the feasibility check.
pub const FEASIBILITY_REASON: &'static str = "BeforeChildFeasibility";

/// Reason of a request rejected at ingress by the admission controller.
pub const PRED_ADMISSION_REASON: &'static str = "PredAdmissionRej";

/// The message of a child call to `child_service`::`child_method` from
/// `service`::`method` rejected by the feasibility check.
pub fn bcf_error(service: &str, method: &str, child_service: &str, child_method: &str) -> (s: String)
    ensures
        s@ == early_return_text(service@, method@, Some((child_service@, child_method@)), Some(FEASIBILITY_REASON@)),
{
    early_return_message(service, method, Some((child_service, child_method)), Some(FEASIBILITY_REASON))
}

/// The message of a request to `service`::`method` rejected at ingress by
/// the admission controller.
pub fn admission_rejection(service: &str, method: &str) -> (s: String)
    ensures
        s@ == early_return_text(service@, method@, None, Some(PRED_ADMISSION_REASON@)),
{
    early_return_message(service, method, None, Some(PRED_ADMISSION_REASON))
}

/// The wall-clock estimates of an edge as the feasibility check reads
/// them: the mean and floor estimates and the time of the last observation,
/// each 0 where there is none.
#[derive(Debug, Clone, Copy, PartialEq, Eq, Structural)]
pub struct WallclockPack {
    pub mean: u64,
    pub floor: u64,
    pub last_observation_us: u64,
}

/// The time of the last observation of `key` in `t`, 0 when none.
pub open spec fn last_observed_or_zero(t: Map<ParentToChildKey, u64>, key: ParentToChildKey) -> u64 {
    if t.dom().contains(key) { t[key] } else { 0 }
}

/// Reads the wall-clock estimates of edge `key` from the per-edge map `m`:
/// the mean estimate, then the floor estimate, and the last observation
/// time, each 0 where there is none. A key without an estimator gets a
/// fresh one.
pub fn wallclock_pack<E: LatencyEstimator>(m: &mut LatencyMap<ParentToChildKey, E>, key: ParentToChildKey) -> (r:
    WallclockPack)
    requires
        old(m).wf(),
    ensures
        final(m).wf(),
        final(m)@ == view_after_read::<ParentToChildKey, E>(old(m)@, key),
        final(m).last_observations() == old(m).last_observations(),
        r == (WallclockPack {
            mean: or_value(read_estimate::<ParentToChildKey, E>(old(m)@, key, EstimateKind::Mean), 0),
            floor: or_value(
                read_estimate::<ParentToChildKey, E>(
                    view_after_read::<ParentToChildKey, E>(old(m)@, key),
                    key,
                    EstimateKind::Floor,
                ),
                0,
            ),
            last_observation_us: last_observed_or_zero(old(m).last_observations(), key),
        }),
{
    let mean = unwrap_or_value(m.get_mean_estimate(key), 0);
    let floor = unwrap_or_value(m.get_mean_floor_estimate(key), 0);
    let last = unwrap_or_value(m.last_observation(key), 0);
    WallclockPack { mean, floor, last_observation_us: last }
}

/// The verdict of the admission check.
#[derive(Debug, Clone, Copy, PartialEq, Eq, Structural)]
pub enum AdmissionVerdict {
    /// The request cannot finish in time: shed it.
    Shed,
    /// The request is admitted.
    Admit,
    /// At ingress: the admission controller decides, given the time left,
    /// the child's estimate and the mean estimate of the work after it.
    AskController { time_left: u64, est_child: u64, est_total_mean: u64 },
}

/// `o`, or `d` when absent.
pub open spec fn or_value(o: Option<u64>, d: u64) -> u64 {
    match o {
        Some(v) => v,
        None => d,
    }
}

fn unwrap_or_value(o: Option<u64>, d: u64) -> (r: u64)
    ensures
        r == or_value(o, d),
{
    match o {
        Some(v) => v,
        None => d,
    }
}

/// The time left at `now` until the end-to-end deadline `e2e`.
pub open spec fn time_left_at(e2e: u64, now: u64) -> u64 {
    sat_sub(e2e, now)
}

/// The floor estimate of the work after the child of `key`, capped at the
/// time left.
pub open spec fn floor_capped<E: LatencyEstimator>(a: Map<ParentToChildKey, E::V>, key: ParentToChildKey, time_left: u64) -> u64 {
    let f = or_value(read_estimate::<ParentToChildKey, E>(a, key, EstimateKind::Floor), 0);
    if f < time_left { f } else { time_left }
}

/// Whether the floor estimate makes the request infeasible at `now`.
pub open spec fn floor_infeasible<E: LatencyEstimator>(
    a: Map<ParentToChildKey, E::V>,
    key: ParentToChildKey,
    e2e: u64,
    now: u64,
) -> bool {
    now > sat_sub(e2e, floor_capped::<E>(a, key, time_left_at(e2e, now)))
}

/// The compute estimate of `method` (0 when none).
pub open spec fn compute_estimate<E: LatencyEstimator>(c: Map<MethodKey, E::V>, method: MethodId) -> u64 {
    or_value(read_estimate::<MethodKey, E>(c, MethodKey(method), EstimateKind::Full), 0)
}

/// The admission check of a request with context `ctx` to `method` before
/// its child call of edge `key`, at `now`. It sheds the request when even
/// the floor estimate of the work after the child, capped at the time left,
/// finishes past the end-to-end deadline; with the admission controller
/// enabled (`ac_pred`), it also sheds when the compute estimate of the
/// method exceeds the time left, and at ingress (hop 0) asks the controller
/// with the child's estimate (the compute estimate when none) and the mean
/// estimate of the work after the child. Reading an estimate gives a key
/// without an estimator a fresh one.
pub fn admission_check<E: LatencyEstimator>(
    after_child: &mut LatencyMap<ParentToChildKey, E>,
    compute: &mut LatencyMap<MethodKey, E>,
    child: &mut LatencyMap<ParentToChildKey, E>,
    ctx: &Context,
    method: MethodId,
    key: ParentToChildKey,
    now: u64,
    ac_pred: bool,
) -> (r: AdmissionVerdict)
    requires
        old(after_child).wf(),
        old(compute).wf(),
        old(child).wf(),
        ctx@.gateway_entry + ctx@.slo <= u64::MAX,
    ensures
        final(after_child).wf(),
        final(compute).wf(),
        final(child).wf(),
        ({
            let e2e = (ctx@.gateway_entry + ctx@.slo) as u64;
            let tl = time_left_at(e2e, now);
            let a0 = old(after_child)@;
            let a1 = view_after_read::<ParentToChildKey, E>(a0, key);
            let c0 = old(compute)@;
            let ce = compute_estimate::<E>(c0, method);
            let floor_shed = floor_infeasible::<E>(a0, key, e2e, now);
            let compute_shed = ac_pred && ce > tl;
            &&& final(after_child)@ == a1
            &&& (r is Shed <==> floor_shed || compute_shed)
            &&& final(compute)@ == if floor_shed || !ac_pred {
                c0
            } else {
                view_after_read::<MethodKey, E>(c0, MethodKey(method))
            }
            &&& (!floor_shed && !compute_shed) ==> if ac_pred && ctx@.hop_count == 0 {
                &&& r == AdmissionVerdict::AskController {
                    time_left: tl,
                    est_child: or_value(read_estimate::<ParentToChildKey, E>(old(child)@, key, EstimateKind::Full), ce),
                    est_total_mean: or_value(read_estimate::<ParentToChildKey, E>(a1, key, EstimateKind::Mean), 0),
                }
                &&& final(child)@ == view_after_read::<ParentToChildKey, E>(old(child)@, key)
            } else {
                &&& r == AdmissionVerdict::Admit
                &&& final(child)@ == old(child)@
            }
            &&& (floor_shed || compute_shed) ==> final(child)@ == old(child)@
        }),
{
    let e2e = ctx.e2e_deadline();
    let time_left = e2e.saturating_sub(now);
    let floor = unwrap_or_value(after_child.get_mean_floor_estimate(key), 0);
    let floor = if floor < time_left { floor } else { time_left };
    if now > e2e.saturating_sub(floor) {
        return AdmissionVerdict::Shed;
    }
    if !ac_pred {
        return AdmissionVerdict::Admit;
    }
    let est_compute = unwrap_or_value(compute.get_estimate(MethodKey(method)), 0);
    if est_compute > time_left {
        return AdmissionVerdict::Shed;
    }
    if ctx.hop_count() == 0 {
        let est_total_mean = unwrap_or_value(after_child.get_mean_estimate(key), 0);
        let est_child = unwrap_or_value(child.get_estimate(key), est_compute);
        return AdmissionVerdict::AskController { time_left, est_child, est_total_mean };
    }
    AdmissionVerdict::Admit
}

} // verus!
