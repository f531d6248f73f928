//! The per-request estimation layer: resolves method ids, records child
//! calls, checks the local deadline, and decides when the request's
//! observations are flushed.
use vstd::prelude::*;

use super::fanout::root_prefix;
use super::patterns::{closest_lookup, lookup_fits, AfterChildEstimates, FanoutPatternTable, PatternScope, PatternView};
use super::tracker::{
    began_child, flushed, open_ids, recorded_child, ChildObservation, ChildOutcome, ChildRPCTracker, EstimationTracker, FlushObservations,
};
use super::keys::ParentToChildKey;
use super::latency_map::{read_estimate, view_after_read, EstimateKind, LatencyMap};
use crate::latency_estimator::LatencyEstimator;
use crate::context::{Context, RootMethod};
use crate::deadline::{child_deadline_and_prio, child_deadline_and_prio_of, ChildRpcContext, sat_sub, decimal_header_result, read_decimal_header, HeaderText, ORACLE_REMAINING_AFTER_US_HEADER, local_deadline_exceeded, local_deadline_message, local_deadline_passed, LOCAL_DEADLINE_REASON};
use crate::sorting::{is_sorted, lemma_sorted_values};
use crate::registry::{find_id, registry_wf, MethodId, MethodRegistry, SERVICE_WILDCARD};
use crate::text::early_return_text;

verus! {

/// Per-request estimation state: the child-call tracker and the method's
/// names.
#[derive(Debug)]
pub struct EstimationLayer {
    pub estimation: EstimationTracker,
    pub service: String,
    pub method: String,
}

impl EstimationLayer {
    /// The method's service name.
    pub open spec fn service_view(&self) -> Seq<char> {
        self.service@
    }

    /// The method's name.
    pub open spec fn method_view(&self) -> Seq<char> {
        self.method@
    }

    /// The layer of a request to `service`::`method` that began at `now`.
    /// At ingress (hop 0) the method becomes the root method of the
    /// context. The method and the root method are resolved to ids.
    pub fn new(
        registry: &mut MethodRegistry,
        service: &str,
        method: &str,
        ctx: &mut Context,
        now: u64,
    ) -> (l: EstimationLayer)
        requires
            registry_wf(old(registry)@),
            old(registry)@.next_id < u64::MAX - 1,
        ensures
            registry_wf(final(registry)@),
            final(ctx)@.root_method == if old(ctx)@.hop_count == 0 {
                Some((service@, method@))
            } else {
                old(ctx)@.root_method
            },
            final(ctx)@.hop_count == old(ctx)@.hop_count,
            final(ctx)@.deadline == old(ctx)@.deadline,
            Some(l.estimation.resolved_method_id.0) == find_id(final(registry)@.methods, service@, method@),
            match final(ctx)@.root_method {
                Some((s, m)) => l.estimation.root_method_id matches Some(r) && Some(r.0) == find_id(
                    final(registry)@.methods,
                    s,
                    m,
                ),
                None => l.estimation.root_method_id is None,
            },
            l.estimation.request_start == now,
            l.estimation.fanout.children@.len() == 0,
            l.estimation.fanout.path_prefix == root_prefix(),
            l.estimation.fanout.incorporated_child_count == 0,
            l.service_view() == service@,
            l.method_view() == method@,
    {
        let resolved = registry.get_or_register(service, method);
        if ctx.hop_count() == 0 {
            ctx.set_root_method(RootMethod { service: String::from_str(service), method: String::from_str(method) });
        }
        let ghost mid_registry = registry@;
        let root_id = match ctx.root_method() {
            Some(rm) => Some(registry.get_or_register(rm.service.as_str(), rm.method.as_str())),
            None => None,
        };
        proof {
            if root_id is Some {
                // Registering the root method keeps the method's own id.
                lemma_find_id_stable(mid_registry.methods, registry@.methods, service@, method@);
            }
        }
        EstimationLayer {
            estimation: EstimationTracker::new(resolved, root_id, now),
            service: String::from_str(service),
            method: String::from_str(method),
        }
    }

    /// Before a poll at `now`: with the local-deadline abort policy, a
    /// request whose local deadline has passed returns early.
    pub fn before_poll(&self, ctx: &Context, now: u64, abort_slack: bool) -> (r: Result<(), String>)
        ensures
            abort_slack && local_deadline_passed(ctx@.deadline, now) ==> (r matches Err(msg) && msg@
                == early_return_text(self.service_view(), self.method_view(), None, Some(LOCAL_DEADLINE_REASON@))),
            !(abort_slack && local_deadline_passed(ctx@.deadline, now)) ==> r is Ok,
    {
        if abort_slack && local_deadline_exceeded(ctx, now) {
            return Err(local_deadline_message(self.service.as_str(), self.method.as_str()));
        }
        Ok(())
    }

    /// After a poll at `now`: with the local-deadline abort policy, a
    /// still-pending request whose local deadline has passed returns early.
    pub fn after_poll(&self, ctx: &Context, pending: bool, now: u64, abort_slack: bool) -> (r: Result<(), String>)
        ensures
            pending && abort_slack && local_deadline_passed(ctx@.deadline, now) ==> (r matches Err(msg)
                && msg@ == early_return_text(
                self.service_view(),
                self.method_view(),
                None,
                Some(LOCAL_DEADLINE_REASON@),
            )),
            !(pending && abort_slack && local_deadline_passed(ctx@.deadline, now)) ==> r is Ok,
    {
        if pending {
            return self.before_poll(ctx, now, abort_slack);
        }
        Ok(())
    }

    /// Before a child call to `child_service`::`child_method` at `now`:
    /// resolves the child's ids, records the call, and returns its tracker,
    /// the time left until the end-to-end deadline, and the estimates of the
    /// remaining work after the child, capped at the time left, read from
    /// the per-edge map `after_child` and the fanout-group tables `patterns`
    /// and `service_patterns` (see [`group_after_child`]).
    pub fn before_child_rpc<E: LatencyEstimator>(
        &mut self,
        registry: &mut MethodRegistry,
        ctx: &Context,
        child_service: &str,
        child_method: &str,
        now: u64,
        fanout_enabled: bool,
        after_child: &mut LatencyMap<ParentToChildKey, E>,
        patterns: &FanoutPatternTable<E>,
        service_patterns: &FanoutPatternTable<E>,
    ) -> (r: (ChildRPCTracker, u64, AfterChildEstimates))
        requires
            registry_wf(old(registry)@),
            old(registry)@.next_id < u64::MAX - 1,
            ctx@.gateway_entry + ctx@.slo <= u64::MAX,
            old(self).estimation.fanout.children@.len() < usize::MAX,
            old(after_child).wf(),
            patterns.wf(),
            service_patterns.wf(),
            forall|s1: EstimationTracker, c: MethodId, cs: MethodId, t: ChildRPCTracker|
                #[trigger] began_child(old(self).estimation, s1, c, cs, now, fanout_enabled, t) ==> group_fits::<E>(
                    patterns@,
                    service_patterns@,
                    t,
                    sat_sub((ctx@.gateway_entry + ctx@.slo) as u64, now),
                ),
        ensures
            registry_wf(final(registry)@),
            Some(r.0.child_id.0) == find_id(final(registry)@.methods, child_service@, child_method@),
            find_id(final(registry)@.services, child_service@, SERVICE_WILDCARD@) is Some,
            began_child(
                old(self).estimation,
                final(self).estimation,
                r.0.child_id,
                MethodId(find_id(final(registry)@.services, child_service@, SERVICE_WILDCARD@)->0),
                now,
                fanout_enabled,
                r.0,
            ),
            r.1 == sat_sub((ctx@.gateway_entry + ctx@.slo) as u64, now),
            final(after_child).wf(),
            final(after_child)@ == view_after_read::<ParentToChildKey, E>(old(after_child)@, r.0.key),
            final(after_child).last_observations() == old(after_child).last_observations(),
            r.2 == group_after_child::<E>(old(after_child)@, patterns@, service_patterns@, r.0, r.1),
            final(self).service_view() == old(self).service_view(),
            final(self).method_view() == old(self).method_view(),
    {
        let ghost before = self.estimation;
        let (child_id, child_service_id) = registry.get_or_register_with_service(child_service, child_method);
        let tracker = self.estimation.begin_child(child_id, child_service_id, now, fanout_enabled);
        assert(began_child(before, self.estimation, child_id, child_service_id, now, fanout_enabled, tracker));
        assert(Some(child_service_id.0) == find_id(registry@.services, child_service@, SERVICE_WILDCARD@));
        let time_left = ctx.e2e_deadline().saturating_sub(now);
        proof {
            if fanout_enabled {
                lemma_sorted_values(open_ids(before.fanout.children@, false).push(child_id.0));
                lemma_sorted_values(open_ids(before.fanout.children@, true).push(child_service_id.0));
            }
        }
        let estimates = group_after_child_estimates(after_child, patterns, service_patterns, &tracker, time_left);
        (tracker, time_left, estimates)
    }

    /// Settles the child call's deadline and priority from the (decayed)
    /// remaining-work estimates; see [`child_deadline_and_prio_of`]. The
    /// child's deadline never exceeds the parent's, and without predictive
    /// scheduling the child keeps the parent's priority.
    pub fn set_child_deadline(
        &self,
        ctx: &Context,
        now: u64,
        priority_est_remaining: u64,
        deadline_full_est_remaining: u64,
        deadline_est_remaining: u64,
        sched_pred: bool,
        deadline_equals_slack: bool,
        child_rpc: &mut ChildRpcContext,
    )
        ensures
            (final(child_rpc).deadline, final(child_rpc).prio_hint@) == child_deadline_and_prio_of(
                ctx@.deadline,
                ctx@.prio_hint,
                now,
                priority_est_remaining,
                deadline_full_est_remaining,
                deadline_est_remaining,
                sched_pred,
                deadline_equals_slack,
            ),
            final(child_rpc).deadline <= ctx@.deadline,
            !sched_pred ==> final(child_rpc).prio_hint@ == ctx@.prio_hint,
            final(child_rpc).hop_count == old(child_rpc).hop_count,
            final(child_rpc).tokens == old(child_rpc).tokens,
    {
        let (deadline, prio_hint) = child_deadline_and_prio(
            ctx,
            now,
            priority_est_remaining,
            deadline_full_est_remaining,
            deadline_est_remaining,
            sched_pred,
            deadline_equals_slack,
        );
        child_rpc.deadline = deadline;
        child_rpc.prio_hint = prio_hint;
    }

    /// After the child call of `tracker` ended at `now` with `outcome`; see
    /// [`EstimationTracker::record_child_complete`].
    pub fn after_child_rpc(&mut self, tracker: &ChildRPCTracker, outcome: ChildOutcome, now: u64) -> (r:
        ChildObservation)
        ensures
            recorded_child(old(self).estimation, final(self).estimation, *tracker, outcome, now, r),
            final(self).service_view() == old(self).service_view(),
            final(self).method_view() == old(self).method_view(),
    {
        self.estimation.record_child_complete(tracker, outcome, now)
    }

    /// At the end of the request (at `now`): the estimator learns only from
    /// on-time work, so nothing is flushed when the request returned early,
    /// or when its subtree signaled a late hop under the soft-deadline
    /// signal policy; otherwise the observations are flushed.
    pub fn finalize(
        &mut self,
        early_return: bool,
        subtree_signaled: bool,
        signal_slack: bool,
        now: u64,
        fanout_enabled: bool,
    ) -> (r: Option<FlushObservations>)
        ensures
            (early_return || (signal_slack && subtree_signaled)) ==> r is None && final(self).estimation
                == old(self).estimation,
            !(early_return || (signal_slack && subtree_signaled)) ==> (r matches Some(obs) && flushed(
                old(self).estimation,
                final(self).estimation,
                now,
                fanout_enabled,
                obs,
            )),
            final(self).service_view() == old(self).service_view(),
            final(self).method_view() == old(self).method_view(),
    {
        if early_return {
            None
        } else if signal_slack && subtree_signaled {
            None
        } else {
            Some(self.estimation.flush(now, fanout_enabled))
        }
    }
}

/// `o` capped at `cap`, or 0 when absent.
pub open spec fn capped_or_zero(o: Option<u64>, cap: u64) -> u64 {
    match o {
        Some(v) => if v < cap { v } else { cap },
        None => 0,
    }
}

/// The remaining-work estimates after the child of `key` read from the
/// per-edge map `m`, each capped at `cap` and 0 where the estimator cannot
/// estimate yet. The full estimate is read first; the mean and floor are
/// read from the map as that first read left it.
pub open spec fn legacy_after_child<E: LatencyEstimator>(
    m: Map<ParentToChildKey, E::V>,
    key: ParentToChildKey,
    cap: u64,
) -> AfterChildEstimates {
    let m1 = view_after_read::<ParentToChildKey, E>(m, key);
    AfterChildEstimates {
        full: capped_or_zero(read_estimate::<ParentToChildKey, E>(m, key, EstimateKind::Full), cap),
        mean: capped_or_zero(read_estimate::<ParentToChildKey, E>(m1, key, EstimateKind::Mean), cap),
        floor: capped_or_zero(read_estimate::<ParentToChildKey, E>(m1, key, EstimateKind::Floor), cap),
    }
}

fn cap_or_zero(o: Option<u64>, cap: u64) -> (r: u64)
    ensures
        r == capped_or_zero(o, cap),
{
    match o {
        Some(v) => if v < cap { v } else { cap },
        None => 0,
    }
}

/// Reads the remaining-work estimates after the child of `key` from the
/// per-edge map; see [`legacy_after_child`].
pub fn after_child_estimates<E: LatencyEstimator>(
    after_child: &mut LatencyMap<ParentToChildKey, E>,
    key: ParentToChildKey,
    cap: u64,
) -> (r: AfterChildEstimates)
    requires
        old(after_child).wf(),
    ensures
        final(after_child).wf(),
        final(after_child)@ == view_after_read::<ParentToChildKey, E>(old(after_child)@, key),
        final(after_child).last_observations() == old(after_child).last_observations(),
        r == legacy_after_child::<E>(old(after_child)@, key, cap),
{
    let full = after_child.get_estimate(key);
    let mean = after_child.get_mean_estimate(key);
    let floor = after_child.get_mean_floor_estimate(key);
    AfterChildEstimates {
        full: cap_or_zero(full, cap),
        mean: cap_or_zero(mean, cap),
        floor: cap_or_zero(floor, cap),
    }
}

/// The estimate learned from fanout groups for the call of `t`, read from
/// the method-signature table `ps` and the service-signature table `ss`
/// with each value capped at `cap`: none when the call's base signature has
/// at most one id; otherwise the first present of the closest lookups for
/// the base signature under the call's path prefix, then in aggregate, and
/// then for the base service signature under the service path prefix, then
/// in aggregate.
pub open spec fn group_lookup<E: LatencyEstimator>(
    ps: Seq<PatternView<E::V>>,
    ss: Seq<PatternView<E::V>>,
    t: ChildRPCTracker,
    cap: u64,
) -> Option<AfterChildEstimates> {
    let root = t.key.0.0;
    let parent = t.key.1.0;
    let base = t.base_signature@;
    let sbase = t.base_service_signature@;
    if base.len() <= 1 {
        None
    } else {
        match closest_lookup::<E>(ps, root, parent, PatternScope::Path(t.path_prefix), base, cap) {
            Some(e) => Some(e),
            None => match closest_lookup::<E>(ps, root, parent, PatternScope::Aggregate, base, cap) {
                Some(e) => Some(e),
                None => match closest_lookup::<E>(ss, root, parent, PatternScope::Path(t.service_path_prefix), sbase, cap) {
                    Some(e) => Some(e),
                    None => closest_lookup::<E>(ss, root, parent, PatternScope::Aggregate, sbase, cap),
                },
            },
        }
    }
}

/// Whether each lookup that [`group_lookup`] makes stays within its
/// accumulators (see [`lookup_fits`]).
pub open spec fn group_fits<E: LatencyEstimator>(
    ps: Seq<PatternView<E::V>>,
    ss: Seq<PatternView<E::V>>,
    t: ChildRPCTracker,
    cap: u64,
) -> bool {
    let root = t.key.0.0;
    let parent = t.key.1.0;
    let base = t.base_signature@;
    let sbase = t.base_service_signature@;
    let path = PatternScope::Path(t.path_prefix);
    let spath = PatternScope::Path(t.service_path_prefix);
    t.base_signature@.len() > 1 ==> {
        &&& lookup_fits::<E>(ps, root, parent, path, base, cap)
        &&& closest_lookup::<E>(ps, root, parent, path, base, cap) is None ==> {
            &&& lookup_fits::<E>(ps, root, parent, PatternScope::Aggregate, base, cap)
            &&& closest_lookup::<E>(ps, root, parent, PatternScope::Aggregate, base, cap) is None ==> {
                &&& lookup_fits::<E>(ss, root, parent, spath, sbase, cap)
                &&& closest_lookup::<E>(ss, root, parent, spath, sbase, cap) is None ==> lookup_fits::<E>(
                    ss,
                    root,
                    parent,
                    PatternScope::Aggregate,
                    sbase,
                    cap,
                )
            }
        }
    }
}

/// The smaller of `a` and `b`.
pub open spec fn min_u64(a: u64, b: u64) -> u64 {
    if a < b { a } else { b }
}

/// The remaining-work estimates after the call of `t`, capped at `cap`:
/// the full estimate from the per-edge map `m` (see [`legacy_after_child`]);
/// the mean and floor estimates the smaller of the per-edge ones and those
/// learned from fanout groups (see [`group_lookup`]), when there are such.
/// The group estimates thus remove sibling-wait time without ever making
/// the estimates larger than the per-edge ones.
pub open spec fn group_after_child<E: LatencyEstimator>(
    m: Map<ParentToChildKey, E::V>,
    ps: Seq<PatternView<E::V>>,
    ss: Seq<PatternView<E::V>>,
    t: ChildRPCTracker,
    cap: u64,
) -> AfterChildEstimates {
    let legacy = legacy_after_child::<E>(m, t.key, cap);
    match group_lookup::<E>(ps, ss, t, cap) {
        None => legacy,
        Some(g) => AfterChildEstimates {
            full: legacy.full,
            mean: min_u64(legacy.mean, g.mean),
            floor: min_u64(legacy.floor, g.floor),
        },
    }
}

fn min_of(a: u64, b: u64) -> (r: u64)
    ensures
        r == min_u64(a, b),
{
    if a < b {
        a
    } else {
        b
    }
}

/// Reads the remaining-work estimates after the call of `tracker`, capped
/// at `cap`, from the per-edge map and the fanout-group tables; see
/// [`group_after_child`].
pub fn group_after_child_estimates<E: LatencyEstimator>(
    after_child: &mut LatencyMap<ParentToChildKey, E>,
    patterns: &FanoutPatternTable<E>,
    service_patterns: &FanoutPatternTable<E>,
    tracker: &ChildRPCTracker,
    cap: u64,
) -> (r: AfterChildEstimates)
    requires
        old(after_child).wf(),
        patterns.wf(),
        service_patterns.wf(),
        is_sorted(tracker.base_signature@),
        is_sorted(tracker.base_service_signature@),
        group_fits::<E>(patterns@, service_patterns@, *tracker, cap),
    ensures
        final(after_child).wf(),
        final(after_child)@ == view_after_read::<ParentToChildKey, E>(old(after_child)@, tracker.key),
        final(after_child).last_observations() == old(after_child).last_observations(),
        r == group_after_child::<E>(old(after_child)@, patterns@, service_patterns@, *tracker, cap),
{
    let legacy = after_child_estimates(after_child, tracker.key, cap);
    if tracker.base_signature.len() <= 1 {
        return legacy;
    }
    let root = tracker.key.0.0;
    let parent = tracker.key.1.0;
    let base = tracker.base_signature.as_slice();
    let sbase = tracker.base_service_signature.as_slice();
    let found = match patterns.closest_compatible_lookup(root, parent, PatternScope::Path(tracker.path_prefix), base, cap) {
        Some(e) => Some(e),
        None => match patterns.closest_compatible_lookup(root, parent, PatternScope::Aggregate, base, cap) {
            Some(e) => Some(e),
            None => match service_patterns.closest_compatible_lookup(
                root,
                parent,
                PatternScope::Path(tracker.service_path_prefix),
                sbase,
                cap,
            ) {
                Some(e) => Some(e),
                None => service_patterns.closest_compatible_lookup(root, parent, PatternScope::Aggregate, sbase, cap),
            },
        },
    };
    match found {
        None => legacy,
        Some(g) => AfterChildEstimates {
            full: legacy.full,
            mean: min_of(legacy.mean, g.mean),
            floor: min_of(legacy.floor, g.floor),
        },
    }
}

/// A fanout estimate `fanout` below the per-edge estimate `legacy` moved
/// toward it by the fraction `num / den` of the gap, rounded down; an
/// estimate at or above `legacy` gives `legacy`.
pub open spec fn blended_toward_legacy(fanout: u64, legacy: u64, num: u64, den: u64) -> u64 {
    if fanout >= legacy {
        legacy
    } else {
        (fanout + ((legacy - fanout) * num) / (den as int)) as u64
    }
}

/// Moves the fanout estimate `fanout` toward the per-edge estimate
/// `legacy` by the weight `weight_num / weight_den`, a fraction between 0
/// and 1; see [`blended_toward_legacy`].
pub fn blend_toward_legacy(fanout: u64, legacy: u64, weight_num: u64, weight_den: u64) -> (r: u64)
    requires
        weight_den > 0,
        weight_num <= weight_den,
    ensures
        r == blended_toward_legacy(fanout, legacy, weight_num, weight_den),
        min_u64(fanout, legacy) <= r <= legacy,
{
    if fanout >= legacy {
        return legacy;
    }
    let gap: u64 = legacy - fanout;
    assert((gap as int) * (weight_num as int) <= 0xffff_ffff_ffff_ffffu64 as int * 0xffff_ffff_ffff_ffffu64 as int)
        by (nonlinear_arith)
        requires
            gap <= 0xffff_ffff_ffff_ffffu64,
            weight_num <= 0xffff_ffff_ffff_ffffu64,
    ;
    let prod: u128 = (gap as u128) * (weight_num as u128);
    let moved: u128 = prod / (weight_den as u128);
    assert(moved <= gap) by (nonlinear_arith)
        requires
            prod == gap * weight_num,
            moved == prod / (weight_den as u128),
            weight_num <= weight_den,
            weight_den > 0,
    ;
    fanout + (moved as u64)
}

/// Whether the soft deadline signal is due at `now`: under the signal
/// policy, when the local deadline has passed.
pub fn deadline_signal_due(ctx: &Context, now: u64, signal_slack: bool) -> (r: bool)
    ensures
        r == (signal_slack && local_deadline_passed(ctx@.deadline, now)),
{
    signal_slack && local_deadline_exceeded(ctx, now)
}

/// Reads the exact remaining work after a call to
/// `child_service`::`child_method` from the oracle's remaining-after header
/// `value`; see [`crate::deadline::read_decimal_header`].
pub fn continuation_reference(
    value: HeaderText,
    child_service: &str,
    child_method: &str,
) -> (r: Result<u64, String>)
    ensures
        decimal_header_result(
            "exact-continuation"@,
            value,
            ORACLE_REMAINING_AFTER_US_HEADER@,
            child_service@,
            child_method@,
            r,
        ),
{
    read_decimal_header("exact-continuation", value, ORACLE_REMAINING_AFTER_US_HEADER, child_service, child_method)
}

/// The estimates of the remaining work from the exact reference: each is
/// the reference capped at `time_left`. Reading errors pass through.
pub fn exact_continuation_estimate(
    value: HeaderText,
    child_service: &str,
    child_method: &str,
    time_left: u64,
) -> (r: Result<AfterChildEstimates, String>)
    ensures
        exists|read: Result<u64, String>|
            decimal_header_result(
                "exact-continuation"@,
                value,
                ORACLE_REMAINING_AFTER_US_HEADER@,
                child_service@,
                child_method@,
                read,
            ) && match read {
                Ok(v) => {
                    let e = if v < time_left { v } else { time_left };
                    r == Ok::<AfterChildEstimates, String>(AfterChildEstimates { full: e, mean: e, floor: e })
                },
                Err(msg) => r == Err::<AfterChildEstimates, String>(msg),
            },
{
    let read = continuation_reference(value, child_service, child_method);
    match read {
        Ok(v) => {
            let e = if v < time_left { v } else { time_left };
            Ok(AfterChildEstimates { full: e, mean: e, floor: e })
        },
        Err(msg) => Err(msg),
    }
}

/// The SplitMix64 finalizer applied to `key` plus the golden-ratio
/// increment: a stable, well-spread 64-bit value of `key`.
pub open spec fn sample_mix(key: u64) -> u64 {
    let a = vstd::wrapping::u64_specs::wrapping_add(key, 0x9e37_79b9_7f4a_7c15u64);
    let b = vstd::wrapping::u64_specs::wrapping_mul(a ^ (a >> 30u64), 0xbf58_476d_1ce4_e5b9u64);
    let c = vstd::wrapping::u64_specs::wrapping_mul(b ^ (b >> 27u64), 0x94d0_49bb_1331_11ebu64);
    c ^ (c >> 31u64)
}

/// The stable 64-bit value on which the sampling of `key` is decided; see
/// [`sample_mix`].
pub fn deterministic_sample_mix(key: u64) -> (r: u64)
    ensures
        r == sample_mix(key),
{
    let mut mixed = key.wrapping_add(0x9e37_79b9_7f4a_7c15);
    mixed = (mixed ^ (mixed >> 30)).wrapping_mul(0xbf58_476d_1ce4_e5b9);
    mixed = (mixed ^ (mixed >> 27)).wrapping_mul(0x94d0_49bb_1331_11eb);
    mixed ^ (mixed >> 31)
}

/// The scheduling estimate of an exact continuation when the order of a
/// sampled burst is reversed: complemented around the SLO when `sampled`
/// and the continuation is not zero, unchanged otherwise.
pub fn reverse_priority_order(exact_remaining: u64, slo_us: u64, sampled: bool) -> (r: u64)
    ensures
        r == if exact_remaining > 0 && sampled { sat_sub(slo_us, exact_remaining) } else { exact_remaining },
{
    if exact_remaining > 0 && sampled {
        return slo_us.saturating_sub(exact_remaining);
    }
    exact_remaining
}

/// Registering more entries keeps every id already found.
proof fn lemma_find_id_stable(
    before: Seq<crate::registry::EntryView>,
    after: Seq<crate::registry::EntryView>,
    service: Seq<char>,
    method: Seq<char>,
)
    requires
        after.len() >= before.len(),
        forall|i: int| 0 <= i < before.len() ==> after[i] == before[i],
        find_id(before, service, method) is Some,
    ensures
        find_id(after, service, method) == find_id(before, service, method),
    decreases before.len(),
{
    if before.len() > 0 {
        assert(after[0] == before[0]);
        if !(before[0].service == service && before[0].method == method) {
            assert forall|i: int| 0 <= i < before.drop_first().len() implies after.drop_first()[i] == before.drop_first()[i] by {
                assert(after[i + 1] == before[i + 1]);
            }
            lemma_find_id_stable(before.drop_first(), after.drop_first(), service, method);
        }
    }
}

} // verus!
