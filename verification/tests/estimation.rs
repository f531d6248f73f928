use masa::estimation::fanout::{
    is_multiset_subset, recover_groups, recover_path_groups, stable_hash, ChildRecord, PathPrefix,
};
use masa::estimation::keys::{MethodKey, ParentToChildKey, RootToLocalKey};
use masa::estimation::latency_map::LatencyMap;
use masa::estimation::patterns::{AfterChildEstimates, FanoutPatternTable, PatternScope};
use masa::estimation::tracker::{ChildObservation, ChildOutcome, EstimationTracker, FanoutInvocationState};
use masa::latency_estimator::ewma::LatencyEwma;
use masa::latency_estimator::rms::LatencyRms;
use masa::registry::{MethodId, MethodRegistry};
use masa::context::ContextBuilder;
use masa::deadline::ChildRpcContext;
use masa::estimation::layer::EstimationLayer;

const MS: u64 = 1_000;

fn mid(n: u64) -> MethodId {
    MethodId(n)
}

fn child(child_id: MethodId, start: u64, end: u64) -> ChildRecord {
    ChildRecord { child_id, child_service_id: MethodId(9_000), start, end: Some(end), terminal: true }
}

fn sorted(mut v: Vec<u64>) -> Vec<u64> {
    v.sort();
    v
}

#[test]
fn multiset_subset_basic() {
    let (a, b, c) = (1u64, 2u64, 3u64);
    assert!(is_multiset_subset(&[a], &[a, b]));
    assert!(is_multiset_subset(&[a, b], &[a, b, c]));
    assert!(!is_multiset_subset(&[a, a], &[a, b]));
    assert!(is_multiset_subset(&[a, a], &[a, a, b]));
    assert!(!is_multiset_subset(&[c], &[a, b]));
}

#[test]
fn recover_groups_parallel() {
    let a = mid(101);
    let b = mid(102);
    let t0 = 1_000_000;
    let children = vec![child(a, t0, t0 + 10 * MS), child(b, t0 + MS, t0 + 20 * MS)];
    let groups = recover_groups(&children, t0 + 25 * MS);
    assert_eq!(groups.len(), 1);
    let (sig, post_join) = &groups[0];
    assert_eq!(sig, &sorted(vec![a.0, b.0]));
    assert!((4500..=5500).contains(post_join), "post_join={}", post_join);
}

#[test]
fn recover_groups_sequential() {
    let a = mid(201);
    let b = mid(202);
    let t0 = 1_000_000;
    let children = vec![child(a, t0, t0 + 5 * MS), child(b, t0 + 6 * MS, t0 + 10 * MS)];
    let groups = recover_groups(&children, t0 + 11 * MS);
    assert_eq!(groups.len(), 2);
}

#[test]
fn recover_path_groups_tracks_observable_prefixes() {
    let x = mid(301);
    let y = mid(302);
    let a = mid(303);
    let b = mid(304);
    let t0 = 1_000_000;
    let children = vec![
        child(x, t0, t0 + 10 * MS),
        child(y, t0 + MS, t0 + 20 * MS),
        child(a, t0 + 30 * MS, t0 + 40 * MS),
        child(b, t0 + 31 * MS, t0 + 50 * MS),
        child(a, t0 + 60 * MS, t0 + 70 * MS),
        child(b, t0 + 61 * MS, t0 + 80 * MS),
    ];
    let groups = recover_path_groups(&children, t0 + 90 * MS);

    let sig_xy = sorted(vec![x.0, y.0]);
    let sig_ab = sorted(vec![a.0, b.0]);
    let root = PathPrefix::root();
    let after_xy = root.append_signature(&sig_xy);
    let after_first_ab = after_xy.append_signature(&sig_ab);

    assert_eq!(groups.len(), 3);
    assert_eq!(groups[0].path_prefix, root);
    assert_eq!(groups[0].signature, sig_xy);
    assert_eq!(groups[0].post_join_us, 70_000);
    assert_eq!(groups[1].path_prefix, after_xy);
    assert_eq!(groups[1].signature, sig_ab);
    assert_eq!(groups[1].post_join_us, 40_000);
    assert_eq!(groups[2].path_prefix, after_first_ab);
    assert_eq!(groups[2].signature, sig_ab);
    assert_eq!(groups[2].post_join_us, 10_000);
}

#[test]
fn group_recovery_ignores_children_without_end_and_orders_by_start() {
    let t0 = 1_000;
    let children = vec![
        child(mid(2), t0 + 50, t0 + 60),
        ChildRecord { child_id: mid(3), child_service_id: mid(9), start: t0, end: None, terminal: true },
        child(mid(1), t0, t0 + 10),
    ];
    let groups = recover_groups(&children, t0 + 100);
    assert_eq!(groups, vec![(vec![1], 90), (vec![2], 40)]);
    // A group that ended after the parent has no post-join time.
    assert_eq!(recover_groups(&[child(mid(1), 0, 500)], 100), vec![(vec![1], 0)]);
}

#[test]
fn prefix_hash_is_fnv_over_little_endian_bytes() {
    // FNV-1a of eight zero bytes from the offset basis.
    let mut h: u64 = 0xcbf2_9ce4_8422_2325;
    for _ in 0..8 {
        h = h.wrapping_mul(0x100_0000_01b3);
    }
    assert_eq!(stable_hash(MethodId(0)), h);
    let p = PathPrefix::root().append_signature(&[1, 2]);
    assert_eq!(p.depth(), 1);
    assert_ne!(p, PathPrefix::root());
    assert_ne!(p, PathPrefix::root().append_signature(&[2, 1]));
    assert_eq!(p, PathPrefix::root().append_signature(&[1, 2]));
}

#[test]
fn prefix_scoped_lookup_separates_repeated_signatures() {
    let (root, parent, a, b) = (401, 402, 403, 404);
    let sig_ab = sorted(vec![a, b]);
    let first_prefix = PathPrefix::root();
    let second_prefix = first_prefix.append_signature(&sig_ab);

    let mut table = FanoutPatternTable::<LatencyEwma>::new();
    table.update(root, parent, PatternScope::Path(first_prefix), sig_ab.clone(), 67_000);
    table.update(root, parent, PatternScope::Path(second_prefix), sig_ab.clone(), 7_000);

    let first = table.lookup_estimate(root, parent, first_prefix, &sig_ab, u64::MAX);
    let second = table.lookup_estimate(root, parent, second_prefix, &sig_ab, u64::MAX);

    assert_eq!(first.full, 67_000);
    assert_eq!(second.full, 7_000);
}

#[test]
fn lookup_prefers_exact_optional_signature_under_same_prefix() {
    let (root, parent, a, b) = (501, 502, 503, 504);
    let sig_a = vec![a];
    let sig_ab = sorted(vec![a, b]);
    let prefix = PathPrefix::root();

    let mut table = FanoutPatternTable::<LatencyEwma>::new();
    for _ in 0..3 {
        table.update(root, parent, PatternScope::Path(prefix), sig_a.clone(), 100);
    }
    table.update(root, parent, PatternScope::Path(prefix), sig_ab, 200);

    let estimate = table.lookup_estimate(root, parent, prefix, &sig_a, u64::MAX);
    assert_eq!(estimate.full, 100);
}

#[test]
fn lookup_uses_smallest_compatible_signature_when_exact_is_cold() {
    let (root, parent, a, b, c) = (511, 512, 513, 514, 515);
    let sig_ab = sorted(vec![a, b]);
    let sig_abc = sorted(vec![a, b, c]);
    let prefix = PathPrefix::root();

    let mut table = FanoutPatternTable::<LatencyEwma>::new();
    table.update(root, parent, PatternScope::Path(prefix), sig_ab.clone(), 200);
    table.update(root, parent, PatternScope::Path(prefix), sig_abc, 900);

    let estimate = table.lookup_estimate(root, parent, prefix, &[a], u64::MAX);
    assert_eq!(estimate.full, 200);
}

#[test]
fn lookup_falls_back_to_aggregate_when_prefix_is_cold() {
    let (root, parent, a, b, x) = (601, 602, 603, 604, 605);
    let sig_ab = sorted(vec![a, b]);
    let cold_prefix = PathPrefix::root().append_signature(&[x]);

    let mut table = FanoutPatternTable::<LatencyEwma>::new();
    table.update(root, parent, PatternScope::Aggregate, sig_ab.clone(), 42_000);

    let estimate = table.lookup_estimate(root, parent, cold_prefix, &sig_ab, u64::MAX);
    assert_eq!(estimate.full, 42_000);
}

#[test]
fn lookup_averages_compatible_patterns_by_occurrence_and_caps() {
    let (root, parent) = (701, 702);
    let prefix = PathPrefix::root();
    let mut table = FanoutPatternTable::<LatencyEwma>::new();
    // Two compatible patterns of equal length: weight 3 at 100, weight 1 at 500.
    for _ in 0..3 {
        table.update(root, parent, PatternScope::Path(prefix), vec![1, 2], 100);
    }
    table.update(root, parent, PatternScope::Path(prefix), vec![1, 3], 500);
    let avg = table.lookup_estimate(root, parent, prefix, &[1], u64::MAX);
    assert_eq!(avg, AfterChildEstimates { full: 200, mean: 200, floor: 200 });
    let capped = table.lookup_estimate(root, parent, prefix, &[1], 150);
    assert_eq!(capped.full, (100 * 3 + 150) / 4);
    // An unknown (root, parent) pair gives zeros.
    let none = table.lookup_estimate(1, 1, prefix, &[1], u64::MAX);
    assert_eq!(none, AfterChildEstimates::default());
}

#[test]
fn fanout_state_advances_observable_prefix_before_open_group() {
    let (a, b, c) = (mid(11), mid(12), mid(13));
    let svc = mid(10);
    let t0 = 1_000_000;
    let mut state = FanoutInvocationState::default();
    state.children.push(ChildRecord { child_id: a, child_service_id: svc, start: t0, end: Some(t0 + 10 * MS), terminal: true });
    state.children.push(ChildRecord { child_id: b, child_service_id: svc, start: t0 + MS, end: Some(t0 + 20 * MS), terminal: true });
    state.children.push(ChildRecord { child_id: c, child_service_id: svc, start: t0 + 30 * MS, end: None, terminal: false });

    state.refresh_path_prefix_before_open_group(t0 + 30 * MS);

    let sig = sorted(vec![a.0, b.0]);
    assert_eq!(state.path_prefix, PathPrefix::root().append_signature(&sig));
    assert_eq!(state.service_path_prefix, PathPrefix::root().append_signature(&[svc.0, svc.0]));
    assert_eq!(state.incorporated_child_count, 2);
}

#[test]
fn estimation_tracker_issues_open_group_with_completed_prefix() {
    let root = mid(21);
    let parent = mid(22);
    let (child_a, child_b, child_c) = (mid(23), mid(24), mid(25));
    let service = mid(20);
    let mut tracker = EstimationTracker::new(parent, Some(root), 0);

    let first = tracker.begin_child(child_a, service, 100, true);
    let obs = tracker.record_child_complete(&first, ChildOutcome::Completed, 150);
    assert_eq!(
        obs,
        ChildObservation::ChildWallclock(ParentToChildKey(root, parent, child_a), 50)
    );

    let second = tracker.begin_child(child_b, service, 200, true);
    assert_eq!(second.path_prefix, PathPrefix::root());

    let third = tracker.begin_child(child_c, service, 210, true);
    assert_eq!(third.path_prefix, PathPrefix::root().append_signature(&[child_a.0]));
    assert_eq!(third.base_signature, sorted(vec![child_b.0, child_c.0]));
    assert_eq!(third.base_service_signature, vec![service.0, service.0]);
}

#[test]
fn estimation_tracker_flushes_parent_observations() {
    let root = mid(31);
    let parent = mid(32);
    let (a, b) = (mid(33), mid(34));
    let service = mid(30);
    let mut tracker = EstimationTracker::new(parent, Some(root), 1_000);

    let ta = tracker.begin_child(a, service, 1_100, true);
    let tb = tracker.begin_child(b, service, 1_110, true);
    tracker.record_child_complete(&ta, ChildOutcome::Completed, 1_200);
    tracker.record_child_complete(&tb, ChildOutcome::Signaled, 1_300);
    let out = tracker.flush(1_500, true);

    assert_eq!(
        out.after_child,
        vec![(ParentToChildKey(root, parent, a), 300), (ParentToChildKey(root, parent, b), 200)]
    );
    assert_eq!(out.groups.len(), 1);
    assert_eq!(out.groups[0].signature, sorted(vec![a.0, b.0]));
    assert_eq!(out.groups[0].post_join_us, 200);
    assert_eq!(out.method_wallclock, Some((RootToLocalKey(root, parent), 500)));
    // The invocation state is cleared.
    assert_eq!(tracker.fanout.children.len(), 0);
}

#[test]
fn early_returned_child_is_left_out_of_groups() {
    let parent = mid(42);
    let mut tracker = EstimationTracker::new(parent, None, 0);
    let t = tracker.begin_child(mid(43), mid(40), 10, false);
    let obs = tracker.record_child_complete(&t, ChildOutcome::EarlyReturn, 20);
    assert_eq!(obs, ChildObservation::EarlyReturnFeedback(ParentToChildKey(parent, parent, mid(43))));
    let out = tracker.flush(30, true);
    assert!(out.after_child.is_empty());
    assert!(out.groups.is_empty());
    assert_eq!(out.method_wallclock, None);
}

#[test]
fn standard_test_server_context_rms_integration() {
    let mut map = LatencyMap::<ParentToChildKey, LatencyRms>::new();
    let key = ParentToChildKey(MethodId(1), MethodId(1), MethodId(2));

    map.insert(key, LatencyRms::new(2));

    map.track(key, 10);
    assert_eq!(map.get_estimate(key), Some(0));

    map.track(key, 10);
    assert_eq!(map.get_estimate(key), Some(10));

    map.track(key, 20);
    assert_eq!(map.get_estimate(key), Some(10));

    map.track(key, 20);
    assert_eq!(map.get_estimate(key), Some(15));
}

#[test]
fn test_latency_map_basic_operations() {
    let mut map = LatencyMap::<MethodKey, LatencyRms>::new();
    let key = MethodKey(MethodId(7));

    assert!(map.is_empty());
    assert_eq!(map.get_estimate(key), None);
    assert!(!map.is_empty());

    map.insert(key, LatencyRms::new(2));

    map.track(key, 100);
    assert_eq!(map.get_estimate(key), Some(0));

    map.track(key, 100);
    assert_eq!(map.get_estimate(key), Some(100));

    let snapshot = map.snapshot();
    let count = snapshot.iter().filter(|(k, _)| *k == key).count();
    assert_eq!(count, 1);
}

#[test]
fn hooks_test_server_context_rms_integration() {
    let mut map = LatencyMap::<ParentToChildKey, LatencyRms>::new();
    let mut registry = MethodRegistry::new();
    let parent_mid = registry.get_or_register("TestIntegration", "Parent");
    let child_mid = registry.get_or_register("TestIntegration", "Child");
    let root_mid = registry.get_or_register("TestIntegration", "Root");
    let key = ParentToChildKey::root_rpc_method(root_mid)
        .parent_rpc_method(parent_mid)
        .child_rpc_method(child_mid);

    map.insert(key, LatencyRms::new(2));

    map.track(key, 10);
    assert_eq!(map.get_estimate(key), Some(0));

    map.track(key, 10);
    assert_eq!(map.get_estimate(key), Some(10));

    map.track(key, 20);
    assert_eq!(map.get_estimate(key), Some(10));

    map.track(key, 20);
    assert_eq!(map.get_estimate(key), Some(15));
}

#[test]
fn hooks_test_local_deadline_policy_integration() {
    let mut registry = MethodRegistry::new();
    let now = 1_000_000u64;
    let slo_us = 100_000u64;
    let deadline = now + slo_us;
    let mut ctx = ContextBuilder::new("IntegrationService", 123)
        .slo(slo_us)
        .gateway_entry(now)
        .deadline(deadline)
        .build();

    let mut layer = EstimationLayer::new(&mut registry, "IntegrationService", "ParentMethod", &mut ctx, now);

    let mut after_child = LatencyMap::<ParentToChildKey, LatencyEwma>::new();
    let (child_tracker, time_left, estimates) = layer.before_child_rpc(
        &mut registry,
        &ctx,
        "IntegrationService",
        "ChildMethod",
        now + 10,
        true,
        &mut after_child,
        &FanoutPatternTable::new(),
        &FanoutPatternTable::new(),
    );
    assert_eq!(time_left, slo_us - 10);
    assert_eq!(estimates, AfterChildEstimates { full: 0, mean: 0, floor: 0 });

    let mut child_rpc = ChildRpcContext::from_parent(&ctx);
    layer.set_child_deadline(&ctx, now + 10, 0, 0, 0, false, false, &mut child_rpc);
    assert!(child_rpc.deadline <= ctx.deadline());
    assert_eq!(child_rpc.prio_hint, ctx.prio_hint());

    let parent_id = registry.get_or_register("IntegrationService", "ParentMethod");
    let child_id = registry.get_or_register("IntegrationService", "ChildMethod");

    let key = child_tracker.key;
    assert_eq!(key.parent(), parent_id);
    assert_eq!(key.child(), child_id);

    let observation = layer.after_child_rpc(&child_tracker, ChildOutcome::Completed, now + 500);
    assert_eq!(observation, ChildObservation::ChildWallclock(key, 490));

    assert!(layer.finalize(false, false, false, now + 800, true).is_some());

    let (service, method) = registry.get_method_name(parent_id).unwrap();
    assert_eq!(service, "IntegrationService");
    assert_eq!(method, "ParentMethod");
}

#[test]
fn estimation_layer_reads_estimates_and_tightens_child_deadline() {
    let mut registry = MethodRegistry::new();
    let now = 1_000_000u64;
    let mut ctx = ContextBuilder::new("Svc", 1).slo(100_000).gateway_entry(now).deadline(now + 50_000).build();
    let mut layer = EstimationLayer::new(&mut registry, "Svc", "Parent", &mut ctx, now);
    let parent = registry.get_or_register("Svc", "Parent");
    let child = registry.get_or_register("Svc", "Child");
    let mut after_child = LatencyMap::<ParentToChildKey, LatencyEwma>::new();
    let empty = FanoutPatternTable::<LatencyEwma>::new();
    after_child.track(ParentToChildKey(parent, parent, child), 30_000);
    let (_, time_left, est) =
        layer.before_child_rpc(&mut registry, &ctx, "Svc", "Child", now, false, &mut after_child, &empty, &empty);
    assert_eq!(time_left, 100_000);
    assert_eq!(est, AfterChildEstimates { full: 30_000, mean: 30_000, floor: 30_000 });
    // Capped at the time left.
    let (_, _, capped) =
        layer.before_child_rpc(&mut registry, &ctx, "Svc", "Child", now + 80_000, false, &mut after_child, &empty, &empty);
    assert_eq!(capped, AfterChildEstimates { full: 20_000, mean: 20_000, floor: 20_000 });

    let mut child_rpc = ChildRpcContext::from_parent(&ctx);
    layer.set_child_deadline(&ctx, now, est.full, est.full, est.floor, true, false, &mut child_rpc);
    assert_eq!(child_rpc.deadline, now + 20_000);
    assert_eq!(child_rpc.prio_hint.value(), 20_000);
    let mut plain = ChildRpcContext::from_parent(&ctx);
    layer.set_child_deadline(&ctx, now, est.full, est.full, est.floor, false, false, &mut plain);
    assert_eq!(plain.deadline, now + 20_000);
    assert_eq!(plain.prio_hint, ctx.prio_hint());
}
