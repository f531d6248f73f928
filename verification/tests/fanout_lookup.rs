use masa::context::ContextBuilder;
use masa::estimation::apply::{apply_child_observation, track_fanout_group};
use masa::estimation::fanout::PathPrefix;
use masa::estimation::keys::ParentToChildKey;
use masa::estimation::latency_map::LatencyMap;
use masa::estimation::layer::{blend_toward_legacy, group_after_child_estimates, EstimationLayer};
use masa::estimation::patterns::{AfterChildEstimates, FanoutPatternTable};
use masa::estimation::tracker::{ChildObservation, ChildRPCTracker, FanoutGroupUpdate};
use masa::latency_estimator::ewma::LatencyEwma;
use masa::pred_admission::{wallclock_pack, WallclockPack};
use masa::registry::{MethodId, MethodRegistry};

type EdgeMap = LatencyMap<ParentToChildKey, LatencyEwma>;
type Table = FanoutPatternTable<LatencyEwma>;

struct Est {
    registry: MethodRegistry,
    after_child: EdgeMap,
    patterns: Table,
    service_patterns: Table,
}

impl Est {
    fn new() -> Est {
        Est {
            registry: MethodRegistry::new(),
            after_child: EdgeMap::new(),
            patterns: Table::new(),
            service_patterns: Table::new(),
        }
    }

    fn mid(&mut self, service: &str, method: &str) -> MethodId {
        self.registry.get_or_register(service, method)
    }

    fn sid(&mut self, service: &str) -> MethodId {
        self.registry.get_or_register_service(service)
    }

    #[allow(clippy::too_many_arguments)]
    fn track_group(
        &mut self,
        root: MethodId,
        parent: MethodId,
        path_prefix: PathPrefix,
        signature: Vec<u64>,
        service_path_prefix: PathPrefix,
        service_signature: Vec<u64>,
        post_join_us: u64,
    ) {
        let g = FanoutGroupUpdate {
            root,
            parent,
            path_prefix,
            signature,
            service_path_prefix,
            service_signature,
            post_join_us,
        };
        track_fanout_group(&mut self.patterns, &mut self.service_patterns, &g);
    }

    #[allow(clippy::too_many_arguments)]
    fn lookup(
        &mut self,
        root: MethodId,
        parent: MethodId,
        path_prefix: PathPrefix,
        base_signature: &[u64],
        service_path_prefix: PathPrefix,
        base_service_signature: &[u64],
        child: MethodId,
        cap: u64,
    ) -> AfterChildEstimates {
        let tracker = ChildRPCTracker {
            key: ParentToChildKey(root, parent, child),
            child_index: 0,
            path_prefix,
            base_signature: base_signature.to_vec(),
            service_path_prefix,
            base_service_signature: base_service_signature.to_vec(),
            child_id: child,
            start_time: 0,
        };
        group_after_child_estimates(&mut self.after_child, &self.patterns, &self.service_patterns, &tracker, cap)
    }
}

fn sorted(mut v: Vec<u64>) -> Vec<u64> {
    v.sort();
    v
}

#[test]
fn fanout_deadline_blend_moves_lower_estimates_toward_legacy() {
    assert_eq!(blend_toward_legacy(1_000, 5_000, 0, 1), 1_000);
    assert_eq!(blend_toward_legacy(1_000, 5_000, 1, 2), 3_000);
    assert_eq!(blend_toward_legacy(1_000, 5_000, 1, 1), 5_000);
    assert_eq!(blend_toward_legacy(6_000, 5_000, 1, 2), 5_000);
}

#[test]
fn fanout_lookup_clamps_to_legacy_when_fanout_is_higher() {
    let mut est = Est::new();
    let root = est.mid("StateLookupClamp", "root");
    let parent = est.mid("StateLookupClamp", "parent");
    let child = est.mid("StateLookupClamp", "child");
    let sibling = est.mid("StateLookupClamp", "sibling");
    let service = est.sid("StateLookupClamp");
    let signature = sorted(vec![child.0, sibling.0]);
    let service_signature = sorted(vec![service.0, service.0]);
    let key = ParentToChildKey(root, parent, child);

    est.after_child.track(key, 1_000);
    for _ in 0..3 {
        est.track_group(
            root,
            parent,
            PathPrefix::root(),
            signature.clone(),
            PathPrefix::root(),
            service_signature.clone(),
            5_000,
        );
    }

    let estimate = est.lookup(
        root,
        parent,
        PathPrefix::root(),
        &signature,
        PathPrefix::root(),
        &service_signature,
        child,
        u64::MAX,
    );

    assert_eq!(estimate.full, 1_000);
    assert_eq!(estimate.mean, 1_000);
    assert_eq!(estimate.floor, 1_000);
}

#[test]
fn fanout_lookup_uses_fanout_when_lower_than_legacy() {
    let mut est = Est::new();
    let root = est.mid("StateLookupMin", "root");
    let parent = est.mid("StateLookupMin", "parent");
    let child = est.mid("StateLookupMin", "child");
    let sibling = est.mid("StateLookupMin", "sibling");
    let service = est.sid("StateLookupMin");
    let signature = sorted(vec![child.0, sibling.0]);
    let service_signature = sorted(vec![service.0, service.0]);
    let key = ParentToChildKey(root, parent, child);

    est.after_child.track(key, 5_000);
    for _ in 0..3 {
        est.track_group(
            root,
            parent,
            PathPrefix::root(),
            signature.clone(),
            PathPrefix::root(),
            service_signature.clone(),
            1_000,
        );
    }

    let estimate = est.lookup(
        root,
        parent,
        PathPrefix::root(),
        &signature,
        PathPrefix::root(),
        &service_signature,
        child,
        u64::MAX,
    );

    assert_eq!(estimate.full, 5_000);
    assert_eq!(estimate.mean, 1_000);
    assert_eq!(estimate.floor, 1_000);
}

#[test]
fn fanout_lookup_falls_back_to_service_shape_when_exact_is_sparse() {
    let mut est = Est::new();
    let root = est.mid("StateLookupCoarseRoot", "root");
    let parent = est.mid("StateLookupCoarseParent", "parent");
    let a1 = est.mid("StateLookupCoarseA", "a1");
    let a2 = est.mid("StateLookupCoarseA", "a2");
    let a3 = est.mid("StateLookupCoarseA", "a3");
    let b1 = est.mid("StateLookupCoarseB", "b1");
    let b2 = est.mid("StateLookupCoarseB", "b2");
    let b3 = est.mid("StateLookupCoarseB", "b3");
    let service_a = est.sid("StateLookupCoarseA");
    let service_b = est.sid("StateLookupCoarseB");
    let service_signature = sorted(vec![service_a.0, service_b.0]);
    let key = ParentToChildKey(root, parent, a1);

    est.after_child.track(key, 5_000);
    for (left, right) in [(a1, b1), (a2, b2), (a3, b3)] {
        let exact_signature = sorted(vec![left.0, right.0]);
        est.track_group(
            root,
            parent,
            PathPrefix::root(),
            exact_signature,
            PathPrefix::root(),
            service_signature.clone(),
            1_000,
        );
    }

    let cold_exact = sorted(vec![a1.0, b1.0]);
    let estimate = est.lookup(
        root,
        parent,
        PathPrefix::root(),
        &cold_exact,
        PathPrefix::root(),
        &service_signature,
        a1,
        u64::MAX,
    );

    assert_eq!(estimate.full, 5_000);
    assert_eq!(estimate.mean, 1_000);
    assert_eq!(estimate.floor, 1_000);
}

#[test]
fn fanout_lookup_ignores_single_child_groups() {
    let mut est = Est::new();
    let root = est.mid("StateLookupSingle", "root");
    let parent = est.mid("StateLookupSingle", "parent");
    let child = est.mid("StateLookupSingle", "child");
    let service = est.sid("StateLookupSingle");
    let key = ParentToChildKey(root, parent, child);

    est.after_child.track(key, 5_000);
    est.track_group(root, parent, PathPrefix::root(), vec![child.0], PathPrefix::root(), vec![service.0], 1_000);

    let estimate = est.lookup(
        root,
        parent,
        PathPrefix::root(),
        &[child.0],
        PathPrefix::root(),
        &[service.0],
        child,
        u64::MAX,
    );

    assert_eq!(estimate.full, 5_000);
    assert_eq!(estimate.mean, 5_000);
    assert_eq!(estimate.floor, 5_000);
}

#[test]
fn fanout_lookup_uses_the_service_shape_when_no_method_pattern_matches() {
    let mut est = Est::new();
    let (root, parent) = (MethodId(1), MethodId(2));
    let (a, b, c) = (MethodId(3), MethodId(4), MethodId(5));
    let (sa, sb) = (MethodId(10), MethodId(11));
    est.after_child.track(ParentToChildKey(root, parent, a), 5_000);
    est.track_group(root, parent, PathPrefix::root(), sorted(vec![b.0, c.0]), PathPrefix::root(), vec![sa.0, sb.0], 2_000);
    let estimate =
        est.lookup(root, parent, PathPrefix::root(), &sorted(vec![a.0, c.0]), PathPrefix::root(), &[sa.0, sb.0], a, 4_000);
    assert_eq!(estimate, AfterChildEstimates { full: 4_000, mean: 2_000, floor: 2_000 });
}

#[test]
fn fanout_lookup_is_legacy_when_no_group_was_learned() {
    let mut est = Est::new();
    let (root, parent, a, b) = (MethodId(1), MethodId(2), MethodId(3), MethodId(4));
    est.after_child.track(ParentToChildKey(root, parent, a), 700);
    let estimate =
        est.lookup(root, parent, PathPrefix::root(), &sorted(vec![a.0, b.0]), PathPrefix::root(), &[9, 9], a, u64::MAX);
    assert_eq!(estimate, AfterChildEstimates { full: 700, mean: 700, floor: 700 });
}

#[test]
fn estimation_layer_before_child_rpc_reads_group_estimates() {
    let mut registry = MethodRegistry::new();
    let now = 1_000_000u64;
    let mut ctx = ContextBuilder::new("Svc", 1).slo(100_000).gateway_entry(now).deadline(now + 100_000).build();
    let mut layer = EstimationLayer::new(&mut registry, "Svc", "Parent", &mut ctx, now);
    let parent = registry.get_or_register("Svc", "Parent");
    let a = registry.get_or_register("Svc", "A");
    let b = registry.get_or_register("Svc", "B");
    let service = registry.get_or_register_service("Svc");
    let mut after_child = EdgeMap::new();
    let mut patterns = Table::new();
    let mut service_patterns = Table::new();
    after_child.track(ParentToChildKey(parent, parent, b), 5_000);
    let group = FanoutGroupUpdate {
        root: parent,
        parent,
        path_prefix: PathPrefix::root(),
        signature: sorted(vec![a.0, b.0]),
        service_path_prefix: PathPrefix::root(),
        service_signature: vec![service.0, service.0],
        post_join_us: 1_000,
    };
    track_fanout_group(&mut patterns, &mut service_patterns, &group);

    let (first, _, _) = layer.before_child_rpc(
        &mut registry,
        &ctx,
        "Svc",
        "A",
        now,
        true,
        &mut after_child,
        &patterns,
        &service_patterns,
    );
    assert_eq!(first.base_signature, vec![a.0]);
    let (second, _, est) = layer.before_child_rpc(
        &mut registry,
        &ctx,
        "Svc",
        "B",
        now + 10,
        true,
        &mut after_child,
        &patterns,
        &service_patterns,
    );
    assert_eq!(second.base_signature, sorted(vec![a.0, b.0]));
    assert_eq!(est, AfterChildEstimates { full: 5_000, mean: 1_000, floor: 1_000 });
}

#[test]
fn latency_map_records_last_observation_times() {
    let mut map = EdgeMap::new();
    let key = ParentToChildKey(MethodId(1), MethodId(2), MethodId(3));
    let other = ParentToChildKey(MethodId(1), MethodId(2), MethodId(4));
    assert_eq!(map.last_observation(key), None);
    map.track_at(key, 10, 777);
    assert_eq!(map.last_observation(key), Some(777));
    map.track(key, 20);
    assert_eq!(map.last_observation(key), Some(777));
    map.track_at(key, 30, 900);
    assert_eq!(map.last_observation(key), Some(900));
    assert_eq!(map.last_observation(other), None);
}

#[test]
fn child_observation_feeds_the_child_map() {
    let mut child = EdgeMap::new();
    let key = ParentToChildKey(MethodId(1), MethodId(2), MethodId(3));
    apply_child_observation(ChildObservation::Skipped, &mut child, 100);
    assert!(child.is_empty());
    apply_child_observation(ChildObservation::ChildWallclock(key, 490), &mut child, 900);
    assert_eq!(child.get_estimate(key), Some(490));
    assert_eq!(child.last_observation(key), Some(900));
    assert_eq!(
        wallclock_pack(&mut child, key),
        WallclockPack { mean: 490, floor: 490, last_observation_us: 900 }
    );
    let cold = ParentToChildKey(MethodId(1), MethodId(2), MethodId(5));
    assert_eq!(wallclock_pack(&mut child, cold), WallclockPack { mean: 0, floor: 0, last_observation_us: 0 });
}
