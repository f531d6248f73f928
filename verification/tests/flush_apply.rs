use masa::estimation::apply::apply_flush;
use masa::estimation::fanout::PathPrefix;
use masa::estimation::keys::{ParentToChildKey, RootToLocalKey};
use masa::estimation::latency_map::LatencyMap;
use masa::estimation::patterns::{FanoutPatternTable, PatternScope};
use masa::estimation::tracker::{FanoutGroupUpdate, FlushObservations};
use masa::latency_estimator::ewma::LatencyEwma;
use masa::registry::MethodId;

struct Server {
    after_child: LatencyMap<ParentToChildKey, LatencyEwma>,
    patterns: FanoutPatternTable<LatencyEwma>,
    service_patterns: FanoutPatternTable<LatencyEwma>,
    method_wallclock: LatencyMap<RootToLocalKey, LatencyEwma>,
}

fn server() -> Server {
    Server {
        after_child: LatencyMap::new(),
        patterns: FanoutPatternTable::new(),
        service_patterns: FanoutPatternTable::new(),
        method_wallclock: LatencyMap::new(),
    }
}

fn apply(s: &mut Server, obs: &FlushObservations) {
    apply_flush(obs, 5_000, &mut s.after_child, &mut s.patterns, &mut s.service_patterns, &mut s.method_wallclock);
}

#[test]
fn flush_feeds_after_child_and_wallclock_maps() {
    let mut s = server();
    let edge = ParentToChildKey(MethodId(1), MethodId(2), MethodId(3));
    let other = ParentToChildKey(MethodId(1), MethodId(2), MethodId(4));
    let wall = RootToLocalKey(MethodId(1), MethodId(2));
    let obs = FlushObservations {
        after_child: vec![(edge, 300), (other, 50)],
        groups: vec![],
        method_wallclock: Some((wall, 900)),
    };
    apply(&mut s, &obs);
    assert_eq!(s.after_child.get_estimate(edge), Some(300));
    assert_eq!(s.after_child.get_estimate(other), Some(50));
    assert_eq!(s.method_wallclock.get_estimate(wall), Some(900));
    assert_eq!(s.after_child.last_observation(edge), Some(5_000));
    assert_eq!(s.after_child.last_observation(other), Some(5_000));
    assert!(s.patterns.is_empty());
    assert!(s.service_patterns.is_empty());
}

#[test]
fn flush_without_root_leaves_the_wallclock_map() {
    let mut s = server();
    let obs = FlushObservations { after_child: vec![], groups: vec![], method_wallclock: None };
    apply(&mut s, &obs);
    assert!(s.method_wallclock.is_empty());
    assert!(s.after_child.is_empty());
}

#[test]
fn flush_records_groups_under_prefix_and_in_aggregate() {
    let mut s = server();
    let prefix = PathPrefix::root();
    let group = FanoutGroupUpdate {
        root: MethodId(1),
        parent: MethodId(2),
        path_prefix: prefix,
        signature: vec![3, 4],
        service_path_prefix: prefix,
        service_signature: vec![9, 9],
        post_join_us: 700,
    };
    let obs = FlushObservations { after_child: vec![], groups: vec![group.clone(), group], method_wallclock: None };
    apply(&mut s, &obs);

    let ps = s.patterns.patterns();
    assert_eq!(ps.len(), 2);
    assert!(ps.iter().any(|p| p.scope() == PatternScope::Path(prefix)));
    assert!(ps.iter().any(|p| p.scope() == PatternScope::Aggregate));
    assert!(ps.iter().all(|p| p.occurrence_count() == 2 && p.signature() == &[3, 4][..]));

    let ss = s.service_patterns.patterns();
    assert_eq!(ss.len(), 2);
    assert!(ss.iter().all(|p| p.occurrence_count() == 2 && p.signature() == &[9, 9][..]));

    let est = s.patterns.lookup_estimate(1, 2, prefix, &[3, 4], u64::MAX);
    assert_eq!(est.full, 700);
    let other_prefix = prefix.append_signature(&[5, 6]);
    let fallback = s.patterns.lookup_estimate(1, 2, other_prefix, &[3, 4], u64::MAX);
    assert_eq!(fallback.full, 700);
}
