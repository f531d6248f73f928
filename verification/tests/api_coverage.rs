use masa::context::{ContextBuilder, ResponseMeta};
use masa::estimation::fanout::PathPrefix;
use masa::estimation::keys::{root_to_local_text, MethodKey, RootToLocalKey};
use masa::estimation::latency_map::LatencyMap;
use masa::estimation::layer::deadline_signal_due;
use masa::latency_estimator::ewma::LatencyEwma;
use masa::registry::{MethodId, MethodRegistry};
use masa::timing::LatencyTracker;

#[test]
fn context_setters_and_token_consumption() {
    let mut ctx = ContextBuilder::new("api", 3).tokens(10).build();
    assert!(ctx.consume_tokens(4));
    assert_eq!(ctx.tokens(), 6);
    assert!(!ctx.consume_tokens(7));
    assert_eq!(ctx.tokens(), 6);
    assert!(ctx.consume_tokens(6));
    assert_eq!(ctx.tokens(), 0);

    assert_eq!(ctx.frontend_elapse(), None);
    ctx.set_frontend_elapse(250);
    assert_eq!(ctx.frontend_elapse(), Some(250));

    assert_eq!(ctx.response_meta(), None);
    let meta = ResponseMeta {
        compute_time_us: 5,
        accumulated_compute_us: 9,
        early_return_count: 1,
        deadline_signal_count: 0,
    };
    ctx.set_response_meta(meta);
    assert_eq!(ctx.response_meta(), Some(meta));
}

#[test]
fn latency_tracker_measures_start_to_record() {
    let mut t = LatencyTracker::NotStarted;
    assert_eq!(t.get_latency(), None);
    t.start(1_000);
    assert_eq!(t.get_latency(), None);
    t.record_latency(1_750);
    assert_eq!(t.get_latency(), Some(750));
}

#[test]
fn deadline_signal_is_due_only_under_the_policy_after_the_local_deadline() {
    let ctx = ContextBuilder::new("api", 1).deadline(100).build();
    assert!(deadline_signal_due(&ctx, 101, true));
    assert!(!deadline_signal_due(&ctx, 100, true));
    assert!(!deadline_signal_due(&ctx, 101, false));
    let no_deadline = ContextBuilder::new("api", 1).build();
    assert!(!deadline_signal_due(&no_deadline, 1_000_000, true));
}

#[test]
fn path_prefix_hash_value_reads_the_hash() {
    let root = PathPrefix::root();
    assert_eq!(root.hash_value(), root.hash);
    let grown = root.append_signature(&[3, 4]);
    assert_eq!(grown.hash_value(), grown.hash);
    assert_ne!(grown.hash_value(), root.hash_value());
}

#[test]
fn root_to_local_key_text_names_both_methods() {
    let mut registry = MethodRegistry::new();
    let root = registry.get_or_register("Front", "Search");
    let local = registry.get_or_register("Back", "Get");
    let text = root_to_local_text(&registry, RootToLocalKey(root, local));
    assert_eq!(text, "Front::Search=>Back::Get");
    let unknown = root_to_local_text(&registry, RootToLocalKey(root, MethodId(77)));
    assert!(unknown.starts_with("Front::Search=>"));
}

#[test]
fn latency_map_mean_and_floor_reads() {
    let mut map = LatencyMap::<MethodKey, LatencyEwma>::new();
    let key = MethodKey(MethodId(4));
    map.insert(key, LatencyEwma::new(1, 2));
    map.track(key, 80);
    assert_eq!(map.get_mean_estimate(key), Some(80));
    assert_eq!(map.get_mean_floor_estimate(key), Some(80));
    map.track(key, 40);
    assert_eq!(map.get_mean_estimate(key), Some(60));
    assert_eq!(map.get_mean_floor_estimate(key), Some(60));
}
