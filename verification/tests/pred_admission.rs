use masa::context::ContextBuilder;
use masa::estimation::keys::{EstimateKey, MethodKey, ParentToChildKey};
use masa::estimation::latency_map::LatencyMap;
use masa::latency_estimator::ewma::LatencyEwma;
use masa::pred_admission::{
    admission_check, admission_rejection, bcf_error, before_child_feasibility, raw_means_fit, AdmissionVerdict,
    FeasibilityStep,
};
use masa::registry::MethodId;

fn edge() -> ParentToChildKey {
    ParentToChildKey(MethodId(1), MethodId(2), MethodId(3))
}

fn with_sample<K: EstimateKey>(map: &mut LatencyMap<K, LatencyEwma>, key: K, value: u64) {
    map.insert(key, LatencyEwma::new(1, 2));
    map.track(key, value);
}

#[test]
fn feasibility_rejects_once_the_deadline_has_passed() {
    assert_eq!(before_child_feasibility(100, 100, 5, 5), FeasibilityStep::Reject);
    assert_eq!(before_child_feasibility(200, 100, 0, 0), FeasibilityStep::Reject);
}

#[test]
fn feasibility_admits_on_a_cold_start() {
    assert_eq!(before_child_feasibility(50, 100, 0, 0), FeasibilityStep::Admit);
}

#[test]
fn feasibility_goes_on_with_the_time_left() {
    assert_eq!(before_child_feasibility(40, 100, 10, 0), FeasibilityStep::NeedsDecay { time_left: 60 });
    assert_eq!(before_child_feasibility(99, 100, 0, 7), FeasibilityStep::NeedsDecay { time_left: 1 });
}

#[test]
fn raw_means_fast_path() {
    assert!(raw_means_fit(10, 100, 40, 50));
    assert!(!raw_means_fit(10, 100, 40, 51));
}

#[test]
fn feasibility_and_admission_messages() {
    assert_eq!(
        bcf_error("Front", "Search", "Back", "Get"),
        "/EarlyReturn?src=Front::Search?last_rpc=Back::Get&reason=BeforeChildFeasibility"
    );
    assert_eq!(admission_rejection("Front", "Search"), "/EarlyReturn?src=Front::Search&reason=PredAdmissionRej");
}

#[test]
fn admission_check_sheds_past_the_deadline() {
    let ctx = ContextBuilder::new("api", 1).gateway_entry(1_000).slo(500).build();
    let mut after_child = LatencyMap::<ParentToChildKey, LatencyEwma>::new();
    let mut compute = LatencyMap::<MethodKey, LatencyEwma>::new();
    let mut child = LatencyMap::<ParentToChildKey, LatencyEwma>::new();
    let r = admission_check(&mut after_child, &mut compute, &mut child, &ctx, MethodId(2), edge(), 1_600, true);
    assert_eq!(r, AdmissionVerdict::Shed);
    let r = admission_check(&mut after_child, &mut compute, &mut child, &ctx, MethodId(2), edge(), 1_600, false);
    assert_eq!(r, AdmissionVerdict::Shed);
}

#[test]
fn admission_check_sheds_on_the_compute_estimate() {
    let ctx = ContextBuilder::new("api", 1).gateway_entry(1_000).slo(500).build();
    let mut after_child = LatencyMap::<ParentToChildKey, LatencyEwma>::new();
    let mut compute = LatencyMap::<MethodKey, LatencyEwma>::new();
    let mut child = LatencyMap::<ParentToChildKey, LatencyEwma>::new();
    with_sample(&mut compute, MethodKey(MethodId(2)), 500);
    let r = admission_check(&mut after_child, &mut compute, &mut child, &ctx, MethodId(2), edge(), 1_100, true);
    assert_eq!(r, AdmissionVerdict::Shed);
    // Without the controller the compute estimate is not consulted.
    let r = admission_check(&mut after_child, &mut compute, &mut child, &ctx, MethodId(2), edge(), 1_100, false);
    assert_eq!(r, AdmissionVerdict::Admit);
}

#[test]
fn admission_check_asks_the_controller_at_ingress() {
    let ctx = ContextBuilder::new("api", 1).gateway_entry(1_000).slo(500).build();
    let mut after_child = LatencyMap::<ParentToChildKey, LatencyEwma>::new();
    let mut compute = LatencyMap::<MethodKey, LatencyEwma>::new();
    let mut child = LatencyMap::<ParentToChildKey, LatencyEwma>::new();
    with_sample(&mut compute, MethodKey(MethodId(2)), 100);
    with_sample(&mut child, edge(), 50);
    with_sample(&mut after_child, edge(), 200);
    let r = admission_check(&mut after_child, &mut compute, &mut child, &ctx, MethodId(2), edge(), 1_100, true);
    assert_eq!(r, AdmissionVerdict::AskController { time_left: 400, est_child: 50, est_total_mean: 200 });
}

#[test]
fn admission_check_cold_maps_fall_back_to_the_compute_estimate() {
    let ctx = ContextBuilder::new("api", 1).gateway_entry(1_000).slo(500).build();
    let mut after_child = LatencyMap::<ParentToChildKey, LatencyEwma>::new();
    let mut compute = LatencyMap::<MethodKey, LatencyEwma>::new();
    let mut child = LatencyMap::<ParentToChildKey, LatencyEwma>::new();
    with_sample(&mut compute, MethodKey(MethodId(2)), 120);
    let r = admission_check(&mut after_child, &mut compute, &mut child, &ctx, MethodId(2), edge(), 1_100, true);
    assert_eq!(r, AdmissionVerdict::AskController { time_left: 400, est_child: 120, est_total_mean: 0 });
    // Reading the cold edge gave it a fresh estimator.
    assert!(!after_child.is_empty());
    assert!(!child.is_empty());
}

#[test]
fn admission_check_admits_past_ingress() {
    let ctx = ContextBuilder::new("api", 1).gateway_entry(1_000).slo(500).hop_count(2).build();
    let mut after_child = LatencyMap::<ParentToChildKey, LatencyEwma>::new();
    let mut compute = LatencyMap::<MethodKey, LatencyEwma>::new();
    let mut child = LatencyMap::<ParentToChildKey, LatencyEwma>::new();
    with_sample(&mut compute, MethodKey(MethodId(2)), 100);
    let r = admission_check(&mut after_child, &mut compute, &mut child, &ctx, MethodId(2), edge(), 1_100, true);
    assert_eq!(r, AdmissionVerdict::Admit);
    assert!(child.is_empty());
}
