use masa::context::ContextBuilder;
use masa::rajomon::client::ClientTokenBucket;
use masa::rajomon::layer::{propagation_decision, RajomonLayer};
use masa::rajomon::shared::{QueueStats, RajomonSharedState};
use masa::rajomon::RajomonParams;
use masa::registry::{MethodId, MethodRegistry};

fn params() -> RajomonParams {
    RajomonParams::default()
}

#[test]
fn default_params_match_the_documented_values() {
    let p = params();
    assert_eq!(p.price_update_rate_ms, 10);
    assert_eq!(p.latency_threshold_us, 5_000);
    assert_eq!(p.price_step_up, 8);
    assert_eq!(p.init_price, 0);
    assert_eq!(p.price_freq, 5);
    assert_eq!(p.tokens_left_init, 10);
    assert_eq!(p.token_update_rate_ms, 10);
    assert_eq!(p.token_update_step, 5);
}

#[test]
fn price_rises_proportionally_above_threshold() {
    let p = params();
    let mut s = RajomonSharedState::new(&p);
    // 2 ms above the threshold at 8 tokens per ms: +16.
    s.observe_queue_latency(7_000);
    s.update_prices(&p);
    assert_eq!(s.own_price(), 16);
    // The window maximum is halved at each tick.
    assert_eq!(s.queue_stats().window_max, 3_500);
    // Tiny excess still raises the price by one.
    let mut t = RajomonSharedState::new(&p);
    t.observe_queue_latency(5_001);
    t.update_prices(&p);
    assert_eq!(t.own_price(), 1);
}

#[test]
fn price_falls_below_half_threshold_and_holds_in_band() {
    let p = RajomonParams { init_price: 3, ..params() };
    let mut s = RajomonSharedState::new(&p);
    s.update_prices(&p);
    assert_eq!(s.own_price(), 2);
    s.observe_queue_latency(3_000);
    s.update_prices(&p);
    assert_eq!(s.own_price(), 2);
    let d = s.take_diagnostics();
    assert_eq!(d.counters.price_down_ticks, 1);
    assert_eq!(d.counters.price_hold_ticks, 1);
    assert_eq!(s.diagnostics().price_down_ticks, 0);
    let zero = RajomonSharedState::new(&params());
    assert_eq!(zero.own_price(), 0);
}

#[test]
fn accumulated_price_is_own_plus_max_child_price() {
    let p = RajomonParams { init_price: 7, ..params() };
    let mut s = RajomonSharedState::new(&p);
    let (parent, a, b) = (MethodId(1), MethodId(2), MethodId(3));
    assert_eq!(s.accumulated_price(parent), 7);
    s.record_child_price(parent, a, 10);
    s.record_child_price(parent, b, 4);
    assert_eq!(s.max_downstream_for(parent), Some(10));
    assert_eq!(s.accumulated_price(parent), 17);
    s.record_child_price(parent, a, 1);
    assert_eq!(s.accumulated_price(parent), 11);
    assert_eq!(s.child_price(b), 4);
    assert_eq!(s.child_price(MethodId(99)), 0);
}

#[test]
fn decay_halves_cached_prices_and_maxima() {
    let mut s = RajomonSharedState::new(&params());
    let (parent, a, b) = (MethodId(1), MethodId(2), MethodId(3));
    s.record_child_price(parent, a, 9);
    s.record_child_price(parent, b, 0);
    s.decay_downstream_prices();
    assert_eq!(s.child_price(a), 4);
    assert_eq!(s.child_price(b), 0);
    assert_eq!(s.max_downstream_for(parent), Some(4));
    for _ in 0..4 {
        s.decay_downstream_prices();
    }
    assert_eq!(s.max_downstream_for(parent), Some(0));
}

#[test]
fn queue_stats_log_peak_survives_ticks_until_taken() {
    let mut q = QueueStats::new();
    q.observe(10);
    q.observe(4);
    assert_eq!(q.take_for_tick(), 10);
    assert_eq!(q.window_max, 5);
    assert_eq!(q.log_window_max, 10);
    assert_eq!(q.take_log_window_max(), 10);
    assert_eq!(q.log_window_max, 0);
}

#[test]
fn inbound_check_admits_iff_tokens_cover_total_price() {
    let p = RajomonParams { init_price: 5, ..params() };
    let mut s = RajomonSharedState::new(&p);
    let rpc = MethodId(1);
    s.record_child_price(rpc, MethodId(2), 10);
    let rich = ContextBuilder::new("api", 1).tokens(15).build();
    let layer = RajomonLayer::new(rpc, "Svc", "Run", &mut s, &rich);
    assert!(!layer.should_drop());
    assert_eq!(layer.remaining_tokens(), 10);
    assert_eq!(layer.before_child_rpc(&mut s, MethodId(2), "Child", "Get"), Ok(10));

    let poor = ContextBuilder::new("api", 2).tokens(14).build();
    let dropped = RajomonLayer::new(rpc, "Svc", "Run", &mut s, &poor);
    assert!(dropped.should_drop());
    assert_eq!(
        dropped.before_poll(&mut s, 0),
        Err("/EarlyReturn?src=Svc::Run&reason=RajomonAdmissionRej".to_string())
    );
    assert_eq!(dropped.after_poll(false), Ok(()));
    assert!(dropped.after_poll(true).is_err());
    let d = s.diagnostics();
    assert_eq!(d.admitted, 1);
    assert_eq!(d.rejected, 1);
    assert_eq!(d.token_deficit_sum, 1);
}

#[test]
fn child_budget_check_rejects_expensive_children() {
    let mut s = RajomonSharedState::new(&params());
    let rpc = MethodId(1);
    s.record_child_price(MethodId(7), MethodId(3), 50);
    let ctx = ContextBuilder::new("api", 1).tokens(20).build();
    let layer = RajomonLayer::new(rpc, "Svc", "Run", &mut s, &ctx);
    assert_eq!(
        layer.before_child_rpc(&mut s, MethodId(3), "Child", "Get"),
        Err("/EarlyReturn?src=Svc::Run?last_rpc=Child::Get&reason=RajomonChildBudgetRej".to_string())
    );
    assert_eq!(s.diagnostics().child_budget_rej, 1);
}

#[test]
fn child_price_header_is_cached_and_finalize_attaches_total() {
    let p = RajomonParams { init_price: 2, ..params() };
    let mut s = RajomonSharedState::new(&p);
    let rpc = MethodId(1);
    let ctx = ContextBuilder::new("api", 1).tokens(100).build();
    let layer = RajomonLayer::new(rpc, "Svc", "Run", &mut s, &ctx);
    layer.after_child_rpc(&mut s, MethodId(2), Some("12"));
    layer.after_child_rpc(&mut s, MethodId(3), Some("not a number"));
    layer.after_child_rpc(&mut s, MethodId(4), None);
    assert_eq!(s.child_price(MethodId(2)), 12);
    assert_eq!(s.child_price(MethodId(3)), 0);
    assert_eq!(layer.finalize(&s, true), Some(14));
    assert_eq!(layer.finalize(&s, false), None);
}

#[test]
fn propagation_frequency_decides_price_attachment() {
    assert!(!propagation_decision(0, 0));
    assert!(propagation_decision(1, 7));
    assert!(propagation_decision(5, 0));
    assert!(!propagation_decision(5, 3));
}

#[test]
fn client_bucket_spends_replenishes_and_caches_prices() {
    let p = params();
    let mut b = ClientTokenBucket::new(&p);
    assert_eq!(b.tokens_left(), 10);
    let m = MethodId(1);
    b.update_price(m, 4);
    assert_eq!(b.acquire_with_draw(m, 3), None);
    assert_eq!(b.tokens_left(), 10);
    assert_eq!(b.acquire_with_draw(m, 6), Some(6));
    assert_eq!(b.tokens_left(), 4);
    b.replenish(&p);
    assert_eq!(b.tokens_left(), 9);
    b.deduct(100);
    assert_eq!(b.tokens_left(), 0);
    assert_eq!(b.try_acquire(m), None);
    assert_eq!(b.cached_price_of(MethodId(2)), 0);
    // A random draw never exceeds the balance.
    b.replenish(&p);
    b.update_price(m, 0);
    if let Some(t) = b.try_acquire(m) {
        assert!(t <= 5);
        assert_eq!(b.tokens_left(), 5 - t);
    }
}

const LATENCY_THRESHOLD_US: u64 = 5_000;
const INIT_PRICE: u64 = 0;
const PRICE_STEP_UP: u64 = 8;
const TOKENS_LEFT_INIT: u64 = 10;
const TOKEN_UPDATE_STEP: u64 = 5;

fn fresh_state() -> RajomonSharedState {
    RajomonSharedState::new(&params())
}

fn method_id(registry: &mut MethodRegistry, service: &str, method: &str) -> MethodId {
    registry.get_or_register(service, method)
}

#[test]
fn test_proportional_price_increase_on_congestion() {
    let mut state = fresh_state();
    state.queue_stats.window_max = LATENCY_THRESHOLD_US + 1000;
    state.update_prices(&params());
    assert_eq!(state.own_price, INIT_PRICE + PRICE_STEP_UP);

    state.queue_stats.window_max = LATENCY_THRESHOLD_US + 1000;
    state.update_prices(&params());
    assert_eq!(state.own_price, INIT_PRICE + 2 * PRICE_STEP_UP);
}

#[test]
fn test_paper_price_decrease_is_one_per_tick() {
    let mut state = fresh_state();
    state.own_price = 5;
    state.update_prices(&params());
    assert_eq!(state.own_price, 4);
    state.update_prices(&params());
    assert_eq!(state.own_price, 3);
}

#[test]
fn test_price_floor_at_zero() {
    let mut state = fresh_state();
    state.own_price = 1;
    state.update_prices(&params());
    assert_eq!(state.own_price, 0);
    state.update_prices(&params());
    assert_eq!(state.own_price, 0);
}

#[test]
fn test_hysteresis_band_holds_price() {
    let mut state = fresh_state();
    state.own_price = 10;
    state.queue_stats.window_max = LATENCY_THRESHOLD_US * 3 / 4;
    state.update_prices(&params());
    assert_eq!(state.own_price, 10);
}

#[test]
fn test_price_increase_is_proportional_to_excess() {
    let mut state = fresh_state();

    state.own_price = 0;
    state.queue_stats.window_max = LATENCY_THRESHOLD_US + 1000;
    state.update_prices(&params());
    let price_after_mild = state.own_price;

    state.own_price = 0;
    state.queue_stats.window_max = LATENCY_THRESHOLD_US + 10_000;
    state.update_prices(&params());
    let price_after_severe = state.own_price;

    assert_eq!(price_after_mild, PRICE_STEP_UP);
    assert!(price_after_severe > price_after_mild);
    assert_eq!(price_after_severe, 80);
}

#[test]
fn test_queue_stats_tracks_maximum_not_average() {
    let mut state = fresh_state();
    state.observe_queue_latency(100);
    state.observe_queue_latency(5000);
    state.observe_queue_latency(200);
    assert_eq!(state.queue_stats.window_max, 5000);
}

#[test]
fn test_window_max_halves_after_price_update() {
    let mut state = fresh_state();
    state.queue_stats.window_max = 5000;
    state.update_prices(&params());
    assert_eq!(state.queue_stats.window_max, 2500);
    state.update_prices(&params());
    assert_eq!(state.queue_stats.window_max, 1250);
}

#[test]
fn test_accumulated_price_is_own_plus_max_downstream() {
    let mut registry = MethodRegistry::new();
    let mut state = fresh_state();
    let method = method_id(&mut registry, "svc", "method");
    let child = method_id(&mut registry, "svc", "child");

    state.own_price = 5;
    state.record_child_price(method, child, 3);
    assert_eq!(state.accumulated_price(method), 8);

    state.record_child_price(method, child, 10);
    assert_eq!(state.accumulated_price(method), 15);

    state.own_price = 0;
    let method2 = method_id(&mut registry, "svc", "other");
    assert_eq!(state.accumulated_price(method2), 0);
}

#[test]
fn test_accumulated_price_own_only_no_downstream() {
    let mut registry = MethodRegistry::new();
    let mut state = fresh_state();
    state.own_price = 7;
    let method = method_id(&mut registry, "svc", "method");
    assert_eq!(state.accumulated_price(method), 7);
}

#[test]
fn test_check_inbound_deducts_own_price_not_accumulated() {
    let mut registry = MethodRegistry::new();
    let mut state = fresh_state();
    let method = method_id(&mut registry, "svc", "method");
    state.own_price = 3;

    let ctx = ContextBuilder::new("test", 0).tokens(20).build();
    let layer = RajomonLayer::new(method, "svc", "method", &mut state, &ctx);
    assert!(!layer.should_drop());
    assert_eq!(layer.remaining_tokens(), 17);
}

#[test]
fn test_check_inbound_deducts_own_not_accumulated_when_downstream_dominant() {
    let mut registry = MethodRegistry::new();
    let mut state = fresh_state();
    let method = method_id(&mut registry, "svc", "method_downstream_dom");
    let child = method_id(&mut registry, "svc", "child");
    state.own_price = 5;
    state.record_child_price(method, child, 20);
    let ctx = ContextBuilder::new("test", 0).tokens(25).build();
    let layer = RajomonLayer::new(method, "svc", "method_downstream_dom", &mut state, &ctx);
    assert!(!layer.should_drop());
    assert_eq!(layer.remaining_tokens(), 20);
}

#[test]
fn test_check_inbound_rejects_insufficient_tokens() {
    let mut registry = MethodRegistry::new();
    let mut state = fresh_state();
    let method = method_id(&mut registry, "svc", "reject_method");
    state.own_price = 100;

    let ctx = ContextBuilder::new("test", 0).tokens(10).build();
    let layer = RajomonLayer::new(method, "svc", "reject_method", &mut state, &ctx);
    assert!(layer.should_drop());
}

#[test]
fn test_check_inbound_accepts_exact_tokens() {
    let mut registry = MethodRegistry::new();
    let mut state = fresh_state();
    let method = method_id(&mut registry, "svc", "exact_method");
    state.own_price = 10;

    let ctx = ContextBuilder::new("test", 0).tokens(10).build();
    let layer = RajomonLayer::new(method, "svc", "exact_method", &mut state, &ctx);
    assert!(!layer.should_drop());
    assert_eq!(layer.remaining_tokens(), 0);
}

#[test]
fn test_check_inbound_tokens_zero_price_zero() {
    let mut registry = MethodRegistry::new();
    let mut state = fresh_state();
    let method = method_id(&mut registry, "svc", "zero_method");
    state.own_price = 0;

    let ctx = ContextBuilder::new("test", 0).tokens(0).build();
    let layer = RajomonLayer::new(method, "svc", "zero_method", &mut state, &ctx);
    assert!(!layer.should_drop());
}

#[test]
fn test_downstream_price_can_decrease() {
    let mut registry = MethodRegistry::new();
    let parent = method_id(&mut registry, "svc", "parent");
    let child_x = method_id(&mut registry, "svc", "X");
    let child_y = method_id(&mut registry, "svc", "Y");

    let mut state = fresh_state();

    state.record_child_price(parent, child_x, 15);
    assert_eq!(state.max_downstream_for(parent), Some(15));

    state.record_child_price(parent, child_y, 5);
    assert_eq!(state.max_downstream_for(parent), Some(15));

    state.record_child_price(parent, child_x, 3);
    assert_eq!(state.max_downstream_for(parent), Some(5));

    state.record_child_price(parent, child_y, 20);
    assert_eq!(state.max_downstream_for(parent), Some(20));
}

#[test]
fn test_child_price_default_zero() {
    let mut registry = MethodRegistry::new();
    let state = fresh_state();
    let method = method_id(&mut registry, "svc", "method");
    assert_eq!(state.child_price(method), 0);
}

#[test]
fn test_layer_records_child_price_response_and_updates_parent_max() {
    let mut registry = MethodRegistry::new();
    let parent = method_id(&mut registry, "rajomon_e2e", "parent");
    let child = method_id(&mut registry, "rajomon_e2e", "child");
    let mut state = fresh_state();
    state.own_price = 0;

    let ctx = ContextBuilder::new("test", 0).tokens(100).build();
    let layer = RajomonLayer::new(parent, "rajomon_e2e", "parent", &mut state, &ctx);
    layer.after_child_rpc(&mut state, child, Some("13"));

    assert_eq!(state.child_price(child), 13);
    assert_eq!(state.max_downstream_for(parent).expect("parent max price tracked"), 13);
}

#[test]
fn test_client_token_bucket_single_global_counter() {
    let mut registry = MethodRegistry::new();
    let mut bucket = ClientTokenBucket::new(&params());
    let method_a = method_id(&mut registry, "svc", "A");
    let method_b = method_id(&mut registry, "svc", "B");

    assert_eq!(bucket.tokens_left(), TOKENS_LEFT_INIT);

    let tok_a = bucket.try_acquire(method_a).expect("should succeed");
    assert!(tok_a <= TOKENS_LEFT_INIT);

    let tok_b = bucket.try_acquire(method_b);
    assert!(tok_b.is_some());
}

#[test]
fn test_client_token_spending_is_randomized() {
    let mut registry = MethodRegistry::new();
    let p = params();
    let mut bucket = ClientTokenBucket::new(&p);
    let refills = 22;
    for _ in 0..refills {
        bucket.replenish(&p);
    }
    let level = bucket.tokens_left();
    assert!(level > TOKENS_LEFT_INIT);

    let mut saw_strict_below = false;
    let method = method_id(&mut registry, "svc", "m");
    for _ in 0..50 {
        for _ in 0..refills {
            bucket.replenish(&p);
        }
        let current = bucket.tokens_left();
        let tok = bucket.try_acquire(method).expect("should succeed");
        assert!(tok <= current);
        if tok < current {
            saw_strict_below = true;
        }
    }
    assert!(
        saw_strict_below,
        "uniform-random spending should produce at least one tok < current over 50 draws"
    );
}

#[test]
fn test_client_replenish_accumulates() {
    let p = params();
    let mut bucket = ClientTokenBucket::new(&p);
    for _ in 0..25 {
        bucket.replenish(&p);
    }
    assert!(bucket.tokens_left() > TOKENS_LEFT_INIT);
}

#[test]
fn test_client_rate_limits_when_insufficient() {
    let mut registry = MethodRegistry::new();
    let mut bucket = ClientTokenBucket::new(&params());
    let method = method_id(&mut registry, "svc", "method");
    bucket.update_price(method, TOKENS_LEFT_INIT + TOKEN_UPDATE_STEP * 100 + 1);

    let result = bucket.try_acquire(method);
    assert!(result.is_none());
}

#[test]
fn test_price_propagation_edge_cases() {
    let mut registry = MethodRegistry::new();
    let method = method_id(&mut registry, "svc", "m");
    let ctx = ContextBuilder::new("test", 0).tokens(100).build();
    let mut state = fresh_state();
    state.own_price = 0;
    let layer = RajomonLayer::new(method, "svc", "m", &mut state, &ctx);

    let n_trials = 5000;
    let mut true_count = 0;
    for _ in 0..n_trials {
        if layer.should_propagate_price(&params()) {
            true_count += 1;
        }
    }
    assert!(
        (800..=1200).contains(&true_count),
        "expected ~20% propagation rate (1000±200), got {} / {}",
        true_count,
        n_trials
    );
}

#[test]
fn test_load_shedding_returns_correct_remaining_tokens() {
    let mut registry = MethodRegistry::new();
    let mut state = fresh_state();
    state.own_price = 7;
    let method = method_id(&mut registry, "svc", "Foo_ls");

    let ctx = ContextBuilder::new("test", 0).tokens(20).build();
    let layer = RajomonLayer::new(method, "svc", "Foo_ls", &mut state, &ctx);
    assert!(!layer.should_drop());
    assert_eq!(layer.remaining_tokens(), 13);
}

#[test]
fn test_mixed_tokens_accept_reject() {
    let mut registry = MethodRegistry::new();
    let mut state = fresh_state();
    state.own_price = 10;
    let method = method_id(&mut registry, "svc", "Foo_mixed");

    let mut rejected = 0;
    let mut accepted = 0;
    for i in 0..10 {
        let token_val = if i < 5 { 3u64 } else { 20u64 };
        let ctx = ContextBuilder::new("test", 0).tokens(token_val).build();
        let layer = RajomonLayer::new(method, "svc", "Foo_mixed", &mut state, &ctx);
        if layer.should_drop() {
            rejected += 1;
        } else {
            accepted += 1;
            if i >= 5 {
                assert_eq!(layer.remaining_tokens(), 10);
            }
        }
    }
    assert_eq!(rejected, 5);
    assert_eq!(accepted, 5);
}

#[test]
fn test_price_increases_then_decreases_over_time() {
    let mut state = fresh_state();

    for _ in 0..5 {
        state.queue_stats.window_max = LATENCY_THRESHOLD_US + 1000;
        state.update_prices(&params());
    }
    assert_eq!(state.own_price, 5 * PRICE_STEP_UP);

    state.queue_stats.window_max = 0;

    for _ in 0..3 {
        state.update_prices(&params());
    }
    assert_eq!(state.own_price, 5 * PRICE_STEP_UP - 3);
}

#[test]
fn test_global_own_price_shared_across_methods() {
    let mut registry = MethodRegistry::new();
    let mut state = fresh_state();
    state.own_price = 42;
    let method_a = method_id(&mut registry, "svc", "A");
    let method_b = method_id(&mut registry, "svc", "B");

    let price_a = state.accumulated_price(method_a);
    let price_b = state.accumulated_price(method_b);
    assert_eq!(price_a, 42);
    assert_eq!(price_b, 42);
}
