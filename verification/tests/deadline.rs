use masa::hook_state::BaseHookState;
use masa::deadline::{poll_priority, tightened_child_deadline};
use masa::context::ContextBuilder;
use masa::deadline::{
    child_deadline_and_prio, hard_deadline_estimate, hard_deadline_estimate_with,
    local_deadline_exceeded, local_deadline_message, oracle_child_deadline, read_u64_header,
    ChildRpcContext, E2eDeadlineGuardLayer, HeaderText, OracleHint, SloAbortHandler,
    ORACLE_CHILD_WORK_US_HEADER,
};
use masa::context::QueueLatencies;
use masa::estimation::layer::{
    continuation_reference, deterministic_sample_mix, exact_continuation_estimate,
    reverse_priority_order,
};
use masa::queue_latency::QueueLatencyTracker;
use masa::priority::PriorityHint;

#[test]
fn tied_deadline_uses_slack_estimate() {
    assert_eq!(hard_deadline_estimate_with(true, 90, 40), 90);
}

#[test]
fn default_deadline_uses_conservative_estimate() {
    assert_eq!(hard_deadline_estimate(90, 40), 40);
}

#[test]
fn child_deadline_with_predictive_scheduling() {
    let ctx = ContextBuilder::new("api", 1).deadline(10_000).build();
    let (deadline, prio) = child_deadline_and_prio(&ctx, 2_000, 3_000, 5_000, 4_000, true, false);
    assert_eq!(deadline, 6_000);
    assert_eq!(prio, PriorityHint::new(5_000));
    let (tied, _) = child_deadline_and_prio(&ctx, 2_000, 3_000, 5_000, 4_000, true, true);
    assert_eq!(tied, 5_000);
    // Estimates beyond the deadline saturate at zero.
    let (deadline, prio) = child_deadline_and_prio(&ctx, 20_000, 30_000, 50_000, 40_000, true, false);
    assert_eq!(deadline, 0);
    assert_eq!(prio, PriorityHint::new(0));
}

#[test]
fn child_deadline_without_predictive_scheduling_keeps_parent_priority() {
    let ctx = ContextBuilder::new("api", 1)
        .deadline(10_000)
        .prio_hint(PriorityHint::new(77))
        .build();
    let (deadline, prio) = child_deadline_and_prio(&ctx, 2_000, 3_000, 5_000, 4_000, false, false);
    assert_eq!(deadline, 6_000);
    assert_eq!(prio, PriorityHint::new(77));
}

#[test]
fn child_context_inherits_and_counts_a_hop() {
    let ctx = ContextBuilder::new("api", 1)
        .deadline(500)
        .hop_count(3)
        .tokens(42)
        .prio_hint(PriorityHint::new(9))
        .build();
    let c = ChildRpcContext::from_parent(&ctx);
    assert_eq!(c.deadline, 500);
    assert_eq!(c.hop_count, 4);
    assert_eq!(c.tokens, 42);
    assert_eq!(c.prio_hint, PriorityHint::new(9));
    let top = ContextBuilder::new("api", 1).hop_count(u8::MAX).build();
    assert_eq!(ChildRpcContext::from_parent(&top).hop_count, u8::MAX);
}

#[test]
fn local_deadline_check_and_message() {
    let ctx = ContextBuilder::new("api", 1).deadline(100).build();
    assert!(!local_deadline_exceeded(&ctx, 100));
    assert!(local_deadline_exceeded(&ctx, 101));
    let none = ContextBuilder::new("api", 1).deadline(0).build();
    assert!(!local_deadline_exceeded(&none, u64::MAX));
    assert_eq!(
        local_deadline_message("Svc", "Run"),
        "/EarlyReturn?src=Svc::Run&reason=LocalDeadlineExceeded"
    );
}

#[test]
fn slo_abort_fires_at_the_end_to_end_deadline_and_sticks() {
    let ctx = ContextBuilder::new("api", 1)
        .gateway_entry(1_000)
        .slo(500)
        .deadline(1_400)
        .build();
    let mut h = SloAbortHandler::new("Svc", "Run");
    assert!(!h.check(&ctx, 1_499, true));
    assert!(h.check(&ctx, 1_500, true));
    // Once aborted, it stays aborted.
    assert!(h.check(&ctx, 0, true));
    assert_eq!(h.issue_error(), "/EarlyReturn?src=Svc::Run");
    h.set_last_child("Child", "Get");
    assert_eq!(h.issue_error(), "/EarlyReturn?src=Svc::Run?last_rpc=Child::Get");
}

#[test]
fn slo_abort_is_off_without_policy_or_deadlines() {
    let ctx = ContextBuilder::new("api", 1)
        .gateway_entry(1_000)
        .slo(500)
        .deadline(1_400)
        .build();
    let mut h = SloAbortHandler::new("Svc", "Run");
    assert!(!h.check(&ctx, 5_000, false));
    let no_slo = ContextBuilder::new("api", 1).deadline(1_400).build();
    assert!(!h.check(&no_slo, 5_000, true));
    let no_deadline = ContextBuilder::new("api", 1).gateway_entry(1_000).slo(500).build();
    assert!(!h.check(&no_deadline, 5_000, true));
}

#[test]
fn oracle_deadline_from_perfect_information() {
    let (deadline, prio) = oracle_child_deadline(
        10_000,
        OracleHint { child_work_us: 2_000, remaining_after_us: 3_000 },
    );
    assert_eq!(deadline, 7_000);
    assert_eq!(prio, PriorityHint::new(5_000));
    let (late, start) = oracle_child_deadline(
        1_000,
        OracleHint { child_work_us: 2_000, remaining_after_us: 3_000 },
    );
    assert_eq!(late, 0);
    assert_eq!(start, PriorityHint::new(0));
}

#[test]
fn oracle_header_parsing_and_errors() {
    let key = ORACLE_CHILD_WORK_US_HEADER;
    assert_eq!(read_u64_header(HeaderText::Text("12000"), key, "Tail", "Run"), Ok(12000));
    assert_eq!(
        read_u64_header(HeaderText::Missing, key, "Tail", "Run"),
        Err("missing oracle header 'x-masa-oracle-child-work-us' for Tail::Run".to_string())
    );
    assert_eq!(
        read_u64_header(HeaderText::Invalid("bad bytes"), key, "Tail", "Run"),
        Err("invalid oracle header 'x-masa-oracle-child-work-us' for Tail::Run: bad bytes".to_string())
    );
    assert_eq!(
        read_u64_header(HeaderText::Text("12x"), key, "Tail", "Run"),
        Err("invalid oracle header 'x-masa-oracle-child-work-us' value '12x' for Tail::Run: invalid digit found in string".to_string())
    );
}

#[test]
fn exact_continuation_reads_and_caps_header() {
    let estimate = exact_continuation_estimate(HeaderText::Text("12000"), "Tail", "Run", 10_000).unwrap();
    assert_eq!(estimate.full, 10_000);
    assert_eq!(estimate.mean, 10_000);
    assert_eq!(estimate.floor, 10_000);
}

#[test]
fn exact_continuation_requires_header() {
    let message = exact_continuation_estimate(HeaderText::Missing, "Tail", "Run", 10_000).unwrap_err();
    assert!(message.contains("missing exact-continuation header"));
}

#[test]
fn continuation_reference_messages_and_uncapped_value() {
    assert_eq!(continuation_reference(HeaderText::Text("700"), "Tail", "Run"), Ok(700));
    let short = exact_continuation_estimate(HeaderText::Text("700"), "Tail", "Run", 10_000).unwrap();
    assert_eq!((short.full, short.mean, short.floor), (700, 700, 700));
    assert_eq!(
        continuation_reference(HeaderText::Missing, "Tail", "Run"),
        Err("missing exact-continuation header 'x-masa-oracle-remaining-after-us' for Tail::Run".to_string())
    );
    assert_eq!(
        continuation_reference(HeaderText::Invalid("bad"), "Tail", "Run"),
        Err("invalid exact-continuation header 'x-masa-oracle-remaining-after-us' for Tail::Run: bad".to_string())
    );
    assert_eq!(
        continuation_reference(HeaderText::Text(""), "Tail", "Run"),
        Err("invalid exact-continuation header 'x-masa-oracle-remaining-after-us' value '' for Tail::Run: cannot parse integer from empty string".to_string())
    );
}

#[test]
fn priority_order_reversal_complements_sampled_continuations() {
    let short = reverse_priority_order(2_000, 50_000, true);
    let long = reverse_priority_order(25_000, 50_000, true);
    assert!(short > long);
    assert_eq!(short, 48_000);
    assert_eq!(reverse_priority_order(0, 50_000, true), 0);
    assert_eq!(reverse_priority_order(25_000, 50_000, false), 25_000);
    assert_eq!(reverse_priority_order(60_000, 50_000, true), 0);
}

#[test]
fn sample_mix_is_the_splitmix_finalizer() {
    // SplitMix64 from a zero state yields this first output.
    assert_eq!(deterministic_sample_mix(0), 0xe220_a839_7b1d_cdaf);
    assert_eq!(deterministic_sample_mix(42), deterministic_sample_mix(42));
    assert_ne!(deterministic_sample_mix(1), deterministic_sample_mix(2));
}

#[test]
fn e2e_guard_aborts_with_last_child_once_deadline_passed() {
    let ctx = ContextBuilder::new("api", 1).slo(1_000).gateway_entry(5_000).deadline(6_000).build();
    let mut guard = E2eDeadlineGuardLayer::new("test.Service", "Method");
    assert_eq!(guard.before_poll(&ctx, 5_500, true), Ok(()));
    assert_eq!(guard.after_poll(true, &ctx, 5_999, true), Ok(()));
    assert_eq!(
        guard.before_poll(&ctx, 6_000, true),
        Err("/EarlyReturn?src=test.Service::Method".to_string())
    );
    guard.after_child_rpc("test.Service", "ChildMethod");
    let err = guard.before_child_rpc(&ctx, 0, true).unwrap_err();
    assert!(err.contains("last_rpc=test.Service::ChildMethod"), "{}", err);
    // A ready poll is never aborted.
    assert_eq!(guard.after_poll(false, &ctx, 9_000, true), Ok(()));
    // Without the policy nothing is aborted.
    let mut off = E2eDeadlineGuardLayer::new("test.Service", "Method");
    assert_eq!(off.before_poll(&ctx, 9_000, false), Ok(()));
}

#[test]
fn queue_latency_tracker_splits_first_and_later_polls() {
    let mut t = QueueLatencyTracker::new();
    t.track_poll(0);
    assert!(t.is_first_poll);
    t.track_poll(30);
    t.track_poll(5);
    t.track_poll(7);
    assert_eq!((t.initial_q_lat, t.resume_q_lat), (30, 12));
    let child = QueueLatencies { initial: 100, resume: 1, queue_lengths: Vec::new() };
    t.track_child_response(Some(&child));
    t.track_child_response(None);
    assert_eq!((t.initial_q_lat, t.resume_q_lat), (130, 13));
    let mut ctx = ContextBuilder::new("api", 1).build();
    assert!(ctx.queue_latencies().is_none());
    t.inject_context_metadata(&mut ctx);
    let q = ctx.queue_latencies().unwrap();
    assert_eq!((q.initial, q.resume, q.queue_lengths.len()), (130, 13, 0));
    let mut w = QueueLatencyTracker { initial_q_lat: u64::MAX, ..QueueLatencyTracker::new() };
    w.track_poll(2);
    assert_eq!(w.initial_q_lat, 1);
}

#[test]
fn child_deadline_never_exceeds_parent_and_shrinks_with_estimate() {
    let ctx = ContextBuilder::new("api", 1).deadline(10_000).build();
    for sched_pred in [false, true] {
        for tied in [false, true] {
            let (d, _) = child_deadline_and_prio(&ctx, 1_000, 500, 2_000, 1_500, sched_pred, tied);
            let (more, _) = child_deadline_and_prio(&ctx, 1_000, 500, 3_000, 3_000, sched_pred, tied);
            assert!(d <= 10_000);
            assert!(more <= d);
        }
    }
    let (none_left, _) = child_deadline_and_prio(&ctx, 0, 0, 20_000, 20_000, true, false);
    assert_eq!(none_left, 0);
}

#[test]
fn predictive_child_deadline_uses_deadline_as_priority() {
    let ctx = ContextBuilder::new("api", 1).deadline(10_000).prio_hint(PriorityHint::new(77)).build();
    let (d, p) = tightened_child_deadline(&ctx, 3_000, true);
    assert_eq!((d, p.value()), (7_000, 7_000));
    let (d, p) = tightened_child_deadline(&ctx, 30_000, true);
    assert_eq!((d, p.value()), (0, 0));
    let (d, p) = tightened_child_deadline(&ctx, 3_000, false);
    assert_eq!((d, p.value()), (10_000, 77));
    assert_eq!(poll_priority(&ctx, 4_000).value(), 6_000);
    assert_eq!(poll_priority(&ctx, 12_000).value(), 0);
}

#[test]
fn base_hook_state_guards_and_reports_queue_latencies() {
    let ctx = ContextBuilder::new("api", 1).slo(1_000).gateway_entry(5_000).deadline(6_000).build();
    let mut base = BaseHookState::new(ctx, "Svc", "Run");
    assert_eq!(base.check_guards(5_000, true), Ok(()));
    base.track_poll(40);
    base.track_poll(2);
    assert_eq!(base.check_pending_guards(false, 9_000, true), Ok(()));
    base.update_after_child("Db", "Get");
    assert_eq!(
        base.check_pending_guards(true, 6_500, true),
        Err("/EarlyReturn?src=Svc::Run?last_rpc=Db::Get".to_string())
    );
    let out = base.finalize();
    let q = out.queue_latencies().unwrap();
    assert_eq!((q.initial, q.resume), (40, 2));
    assert_eq!(out.deadline(), 6_000);
    assert_eq!(out.request_id(), 1);
}

#[test]
fn child_context_carries_the_settled_fields() {
    let parent = ContextBuilder::new("api", 9)
        .slo(1_000)
        .gateway_entry(100)
        .deadline(1_100)
        .prio_hint(PriorityHint::new(5))
        .hop_count(1)
        .tokens(30)
        .frontend_elapse(4)
        .build();
    let mut c = ChildRpcContext::from_parent(&parent);
    c.deadline = 800;
    c.prio_hint = PriorityHint::new(600);
    c.tokens = 12;
    let child = c.child_context(&parent);
    assert_eq!(child.deadline(), 800);
    assert_eq!(child.prio_hint(), PriorityHint::new(600));
    assert_eq!(child.hop_count(), 2);
    assert_eq!(child.tokens(), 12);
    assert_eq!(child.api(), "api");
    assert_eq!((child.request_id(), child.slo(), child.gateway_entry()), (9, 1_000, 100));
    assert_eq!(child.frontend_elapse(), Some(4));
}

#[test]
fn oracle_hint_reads_both_headers_first_error_wins() {
    let hint = OracleHint::from_headers(HeaderText::Text("2000"), HeaderText::Text("3000"), "Tail", "Run");
    assert_eq!(hint, Ok(OracleHint { child_work_us: 2_000, remaining_after_us: 3_000 }));
    assert_eq!(
        OracleHint::from_headers(HeaderText::Missing, HeaderText::Invalid("x"), "Tail", "Run"),
        Err("missing oracle header 'x-masa-oracle-child-work-us' for Tail::Run".to_string())
    );
    assert_eq!(
        OracleHint::from_headers(HeaderText::Text("1"), HeaderText::Missing, "Tail", "Run"),
        Err("missing oracle header 'x-masa-oracle-remaining-after-us' for Tail::Run".to_string())
    );
}
