use std::future::{ready, Future, Ready};
use std::pin::Pin;
use std::sync::{Arc, Mutex};
use std::task::{Context as TaskContext, Poll, Wake, Waker};
use tower_service::Service;
use masa::balance::Balance;
use masa::estimation::fanout::PathPrefix;
use masa::estimation::keys::{format_method_name, parent_to_child_text, ParentToChildKey};
use masa::flags::Features;
use masa::header::{context_header_payload, context_header_string};
use masa::registry::{MethodId, MethodRegistry};
use masa::text::{early_return_message, parse_u64};
use masa::timing::ComputeTracker;

#[test]
fn registry_hands_out_stable_unique_ids() {
    let mut r = MethodRegistry::new();
    let a = r.get_or_register("Svc", "A");
    let b = r.get_or_register("Svc", "B");
    assert_eq!(a, MethodId(1));
    assert_eq!(b, MethodId(2));
    assert_eq!(r.get_or_register("Svc", "A"), a);
    let s = r.get_or_register_service("Svc");
    assert_eq!(s, MethodId(3));
    assert_eq!(r.get_or_register_service("Svc"), s);
    let (m, svc) = r.get_or_register_with_service("Other", "C");
    assert_eq!(svc, MethodId(4));
    assert_eq!(m, MethodId(5));
    assert_eq!(r.get_method_name(a), Some(("Svc".to_string(), "A".to_string())));
    assert_eq!(r.get_method_name(s), Some(("Svc".to_string(), "*".to_string())));
    assert_eq!(r.get_method_name(MethodId(42)), None);
}

#[test]
fn method_names_and_key_text() {
    let mut r = MethodRegistry::new();
    let a = r.get_or_register("Svc", "A");
    assert_eq!(format_method_name(&r, a), "Svc::A");
    assert_eq!(format_method_name(&r, MethodId(1234)), "MethodId(1234)");
    let key = ParentToChildKey(a, a, MethodId(9));
    assert_eq!(parent_to_child_text(&r, key), "Svc::A=>MethodId(9)");
}

#[test]
fn path_prefix_labels() {
    assert_eq!(PathPrefix::root().label(), "root");
    let p = PathPrefix { hash: 0x1234_abcd, depth: 3 };
    assert_eq!(p.label(), format!("{}:{:016x}", 3, 0x1234_abcd_u64));
}

#[test]
fn compute_tracker_stop_without_start_is_noop() {
    let mut tracker = ComputeTracker::new();
    tracker.stop(1_000);
    assert_eq!(tracker.compute_us(), 0);
}

#[test]
fn compute_tracker_accumulates_across_polls() {
    let mut tracker = ComputeTracker::new();
    assert_eq!(tracker.compute_us(), 0);
    tracker.start(100);
    tracker.stop(101);
    assert!(tracker.compute_us() > 0);
    let first = tracker.compute_us();
    tracker.start(200);
    tracker.stop(205);
    assert!(tracker.compute_us() > first);
    assert_eq!(tracker.compute_us(), 6);
}

#[test]
fn round_robin_balance_cycles_through_services() {
    let mut b = Balance::new(vec!["a", "b", "c"]);
    let mut seen = Vec::new();
    for _ in 0..5 {
        seen.push(*b.current());
        b.advance();
    }
    assert_eq!(seen, vec!["a", "b", "c", "a", "b"]);
    *b.current_mut() = "z";
    assert_eq!(b.len(), 3);
    assert_eq!(b.next_index(), 2);
    assert_eq!(*b.current(), "z");
}

#[derive(Clone)]
struct IndexedService {
    id: usize,
    ready_log: Arc<Mutex<Vec<usize>>>,
}

impl Service<()> for IndexedService {
    type Response = usize;
    type Error = ();
    type Future = Ready<Result<usize, ()>>;

    fn poll_ready(&mut self, _cx: &mut TaskContext<'_>) -> Poll<Result<(), Self::Error>> {
        self.ready_log.lock().expect("ready log poisoned").push(self.id);
        Poll::Ready(Ok(()))
    }

    fn call(&mut self, _request: ()) -> Self::Future {
        ready(Ok(self.id))
    }
}

struct NoopWake;

impl Wake for NoopWake {
    fn wake(self: Arc<Self>) {}
}

#[test]
fn routes_over_fixed_services_in_round_robin_order() {
    let ready_log = Arc::new(Mutex::new(Vec::new()));
    let services = (0..3)
        .map(|id| IndexedService { id, ready_log: Arc::clone(&ready_log) })
        .collect();
    let mut balance = Balance::new(services);

    let waker = Waker::from(Arc::new(NoopWake));
    let mut cx = TaskContext::from_waker(&waker);

    for expected in [0, 1, 2, 0, 1] {
        assert_eq!(balance.current_mut().poll_ready(&mut cx), Poll::Ready(Ok(())));

        let mut response = balance.current_mut().call(());
        balance.advance();
        assert_eq!(Pin::new(&mut response).poll(&mut cx), Poll::Ready(Ok(expected)));
    }

    let ready_log = ready_log.lock().expect("ready log poisoned");
    assert_eq!(&*ready_log, &[0, 1, 2, 0, 1]);
}

#[test]
fn feature_rules() {
    assert_eq!(Features::default().validate(), Ok(()));
    let both_ac = Features { ac_pred: true, ac_rajomon: true, ..Features::default() };
    assert_eq!(
        both_ac.validate(),
        Err("Enable at most one admission control strategy: ac_pred | ac_rajomon")
    );
    let pred_without_estimator = Features { sched_pred: true, ..Features::default() };
    assert_eq!(pred_without_estimator.validate(), Err("'sched_pred' requires 'estimator'"));
    let ok = Features { ac_rajomon: true, sched_fifo: true, ..Features::default() };
    assert_eq!(ok.validate(), Ok(()));
}

#[test]
fn decimal_parsing_matches_std() {
    for text in ["0", "+7", "18446744073709551615", "18446744073709551616", "", "+", "-1", "12a", " 1"] {
        assert_eq!(parse_u64(text), text.parse::<u64>().ok(), "text={:?}", text);
    }
}

#[test]
fn early_return_messages() {
    assert_eq!(early_return_message("S", "M", None, None), "/EarlyReturn?src=S::M");
    assert_eq!(
        early_return_message("S", "M", Some(("C", "N")), Some("Why")),
        "/EarlyReturn?src=S::M?last_rpc=C::N&reason=Why"
    );
}

#[test]
fn context_header_text_round_trips() {
    let payload = vec![0u8, 1, 2, 250, 255];
    let text = context_header_string(&payload);
    assert_eq!(text, "AAEC+v8=");
    assert_eq!(context_header_payload(&text), Ok(payload));
    let err = context_header_payload("not-base64").unwrap_err();
    assert!(err.starts_with("invalid MASA context header `ctx`: invalid base64"));
}
