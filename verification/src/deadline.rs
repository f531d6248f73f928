//! Deadline decisions made per request and per child call: the context a
//! child call inherits, tightened child deadlines and priorities, the local
//! and end-to-end deadline checks, and the oracle's perfect-information
//! deadlines.
use vstd::prelude::*;

use crate::context::{Context, ContextBuilder, ContextView};
use crate::priority::PriorityHint;
use crate::text::{early_return_message, early_return_text, parse_u64, parsed_u64};
use vstd::string::StringSliceAdditionalSpecFns;

verus! {

/// `a - b`, or 0 when `b` is larger.
pub open spec fn sat_sub(a: u64, b: u64) -> u64 {
    if a >= b { (a - b) as u64 } else { 0 }
}

/// The context a child call inherits from its parent, before the layers
/// adjust it.
#[derive(Debug, Clone, Copy, PartialEq, Eq, Structural)]
pub struct ChildRpcContext {
    pub deadline: u64,
    pub prio_hint: PriorityHint,
    /// The parent's hop count plus one (saturating).
    pub hop_count: u8,
    pub tokens: u64,
}

impl ChildRpcContext {
    /// The parent's deadline, priority hint and tokens, one hop further.
    pub fn from_parent(ctx: &Context) -> (c: ChildRpcContext)
        ensures
            c.deadline == ctx@.deadline,
            c.prio_hint@ == ctx@.prio_hint,
            c.hop_count == (if ctx@.hop_count == u8::MAX { u8::MAX } else { (ctx@.hop_count + 1) as u8 }),
            c.tokens == ctx@.tokens,
    {
        ChildRpcContext {
            deadline: ctx.deadline(),
            prio_hint: ctx.prio_hint(),
            hop_count: ctx.hop_count().saturating_add(1),
            tokens: ctx.tokens(),
        }
    }

    /// The context the child receives: the parent's, with the deadline,
    /// priority hint, hop count and tokens that the layers settled on.
    pub fn child_context(&self, parent: &Context) -> (c: Context)
        ensures
            c@ == (ContextView {
                deadline: self.deadline,
                prio_hint: self.prio_hint@,
                hop_count: self.hop_count,
                tokens: self.tokens,
                ..parent@
            }),
    {
        ContextBuilder::from(parent)
            .deadline(self.deadline)
            .prio_hint(self.prio_hint)
            .hop_count(self.hop_count)
            .tokens(self.tokens)
            .build()
    }
}

/// The remaining-work estimate subtracted from the deadline of a child
/// call: the slack (full) estimate when the deadline is tied to the slack,
/// the conservative deadline estimate otherwise.
pub open spec fn hard_deadline_of(deadline_equals_slack: bool, slack_estimate: u64, deadline_estimate: u64) -> u64 {
    if deadline_equals_slack { slack_estimate } else { deadline_estimate }
}

/// The estimate subtracted from a child's hard deadline, when the deadline
/// is tied to the slack estimate or not.
pub fn hard_deadline_estimate_with(deadline_equals_slack: bool, slack_estimate: u64, deadline_estimate: u64) -> (r: u64)
    ensures
        r == hard_deadline_of(deadline_equals_slack, slack_estimate, deadline_estimate),
{
    if deadline_equals_slack {
        slack_estimate
    } else {
        deadline_estimate
    }
}

/// The estimate subtracted from a child's hard deadline in the default
/// configuration, where the deadline is not tied to the slack: the
/// conservative deadline estimate.
pub fn hard_deadline_estimate(slack_estimate: u64, deadline_estimate: u64) -> (r: u64)
    ensures
        r == hard_deadline_of(false, slack_estimate, deadline_estimate),
        r == deadline_estimate,
{
    hard_deadline_estimate_with(false, slack_estimate, deadline_estimate)
}

/// The deadline and priority hint of a child call made at `now`.
///
/// With predictive scheduling, the deadline is the parent's deadline minus
/// the hard-deadline estimate, and the priority is the time left until the
/// parent's deadline minus the priority estimate. Without it, the deadline
/// is the parent's deadline minus the deadline estimate and the priority is
/// the parent's.
pub open spec fn child_deadline_and_prio_of(
    parent_deadline: u64,
    parent_prio: u64,
    now: u64,
    priority_est_remaining: u64,
    deadline_full_est_remaining: u64,
    deadline_est_remaining: u64,
    sched_pred: bool,
    deadline_equals_slack: bool,
) -> (u64, u64) {
    if sched_pred {
        let hard = hard_deadline_of(deadline_equals_slack, deadline_full_est_remaining, deadline_est_remaining);
        (
            sat_sub(parent_deadline, hard),
            sat_sub(sat_sub(parent_deadline, priority_est_remaining), now),
        )
    } else {
        (sat_sub(parent_deadline, deadline_est_remaining), parent_prio)
    }
}

/// Computes the deadline and priority hint of a child call made at `now`;
/// see [`child_deadline_and_prio_of`].
pub fn child_deadline_and_prio(
    ctx: &Context,
    now: u64,
    priority_est_remaining: u64,
    deadline_full_est_remaining: u64,
    deadline_est_remaining: u64,
    sched_pred: bool,
    deadline_equals_slack: bool,
) -> (r: (u64, PriorityHint))
    ensures
        (r.0, r.1@) == child_deadline_and_prio_of(
            ctx@.deadline,
            ctx@.prio_hint,
            now,
            priority_est_remaining,
            deadline_full_est_remaining,
            deadline_est_remaining,
            sched_pred,
            deadline_equals_slack,
        ),
{
    if sched_pred {
        let hard = hard_deadline_estimate_with(
            deadline_equals_slack,
            deadline_full_est_remaining,
            deadline_est_remaining,
        );
        let deadline = ctx.deadline().saturating_sub(hard);
        let priority_deadline = ctx.deadline().saturating_sub(priority_est_remaining);
        let priority_remaining = priority_deadline.saturating_sub(now);
        (deadline, PriorityHint::new(priority_remaining))
    } else {
        let d = ctx.deadline().saturating_sub(deadline_est_remaining);
        (d, ctx.prio_hint())
    }
}

/// The deadline and priority hint of a child call under the predictive
/// policy that has no separate priority estimate: with predictive
/// scheduling, the parent's deadline minus the remaining-work estimate,
/// used as the priority too (so that growing estimates cannot invert the
/// order of older requests); without it, the parent's deadline and hint.
pub fn tightened_child_deadline(ctx: &Context, est_remaining: u64, sched_pred: bool) -> (r: (u64, PriorityHint))
    ensures
        sched_pred ==> r.0 == sat_sub(ctx@.deadline, est_remaining) && r.1@ == r.0,
        !sched_pred ==> r.0 == ctx@.deadline && r.1@ == ctx@.prio_hint,
{
    if sched_pred {
        let d = ctx.deadline().saturating_sub(est_remaining);
        (d, PriorityHint::new(d))
    } else {
        (ctx.deadline(), ctx.prio_hint())
    }
}

/// The priority of the request's task at a poll at `now` under predictive
/// scheduling: the time left until its deadline.
pub fn poll_priority(ctx: &Context, now: u64) -> (h: PriorityHint)
    ensures
        h@ == sat_sub(ctx@.deadline, now),
{
    PriorityHint::new(ctx.deadline().saturating_sub(now))
}

/// Law: a child call's deadline never exceeds its parent's, and a larger
/// remaining-work estimate never gives a later child deadline.
pub proof fn law_child_deadline_never_loosens(
    parent_deadline: u64,
    parent_prio: u64,
    now: u64,
    priority_est: u64,
    full_est: u64,
    deadline_est: u64,
    more: u64,
    sched_pred: bool,
    deadline_equals_slack: bool,
)
    requires
        more >= deadline_est,
        more >= full_est,
    ensures
        child_deadline_and_prio_of(
            parent_deadline,
            parent_prio,
            now,
            priority_est,
            full_est,
            deadline_est,
            sched_pred,
            deadline_equals_slack,
        ).0 <= parent_deadline,
        child_deadline_and_prio_of(
            parent_deadline,
            parent_prio,
            now,
            priority_est,
            more,
            more,
            sched_pred,
            deadline_equals_slack,
        ).0 <= child_deadline_and_prio_of(
            parent_deadline,
            parent_prio,
            now,
            priority_est,
            full_est,
            deadline_est,
            sched_pred,
            deadline_equals_slack,
        ).0,
{
}

/// Reason of a request whose local deadline passed.
pub const LOCAL_DEADLINE_REASON: &'static str = "LocalDeadlineExceeded";

/// Whether a hop's local deadline has passed at `now` (a deadline of 0
/// means none is set).
pub open spec fn local_deadline_passed(deadline: u64, now: u64) -> bool {
    deadline != 0 && now > deadline
}

/// Whether the local deadline of `ctx` has passed at `now`.
pub fn local_deadline_exceeded(ctx: &Context, now: u64) -> (r: bool)
    ensures
        r == local_deadline_passed(ctx@.deadline, now),
{
    let d = ctx.deadline();
    d != 0 && now > d
}

/// The message of a request aborted because its local deadline passed.
pub fn local_deadline_message(service: &str, method: &str) -> (s: String)
    ensures
        s@ == early_return_text(service@, method@, None, Some(LOCAL_DEADLINE_REASON@)),
{
    early_return_message(service, method, None, Some(LOCAL_DEADLINE_REASON))
}

/// The end-to-end deadline guard of one request: once the request's
/// end-to-end deadline is found passed, it stays aborted.
#[derive(Debug)]
pub struct SloAbortHandler {
    will_abort: bool,
    service: String,
    method: String,
    last_child: Option<(String, String)>,
}

/// The abstract state of the guard.
pub struct SloAbortView {
    pub will_abort: bool,
    pub service: Seq<char>,
    pub method: Seq<char>,
    pub last_child: Option<(Seq<char>, Seq<char>)>,
}

impl View for SloAbortHandler {
    type V = SloAbortView;

    closed spec fn view(&self) -> SloAbortView {
        SloAbortView {
            will_abort: self.will_abort,
            service: self.service@,
            method: self.method@,
            last_child: match self.last_child {
                Some((s, m)) => Some((s@, m@)),
                None => None,
            },
        }
    }
}

/// The decision of the guard at `now`: never without the SLO abort policy
/// or without an end-to-end deadline; always once aborted; never without a
/// hop deadline; otherwise when the end-to-end deadline has been reached.
pub open spec fn slo_abort_decision(
    abort_slo: bool,
    will_abort: bool,
    e2e_deadline: int,
    deadline: u64,
    now: u64,
) -> bool {
    if !abort_slo || e2e_deadline == 0 {
        false
    } else if will_abort {
        true
    } else if deadline == 0 {
        false
    } else {
        now >= e2e_deadline
    }
}

/// Law: the end-to-end guard never aborts before the end-to-end deadline
/// unless it already had, and once it has aborted it keeps aborting while
/// the policy is on and the request has an end-to-end deadline.
pub proof fn law_slo_abort_sticks(abort_slo: bool, e2e_deadline: int, deadline: u64, now: u64, later: u64)
    requires
        later >= now,
    ensures
        slo_abort_decision(abort_slo, false, e2e_deadline, deadline, now) ==> now >= e2e_deadline,
        slo_abort_decision(abort_slo, false, e2e_deadline, deadline, now) ==> slo_abort_decision(
            abort_slo,
            false,
            e2e_deadline,
            deadline,
            later,
        ),
        slo_abort_decision(abort_slo, true, e2e_deadline, deadline, later) == (abort_slo && e2e_deadline
            != 0),
{
}

impl Default for SloAbortHandler {
    fn default() -> (h: SloAbortHandler)
        ensures
            !h@.will_abort,
            h@.last_child == None::<(Seq<char>, Seq<char>)>,
    {
        SloAbortHandler {
            will_abort: false,
            service: String::new(),
            method: String::new(),
            last_child: None,
        }
    }
}

impl SloAbortHandler {
    /// A guard for a request to `service`::`method`.
    pub fn new(service: &str, method: &str) -> (h: SloAbortHandler)
        ensures
            h@ == (SloAbortView { will_abort: false, service: service@, method: method@, last_child: None }),
    {
        SloAbortHandler {
            will_abort: false,
            service: String::from_str(service),
            method: String::from_str(method),
            last_child: None,
        }
    }

    /// Records the last child call that returned.
    pub fn set_last_child(&mut self, service: &str, method: &str)
        ensures
            final(self)@ == (SloAbortView { last_child: Some((service@, method@)), ..old(self)@ }),
    {
        self.last_child = Some((String::from_str(service), String::from_str(method)));
    }

    /// Checks the end-to-end deadline at `now`; see [`slo_abort_decision`].
    /// A positive answer is remembered.
    pub fn check(&mut self, ctx: &Context, now: u64, abort_slo: bool) -> (r: bool)
        requires
            ctx@.gateway_entry + ctx@.slo <= u64::MAX,
        ensures
            r == slo_abort_decision(
                abort_slo,
                old(self)@.will_abort,
                ctx@.gateway_entry + ctx@.slo,
                ctx@.deadline,
                now,
            ),
            final(self)@ == (SloAbortView { will_abort: old(self)@.will_abort || r, ..old(self)@ }),
    {
        if !abort_slo {
            return false;
        }
        let e2e_deadline = ctx.e2e_deadline();
        if e2e_deadline == 0 {
            return false;
        }
        if self.will_abort {
            return true;
        }
        let deadline = ctx.deadline();
        if deadline == 0 {
            return false;
        }
        let should_early_return = now >= e2e_deadline;
        if should_early_return {
            self.will_abort = true;
        }
        should_early_return
    }

    /// The message of the aborted request, with the last child call that
    /// returned, if any.
    pub fn issue_error(&self) -> (s: String)
        ensures
            s@ == early_return_text(self@.service, self@.method, self@.last_child, None),
    {
        match &self.last_child {
            Some((s, m)) => early_return_message(
                self.service.as_str(),
                self.method.as_str(),
                Some((s.as_str(), m.as_str())),
                None,
            ),
            None => early_return_message(self.service.as_str(), self.method.as_str(), None, None),
        }
    }
}

/// The end-to-end deadline guard layer of a request: it aborts the
/// request, before a poll, before a child call and after a pending poll,
/// once the request's end-to-end deadline has passed.
#[derive(Debug)]
pub struct E2eDeadlineGuardLayer {
    handler: SloAbortHandler,
}

impl View for E2eDeadlineGuardLayer {
    type V = SloAbortView;

    closed spec fn view(&self) -> SloAbortView {
        self.handler@
    }
}

/// The outcome of a guard check that decided `abort` in state `v`: the
/// early-return message of the request, or success.
pub open spec fn guard_outcome(v: SloAbortView, abort: bool, r: Result<(), String>) -> bool {
    if abort {
        r matches Err(msg) && msg@ == early_return_text(v.service, v.method, v.last_child, None)
    } else {
        r is Ok
    }
}

impl E2eDeadlineGuardLayer {
    /// The guard of a request to `service`::`method`.
    pub fn new(service: &str, method: &str) -> (l: E2eDeadlineGuardLayer)
        ensures
            l@ == (SloAbortView { will_abort: false, service: service@, method: method@, last_child: None }),
    {
        E2eDeadlineGuardLayer { handler: SloAbortHandler::new(service, method) }
    }

    /// Checks the end-to-end deadline at `now` and answers with the
    /// early-return message if the request is aborted.
    fn guard(&mut self, ctx: &Context, now: u64, abort_slo: bool) -> (r: Result<(), String>)
        requires
            ctx@.gateway_entry + ctx@.slo <= u64::MAX,
        ensures
            ({
                let d = slo_abort_decision(
                    abort_slo,
                    old(self)@.will_abort,
                    ctx@.gateway_entry + ctx@.slo,
                    ctx@.deadline,
                    now,
                );
                &&& final(self)@ == (SloAbortView { will_abort: old(self)@.will_abort || d, ..old(self)@ })
                &&& guard_outcome(final(self)@, d, r)
            }),
    {
        if self.handler.check(ctx, now, abort_slo) {
            return Err(self.handler.issue_error());
        }
        Ok(())
    }

    /// Before a poll of the request's handler; see [`slo_abort_decision`].
    pub fn before_poll(&mut self, ctx: &Context, now: u64, abort_slo: bool) -> (r: Result<(), String>)
        requires
            ctx@.gateway_entry + ctx@.slo <= u64::MAX,
        ensures
            ({
                let d = slo_abort_decision(
                    abort_slo,
                    old(self)@.will_abort,
                    ctx@.gateway_entry + ctx@.slo,
                    ctx@.deadline,
                    now,
                );
                &&& final(self)@ == (SloAbortView { will_abort: old(self)@.will_abort || d, ..old(self)@ })
                &&& guard_outcome(final(self)@, d, r)
            }),
    {
        self.guard(ctx, now, abort_slo)
    }

    /// Before a child call; the same check as [`Self::before_poll`].
    pub fn before_child_rpc(&mut self, ctx: &Context, now: u64, abort_slo: bool) -> (r: Result<(), String>)
        requires
            ctx@.gateway_entry + ctx@.slo <= u64::MAX,
        ensures
            ({
                let d = slo_abort_decision(
                    abort_slo,
                    old(self)@.will_abort,
                    ctx@.gateway_entry + ctx@.slo,
                    ctx@.deadline,
                    now,
                );
                &&& final(self)@ == (SloAbortView { will_abort: old(self)@.will_abort || d, ..old(self)@ })
                &&& guard_outcome(final(self)@, d, r)
            }),
    {
        self.guard(ctx, now, abort_slo)
    }

    /// After the child call `service`::`method` returned: it becomes the
    /// last child named in the early-return message.
    pub fn after_child_rpc(&mut self, service: &str, method: &str)
        ensures
            final(self)@ == (SloAbortView { last_child: Some((service@, method@)), ..old(self)@ }),
    {
        self.handler.set_last_child(service, method);
    }

    /// After a poll of the request's handler: a pending poll is checked as
    /// in [`Self::before_poll`]; a ready one passes unchecked.
    pub fn after_poll(&mut self, pending: bool, ctx: &Context, now: u64, abort_slo: bool) -> (r: Result<(), String>)
        requires
            ctx@.gateway_entry + ctx@.slo <= u64::MAX,
        ensures
            !pending ==> r is Ok && final(self)@ == old(self)@,
            pending ==> ({
                let d = slo_abort_decision(
                    abort_slo,
                    old(self)@.will_abort,
                    ctx@.gateway_entry + ctx@.slo,
                    ctx@.deadline,
                    now,
                );
                &&& final(self)@ == (SloAbortView { will_abort: old(self)@.will_abort || d, ..old(self)@ })
                &&& guard_outcome(final(self)@, d, r)
            }),
    {
        if pending {
            return self.guard(ctx, now, abort_slo);
        }
        Ok(())
    }
}

/// The oracle's view of a child call: the child's wall-clock work, and the
/// remaining wall-clock work after it returns.
#[derive(Debug, Clone, Copy, PartialEq, Eq, Structural)]
pub struct OracleHint {
    pub child_work_us: u64,
    pub remaining_after_us: u64,
}

impl OracleHint {
    /// The oracle's hint for a call to `child_service`::`child_method` from
    /// its two headers: the child's work, then the remaining work after it.
    /// The first header that is missing or invalid gives its error.
    pub fn from_headers(
        child_work: HeaderText,
        remaining_after: HeaderText,
        child_service: &str,
        child_method: &str,
    ) -> (r: Result<OracleHint, String>)
        ensures
            exists|w: Result<u64, String>, a: Result<u64, String>|
                decimal_header_result("oracle"@, child_work, ORACLE_CHILD_WORK_US_HEADER@, child_service@, child_method@, w)
                    && decimal_header_result(
                    "oracle"@,
                    remaining_after,
                    ORACLE_REMAINING_AFTER_US_HEADER@,
                    child_service@,
                    child_method@,
                    a,
                ) && r == match (w, a) {
                    (Err(e), _) => Err::<OracleHint, String>(e),
                    (Ok(_), Err(e)) => Err::<OracleHint, String>(e),
                    (Ok(cw), Ok(ra)) => Ok::<OracleHint, String>(OracleHint { child_work_us: cw, remaining_after_us: ra }),
                },
    {
        let w = read_u64_header(child_work, ORACLE_CHILD_WORK_US_HEADER, child_service, child_method);
        let a = read_u64_header(remaining_after, ORACLE_REMAINING_AFTER_US_HEADER, child_service, child_method);
        let child_work_us = match w {
            Ok(v) => v,
            Err(e) => {
                return Err(e);
            },
        };
        let remaining_after_us = match a {
            Ok(v) => v,
            Err(e) => {
                return Err(e);
            },
        };
        Ok(OracleHint { child_work_us, remaining_after_us })
    }
}

/// The deadline and priority of a child call from perfect information: the
/// child must complete by the end-to-end deadline minus the remaining work
/// after it, and start by that completion deadline minus its own work.
pub fn oracle_child_deadline(e2e_deadline: u64, hint: OracleHint) -> (r: (u64, PriorityHint))
    ensures
        r.0 == sat_sub(e2e_deadline, hint.remaining_after_us),
        r.1@ == sat_sub(sat_sub(e2e_deadline, hint.remaining_after_us), hint.child_work_us),
{
    let completion_deadline = e2e_deadline.saturating_sub(hint.remaining_after_us);
    let latest_start = completion_deadline.saturating_sub(hint.child_work_us);
    (completion_deadline, PriorityHint::new(latest_start))
}

/// A header as read from a request's metadata.
#[derive(Debug, Clone, Copy)]
pub enum HeaderText<'a> {
    /// The header is absent.
    Missing,
    /// The header is present but not valid text; the reading error.
    Invalid(&'a str),
    /// The header's text.
    Text(&'a str),
}

/// Header carrying the child call's wall-clock work, for the oracle.
pub const ORACLE_CHILD_WORK_US_HEADER: &'static str = "x-masa-oracle-child-work-us";

/// Header carrying the remaining wall-clock work after the child call.
pub const ORACLE_REMAINING_AFTER_US_HEADER: &'static str = "x-masa-oracle-remaining-after-us";

/// The error message of `str::parse::<u64>` on `s`.
pub uninterp spec fn u64_parse_error_text(s: Seq<char>) -> Seq<char>;

/// The message of the error that `str::parse::<u64>` gives on `s`, a text
/// that is not a decimal `u64`.
#[verifier::external_body]
fn u64_parse_error_message(s: &str) -> (m: String)
    requires
        parsed_u64(s.spec_bytes()) is None,
    ensures
        m@ == u64_parse_error_text(s@),
{
    match s.parse::<u64>() {
        Ok(_) => String::new(),
        Err(e) => e.to_string(),
    }
}

/// The message for a missing `label` header.
pub open spec fn missing_header_text(label: Seq<char>, key: Seq<char>, service: Seq<char>, method: Seq<char>) -> Seq<char> {
    "missing "@ + label + " header '"@ + key + "' for "@ + service + "::"@ + method
}

/// The message for a `label` header that is not text or not a number.
pub open spec fn invalid_header_text(
    label: Seq<char>,
    key: Seq<char>,
    value: Option<Seq<char>>,
    service: Seq<char>,
    method: Seq<char>,
    error: Seq<char>,
) -> Seq<char> {
    let head = "invalid "@ + label + " header '"@ + key + "'"@;
    let with_value = match value {
        Some(v) => head + " value '"@ + v + "'"@,
        None => head,
    };
    with_value + " for "@ + service + "::"@ + method + ": "@ + error
}

/// What reading the decimal `label` header `key` of a call to
/// `service`::`method` gives.
pub open spec fn decimal_header_result(
    label: Seq<char>,
    value: HeaderText,
    key: Seq<char>,
    service: Seq<char>,
    method: Seq<char>,
    r: Result<u64, String>,
) -> bool {
    match value {
        HeaderText::Missing => r matches Err(msg) && msg@ == missing_header_text(label, key, service, method),
        HeaderText::Invalid(e) => r matches Err(msg) && msg@ == invalid_header_text(label, key, None, service, method, e@),
        HeaderText::Text(s) => match parsed_u64(s.spec_bytes()) {
            Some(v) => r == Ok::<u64, String>(v),
            None => r matches Err(msg) && msg@ == invalid_header_text(
                label,
                key,
                Some(s@),
                service,
                method,
                u64_parse_error_text(s@),
            ),
        },
    }
}

/// Reads the decimal `label` header `key` for a call to
/// `child_service`::`child_method`: a missing header, one that is not text
/// and one that is not a decimal `u64` each give their error message.
pub(crate) fn read_decimal_header(
    label: &str,
    value: HeaderText,
    key: &str,
    child_service: &str,
    child_method: &str,
) -> (r: Result<u64, String>)
    ensures
        decimal_header_result(label@, value, key@, child_service@, child_method@, r),
{
    match value {
        HeaderText::Missing => {
            let mut m = String::from_str("missing ");
            m.append(label);
            m.append(" header '");
            m.append(key);
            m.append("' for ");
            m.append(child_service);
            m.append("::");
            m.append(child_method);
            Err(m)
        },
        HeaderText::Invalid(e) => {
            let mut m = String::from_str("invalid ");
            m.append(label);
            m.append(" header '");
            m.append(key);
            m.append("'");
            m.append(" for ");
            m.append(child_service);
            m.append("::");
            m.append(child_method);
            m.append(": ");
            m.append(e);
            Err(m)
        },
        HeaderText::Text(s) => match parse_u64(s) {
            Some(v) => Ok(v),
            None => {
                let error = u64_parse_error_message(s);
                let mut m = String::from_str("invalid ");
                m.append(label);
                m.append(" header '");
                m.append(key);
                m.append("'");
                m.append(" value '");
                m.append(s);
                m.append("'");
                m.append(" for ");
                m.append(child_service);
                m.append("::");
                m.append(child_method);
                m.append(": ");
                m.append(error.as_str());
                Err(m)
            },
        },
    }
}

/// Reads the decimal oracle header `key` for a call to
/// `child_service`::`child_method`; see [`read_decimal_header`].
pub fn read_u64_header(
    value: HeaderText,
    key: &str,
    child_service: &str,
    child_method: &str,
) -> (r: Result<u64, String>)
    ensures
        decimal_header_result("oracle"@, value, key@, child_service@, child_method@, r),
{
    read_decimal_header("oracle", value, key, child_service, child_method)
}

} // verus!
