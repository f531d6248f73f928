//! The per-request context propagated along an RPC call tree.
use vstd::prelude::*;

use crate::priority::PriorityHint;

verus! {

/// Header key for the context.
pub const MASA_CONTEXT_HEADER: &'static str = "ctx";

/// Panic message for a request that carries no context header.
pub const MISSING_CONTEXT_HEADER_MESSAGE: &'static str = "missing MASA context header `ctx`; MASA-enabled services require clients to attach context via MASA context helpers";

/// Text that follows the header-specific part of every invalid-header message.
pub const CONTEXT_HELPERS_HINT: &'static str = "; MASA-enabled services require clients to attach context via MASA context helpers: ";

/// The start of every invalid-header message, up to the header's name.
pub const INVALID_CONTEXT_HEADER_PREFIX: &'static str = "invalid MASA context header `";

/// The full text of an invalid-header message: the prefix, the header name,
/// the reason, the hint, then the underlying error.
pub open spec fn invalid_header_message(reason: Seq<char>, error: Seq<char>) -> Seq<char> {
    INVALID_CONTEXT_HEADER_PREFIX@ + MASA_CONTEXT_HEADER@ + reason + CONTEXT_HELPERS_HINT@ + error
}

fn invalid_header_message_with(reason: &str, error: &str) -> (s: String)
    ensures
        s@ == invalid_header_message(reason@, error@),
{
    let mut s = String::from_str(INVALID_CONTEXT_HEADER_PREFIX);
    s.append(MASA_CONTEXT_HEADER);
    s.append(reason);
    s.append(CONTEXT_HELPERS_HINT);
    s.append(error);
    s
}

/// Reason text for a header that is not valid ASCII metadata.
pub const METADATA_REASON: &'static str = "`: invalid ASCII/metadata";

/// Reason text for a header that is not valid base64.
pub const BASE64_REASON: &'static str = "`: invalid base64";

/// Reason text for a header whose payload does not decode.
pub const BINCODE_REASON: &'static str = "`: invalid bincode payload";

/// Panic message for a context header that is not valid ASCII metadata.
pub fn invalid_context_header_metadata_message(error: &str) -> (s: String)
    ensures
        s@ == invalid_header_message(METADATA_REASON@, error@),
{
    invalid_header_message_with(METADATA_REASON, error)
}

/// Panic message for a context header that is not valid base64.
pub fn invalid_context_header_base64_message(error: &str) -> (s: String)
    ensures
        s@ == invalid_header_message(BASE64_REASON@, error@),
{
    invalid_header_message_with(BASE64_REASON, error)
}

/// Panic message for a context header whose payload does not decode.
pub fn invalid_context_header_bincode_message(error: &str) -> (s: String)
    ensures
        s@ == invalid_header_message(BINCODE_REASON@, error@),
{
    invalid_header_message_with(BINCODE_REASON, error)
}

/// A span of a request's future execution, with its duration.
#[derive(Debug, Clone, Copy, PartialEq, Eq, Structural)]
pub enum FutureSpan {
    Compute(u64),
    LocalBlock(u64),
    ChildBlock(u64),
    Queueing(u64),
}

/// Core request lifecycle data.
#[derive(Debug)]
pub struct RequestContext {
    pub api: String,
    pub request_id: u64,
    pub slo: u64,
    pub gateway_entry: u64,
    pub deadline: u64,
    pub prio_hint: PriorityHint,
    pub frontend_elapse: Option<u64>,
}

/// Queue-latency telemetry.
#[derive(Debug)]
pub struct QueueLatencies {
    pub initial: u64,
    pub resume: u64,
    /// Queue length at each service when the request's task was first polled.
    pub queue_lengths: Vec<(String, u64)>,
}

/// The abstract content of queue-latency telemetry.
pub struct QueueLatenciesView {
    pub initial: u64,
    pub resume: u64,
    pub queue_lengths: Seq<(Seq<char>, u64)>,
}

/// A queue length entry by its service name's characters.
pub open spec fn queue_length_view(e: (String, u64)) -> (Seq<char>, u64) {
    (e.0@, e.1)
}

impl View for QueueLatencies {
    type V = QueueLatenciesView;

    open spec fn view(&self) -> QueueLatenciesView {
        QueueLatenciesView {
            initial: self.initial,
            resume: self.resume,
            queue_lengths: self.queue_lengths@.map_values(|e: (String, u64)| queue_length_view(e)),
        }
    }
}

/// The content of optional queue-latency telemetry.
pub open spec fn queue_latencies_view(q: Option<QueueLatencies>) -> Option<QueueLatenciesView> {
    match q {
        Some(l) => Some(l@),
        None => None,
    }
}

/// Queue telemetry carried by the context.
#[derive(Debug)]
pub struct QueueContext {
    pub latencies: Option<QueueLatencies>,
}

/// Response metadata reported by estimation.
#[derive(Debug, Clone, Copy, PartialEq, Eq, Structural)]
pub struct ResponseMeta {
    pub compute_time_us: u64,
    pub accumulated_compute_us: u64,
    /// Number of early returns in the subtree (this hop and all children).
    pub early_return_count: u32,
    /// Whether any hop in the subtree tripped its local deadline (0 or 1).
    pub deadline_signal_count: u32,
}

/// Identifies the root (ingress) RPC method.
#[derive(Debug)]
pub struct RootMethod {
    pub service: String,
    pub method: String,
}

/// Estimation data carried by the context.
#[derive(Debug)]
pub struct EstimatorContext {
    pub response: Option<ResponseMeta>,
    pub hop_count: u8,
    pub root_method: Option<RootMethod>,
}

/// Token-based admission state carried by the context.
#[derive(Debug, Clone, Copy, PartialEq, Eq, Structural)]
pub struct RajomonContext {
    pub tokens: u64,
}

/// The token budget a request starts with.
pub const DEFAULT_TOKENS: u64 = 100;

impl Default for RajomonContext {
    /// A context with the default budget of 100 tokens.
    fn default() -> (r: Self)
        ensures
            r.tokens == DEFAULT_TOKENS,
    {
        RajomonContext { tokens: DEFAULT_TOKENS }
    }
}

/// How a context's priority hint is derived when none is given.
#[derive(Debug, Clone, Copy, PartialEq, Eq, Structural)]
pub enum PriorityPolicy {
    /// The hint is the deadline.
    Deadline,
    /// The hint is the gateway entry time.
    GatewayEntry,
    /// The hint is the time left until the deadline at `now`.
    TimeLeft { now: u64 },
}

/// The priority hint of a context built without an explicit hint.
pub open spec fn default_prio_value(policy: PriorityPolicy, gateway_entry: u64, deadline: u64) -> u64 {
    match policy {
        PriorityPolicy::Deadline => deadline,
        PriorityPolicy::GatewayEntry => gateway_entry,
        PriorityPolicy::TimeLeft { now } => if deadline >= now { (deadline - now) as u64 } else { 0 },
    }
}

/// The context of a request.
#[derive(Debug)]
pub struct Context {
    request: RequestContext,
    queue: QueueContext,
    estimator: EstimatorContext,
    rajomon: RajomonContext,
}

/// Builder for a [`Context`].
#[derive(Debug)]
pub struct ContextBuilder {
    api: String,
    request_id: u64,
    slo: u64,
    gateway_entry: u64,
    deadline: u64,
    prio_hint: Option<PriorityHint>,
    frontend_elapse: Option<u64>,
    queue_latencies: Option<QueueLatencies>,
    response: Option<ResponseMeta>,
    hop_count: u8,
    root_method: Option<RootMethod>,
    tokens: u64,
}

/// The abstract content of a builder.
pub struct BuilderView {
    pub api: Seq<char>,
    pub request_id: u64,
    pub slo: u64,
    pub gateway_entry: u64,
    pub deadline: u64,
    pub prio_hint: Option<u64>,
    pub frontend_elapse: Option<u64>,
    pub queue_latencies: Option<QueueLatenciesView>,
    pub response: Option<ResponseMeta>,
    pub hop_count: u8,
    pub has_root_method: bool,
    pub tokens: u64,
}

/// The abstract content of a context.
pub struct ContextView {
    pub api: Seq<char>,
    pub request_id: u64,
    pub slo: u64,
    pub gateway_entry: u64,
    pub deadline: u64,
    pub prio_hint: u64,
    pub frontend_elapse: Option<u64>,
    pub queue_latencies: Option<QueueLatenciesView>,
    pub response: Option<ResponseMeta>,
    pub hop_count: u8,
    pub root_method: Option<(Seq<char>, Seq<char>)>,
    pub tokens: u64,
}

impl View for ContextBuilder {
    type V = BuilderView;

    closed spec fn view(&self) -> BuilderView {
        BuilderView {
            api: self.api@,
            request_id: self.request_id,
            slo: self.slo,
            gateway_entry: self.gateway_entry,
            deadline: self.deadline,
            prio_hint: match self.prio_hint {
                Some(h) => Some(h@),
                None => None,
            },
            frontend_elapse: self.frontend_elapse,
            queue_latencies: queue_latencies_view(self.queue_latencies),
            response: self.response,
            hop_count: self.hop_count,
            has_root_method: self.root_method is Some,
            tokens: self.tokens,
        }
    }
}

/// The root method's (service, method) names, if any.
pub open spec fn root_names(r: Option<RootMethod>) -> Option<(Seq<char>, Seq<char>)> {
    match r {
        Some(m) => Some((m.service@, m.method@)),
        None => None,
    }
}

impl View for Context {
    type V = ContextView;

    closed spec fn view(&self) -> ContextView {
        ContextView {
            api: self.request.api@,
            request_id: self.request.request_id,
            slo: self.request.slo,
            gateway_entry: self.request.gateway_entry,
            deadline: self.request.deadline,
            prio_hint: self.request.prio_hint@,
            frontend_elapse: self.request.frontend_elapse,
            queue_latencies: queue_latencies_view(self.queue.latencies),
            response: self.estimator.response,
            hop_count: self.estimator.hop_count,
            root_method: root_names(self.estimator.root_method),
            tokens: self.rajomon.tokens,
        }
    }
}

fn clone_root_method(r: &Option<RootMethod>) -> (c: Option<RootMethod>)
    ensures
        root_names(c) == root_names(*r),
{
    match r {
        Some(m) => Some(RootMethod { service: m.service.clone(), method: m.method.clone() }),
        None => None,
    }
}

fn clone_queue_latencies(q: &QueueLatencies) -> (c: QueueLatencies)
    ensures
        c@ == q@,
{
    let mut lengths: Vec<(String, u64)> = Vec::new();
    let mut i: usize = 0;
    while i < q.queue_lengths.len()
        invariant
            0 <= i <= q.queue_lengths@.len(),
            lengths@.len() == i,
            forall|j: int| 0 <= j < i ==> lengths@[j] == q.queue_lengths@[j],
        decreases q.queue_lengths@.len() - i,
    {
        let (name, len) = &q.queue_lengths[i];
        lengths.push((name.clone(), *len));
        i = i + 1;
    }
    assert(lengths@ =~= q.queue_lengths@);
    QueueLatencies { initial: q.initial, resume: q.resume, queue_lengths: lengths }
}

impl ContextBuilder {
    /// A builder for request `request_id` of `api`, with all timing fields 0,
    /// no priority hint and the default token budget.
    pub fn new(api: &str, request_id: u64) -> (b: ContextBuilder)
        ensures
            b@ == (BuilderView {
                api: api@,
                request_id,
                slo: 0,
                gateway_entry: 0,
                deadline: 0,
                prio_hint: None,
                frontend_elapse: None,
                queue_latencies: None,
                response: None,
                hop_count: 0,
                has_root_method: false,
                tokens: DEFAULT_TOKENS,
            }),
            b.root_method_spec() is None,
    {
        ContextBuilder {
            api: String::from_str(api),
            request_id,
            slo: 0,
            gateway_entry: 0,
            deadline: 0,
            prio_hint: None,
            frontend_elapse: None,
            queue_latencies: None,
            response: None,
            hop_count: 0,
            root_method: None,
            tokens: RajomonContext::default().tokens,
        }
    }

    /// A builder that carries every field of `ctx`, its hint included.
    pub fn from(ctx: &Context) -> (b: ContextBuilder)
        ensures
            b@ == (BuilderView {
                api: ctx@.api,
                request_id: ctx@.request_id,
                slo: ctx@.slo,
                gateway_entry: ctx@.gateway_entry,
                deadline: ctx@.deadline,
                prio_hint: Some(ctx@.prio_hint),
                frontend_elapse: ctx@.frontend_elapse,
                queue_latencies: ctx@.queue_latencies,
                response: ctx@.response,
                hop_count: ctx@.hop_count,
                has_root_method: ctx@.root_method is Some,
                tokens: ctx@.tokens,
            }),
            root_names(b.root_method_spec()) == ctx@.root_method,
    {
        let queue_latencies = match &ctx.queue.latencies {
            Some(q) => Some(clone_queue_latencies(q)),
            None => None,
        };
        ContextBuilder {
            api: ctx.request.api.clone(),
            request_id: ctx.request.request_id,
            slo: ctx.request.slo,
            gateway_entry: ctx.request.gateway_entry,
            deadline: ctx.request.deadline,
            prio_hint: Some(ctx.request.prio_hint),
            frontend_elapse: ctx.request.frontend_elapse,
            queue_latencies,
            response: ctx.estimator.response,
            hop_count: ctx.estimator.hop_count,
            root_method: clone_root_method(&ctx.estimator.root_method),
            tokens: ctx.rajomon.tokens,
        }
    }

    /// The root method held by the builder.
    pub closed spec fn root_method_spec(&self) -> Option<RootMethod> {
        self.root_method
    }

    /// Sets the SLO.
    pub fn slo(self, slo: u64) -> (b: ContextBuilder)
        ensures
            b@ == (BuilderView { slo, ..self@ }),
            b.root_method_spec() == self.root_method_spec(),
    {
        ContextBuilder { slo, ..self }
    }

    /// Sets the gateway entry time.
    pub fn gateway_entry(self, gateway_entry: u64) -> (b: ContextBuilder)
        ensures
            b@ == (BuilderView { gateway_entry, ..self@ }),
            b.root_method_spec() == self.root_method_spec(),
    {
        ContextBuilder { gateway_entry, ..self }
    }

    /// Sets the deadline.
    pub fn deadline(self, deadline: u64) -> (b: ContextBuilder)
        ensures
            b@ == (BuilderView { deadline, ..self@ }),
            b.root_method_spec() == self.root_method_spec(),
    {
        ContextBuilder { deadline, ..self }
    }

    /// Sets the priority hint.
    pub fn prio_hint(self, prio_hint: PriorityHint) -> (b: ContextBuilder)
        ensures
            b@ == (BuilderView { prio_hint: Some(prio_hint@), ..self@ }),
            b.root_method_spec() == self.root_method_spec(),
    {
        ContextBuilder { prio_hint: Some(prio_hint), ..self }
    }

    /// Sets the frontend elapse time.
    pub fn frontend_elapse(self, elapse: u64) -> (b: ContextBuilder)
        ensures
            b@ == (BuilderView { frontend_elapse: Some(elapse), ..self@ }),
            b.root_method_spec() == self.root_method_spec(),
    {
        ContextBuilder { frontend_elapse: Some(elapse), ..self }
    }

    /// Sets the queue latency telemetry.
    pub fn queue_latencies(self, queue_latencies: QueueLatencies) -> (b: ContextBuilder)
        ensures
            b@ == (BuilderView { queue_latencies: Some(queue_latencies@), ..self@ }),
            b.root_method_spec() == self.root_method_spec(),
    {
        ContextBuilder { queue_latencies: Some(queue_latencies), ..self }
    }

    /// Sets the response metadata.
    pub fn response_meta(self, meta: ResponseMeta) -> (b: ContextBuilder)
        ensures
            b@ == (BuilderView { response: Some(meta), ..self@ }),
            b.root_method_spec() == self.root_method_spec(),
    {
        ContextBuilder { response: Some(meta), ..self }
    }

    /// Sets the hop count.
    pub fn hop_count(self, hop_count: u8) -> (b: ContextBuilder)
        ensures
            b@ == (BuilderView { hop_count, ..self@ }),
            b.root_method_spec() == self.root_method_spec(),
    {
        ContextBuilder { hop_count, ..self }
    }

    /// Sets the token budget.
    pub fn tokens(self, tokens: u64) -> (b: ContextBuilder)
        ensures
            b@ == (BuilderView { tokens, ..self@ }),
            b.root_method_spec() == self.root_method_spec(),
    {
        ContextBuilder { tokens, ..self }
    }

    /// Sets the root method.
    pub fn root_method(self, root_method: RootMethod) -> (b: ContextBuilder)
        ensures
            b@ == (BuilderView { has_root_method: true, ..self@ }),
            b.root_method_spec() == Some(root_method),
    {
        ContextBuilder { root_method: Some(root_method), ..self }
    }

    /// Builds the context. Without an explicit hint, the hint is the deadline.
    pub fn build(self) -> (c: Context)
        ensures
            c@ == built_view(self@, PriorityPolicy::Deadline, root_names(self.root_method_spec())),
            self@.prio_hint matches Some(h) ==> c@.prio_hint == h,
            self@.prio_hint is None ==> c@.prio_hint == self@.deadline,
    {
        self.build_with(PriorityPolicy::Deadline)
    }

    /// Builds the context, deriving a missing hint by `policy`.
    pub fn build_with(self, policy: PriorityPolicy) -> (c: Context)
        ensures
            c@ == built_view(self@, policy, root_names(self.root_method_spec())),
            self@.prio_hint matches Some(h) ==> c@.prio_hint == h,
            self@.prio_hint is None && policy == PriorityPolicy::Deadline ==> c@.prio_hint == self@.deadline,
            self@.prio_hint is None && policy == PriorityPolicy::GatewayEntry ==> c@.prio_hint
                == self@.gateway_entry,
            policy matches PriorityPolicy::TimeLeft { now } ==> (self@.prio_hint is None ==> if now
                <= self@.deadline {
                c@.prio_hint + now == self@.deadline
            } else {
                c@.prio_hint == 0
            }),
            c@.gateway_entry == self@.gateway_entry,
            c@.deadline == self@.deadline,
    {
        let prio_hint = match self.prio_hint {
            Some(h) => h,
            None => match policy {
                PriorityPolicy::Deadline => PriorityHint::new(self.deadline),
                PriorityPolicy::GatewayEntry => PriorityHint::new(self.gateway_entry),
                PriorityPolicy::TimeLeft { now } => PriorityHint::new(self.deadline.saturating_sub(now)),
            },
        };
        Context {
            request: RequestContext {
                api: self.api,
                request_id: self.request_id,
                slo: self.slo,
                gateway_entry: self.gateway_entry,
                deadline: self.deadline,
                prio_hint,
                frontend_elapse: self.frontend_elapse,
            },
            queue: QueueContext { latencies: self.queue_latencies },
            estimator: EstimatorContext {
                response: self.response,
                hop_count: self.hop_count,
                root_method: self.root_method,
            },
            rajomon: RajomonContext { tokens: self.tokens },
        }
    }
}

/// Law: the priority hint of a built context. An explicit hint is kept
/// under every policy. Without one, the hint is the deadline under the
/// deadline policy, the gateway entry time under the gateway-entry policy,
/// and under the time-left policy at `now` the time that, added to `now`,
/// reaches the deadline (0 once the deadline has passed).
pub proof fn law_built_priority_hint(
    b: BuilderView,
    policy: PriorityPolicy,
    root: Option<(Seq<char>, Seq<char>)>,
)
    ensures
        b.prio_hint matches Some(h) ==> built_view(b, policy, root).prio_hint == h,
        b.prio_hint is None && policy == PriorityPolicy::Deadline ==> built_view(b, policy, root).prio_hint
            == b.deadline,
        b.prio_hint is None && policy == PriorityPolicy::GatewayEntry ==> built_view(b, policy, root).prio_hint
            == b.gateway_entry,
        policy matches PriorityPolicy::TimeLeft { now } ==> (b.prio_hint is None ==> if now <= b.deadline {
            built_view(b, policy, root).prio_hint + now == b.deadline
        } else {
            built_view(b, policy, root).prio_hint == 0
        }),
        built_view(b, policy, root).gateway_entry == b.gateway_entry,
        built_view(b, policy, root).deadline == b.deadline,
{
}

/// The context that a builder with content `b` builds.
pub open spec fn built_view(b: BuilderView, policy: PriorityPolicy, root: Option<(Seq<char>, Seq<char>)>) -> ContextView {
    ContextView {
        api: b.api,
        request_id: b.request_id,
        slo: b.slo,
        gateway_entry: b.gateway_entry,
        deadline: b.deadline,
        prio_hint: match b.prio_hint {
            Some(h) => h,
            None => default_prio_value(policy, b.gateway_entry, b.deadline),
        },
        frontend_elapse: b.frontend_elapse,
        queue_latencies: b.queue_latencies,
        response: b.response,
        hop_count: b.hop_count,
        root_method: root,
        tokens: b.tokens,
    }
}

impl Context {
    /// The API.
    pub fn api(&self) -> (r: &String)
        ensures
            r@ == self@.api,
    {
        &self.request.api
    }

    /// The request id.
    pub fn request_id(&self) -> (r: u64)
        ensures
            r == self@.request_id,
    {
        self.request.request_id
    }

    /// The SLO.
    pub fn slo(&self) -> (r: u64)
        ensures
            r == self@.slo,
    {
        self.request.slo
    }

    /// The gateway entry timestamp.
    pub fn gateway_entry(&self) -> (r: u64)
        ensures
            r == self@.gateway_entry,
    {
        self.request.gateway_entry
    }

    /// The (per-hop) deadline.
    pub fn deadline(&self) -> (r: u64)
        ensures
            r == self@.deadline,
    {
        self.request.deadline
    }

    /// The end-to-end deadline: gateway entry plus SLO.
    pub fn e2e_deadline(&self) -> (r: u64)
        requires
            self@.gateway_entry + self@.slo <= u64::MAX,
        ensures
            r == self@.gateway_entry + self@.slo,
    {
        self.request.gateway_entry + self.request.slo
    }

    /// The token budget.
    pub fn tokens(&self) -> (r: u64)
        ensures
            r == self@.tokens,
    {
        self.rajomon.tokens
    }

    /// Consumes `amount` tokens. Returns false, consuming nothing, when the
    /// budget is insufficient.
    pub fn consume_tokens(&mut self, amount: u64) -> (ok: bool)
        ensures
            ok == (old(self)@.tokens >= amount),
            final(self)@ == (ContextView {
                tokens: if ok { (old(self)@.tokens - amount) as u64 } else { old(self)@.tokens },
                ..old(self)@
            }),
    {
        if self.rajomon.tokens >= amount {
            self.rajomon.tokens = self.rajomon.tokens - amount;
            true
        } else {
            false
        }
    }

    /// The priority hint.
    pub fn prio_hint(&self) -> (r: PriorityHint)
        ensures
            r@ == self@.prio_hint,
    {
        self.request.prio_hint
    }

    /// The frontend elapse time.
    pub fn frontend_elapse(&self) -> (r: Option<u64>)
        ensures
            r == self@.frontend_elapse,
    {
        self.request.frontend_elapse
    }

    /// Sets the frontend elapse time.
    pub fn set_frontend_elapse(&mut self, elapse: u64)
        ensures
            final(self)@ == (ContextView { frontend_elapse: Some(elapse), ..old(self)@ }),
    {
        self.request.frontend_elapse = Some(elapse);
    }

    /// The request lifecycle data.
    pub fn request(&self) -> (r: &RequestContext)
        ensures
            r.api@ == self@.api,
            r.request_id == self@.request_id,
            r.slo == self@.slo,
            r.gateway_entry == self@.gateway_entry,
            r.deadline == self@.deadline,
            r.prio_hint@ == self@.prio_hint,
            r.frontend_elapse == self@.frontend_elapse,
    {
        &self.request
    }

    /// The queue latency telemetry.
    pub fn queue_latencies(&self) -> (r: Option<&QueueLatencies>)
        ensures
            match r {
                Some(q) => self@.queue_latencies == Some(q@),
                None => self@.queue_latencies is None,
            },
    {
        match &self.queue.latencies {
            Some(q) => Some(q),
            None => None,
        }
    }

    /// Sets the queue latency telemetry.
    pub fn set_queue_latencies(&mut self, queue_latencies: QueueLatencies)
        ensures
            final(self)@ == (ContextView { queue_latencies: Some(queue_latencies@), ..old(self)@ }),
    {
        self.queue.latencies = Some(queue_latencies);
    }

    /// The response metadata.
    pub fn response_meta(&self) -> (r: Option<ResponseMeta>)
        ensures
            r == self@.response,
    {
        self.estimator.response
    }

    /// Sets the response metadata.
    pub fn set_response_meta(&mut self, meta: ResponseMeta)
        ensures
            final(self)@ == (ContextView { response: Some(meta), ..old(self)@ }),
    {
        self.estimator.response = Some(meta);
    }

    /// The hop count (0 at ingress).
    pub fn hop_count(&self) -> (r: u8)
        ensures
            r == self@.hop_count,
    {
        self.estimator.hop_count
    }

    /// The root method set at ingress.
    pub fn root_method(&self) -> (r: Option<&RootMethod>)
        ensures
            root_names(match r { Some(m) => Some(*m), None => None }) == self@.root_method,
    {
        match &self.estimator.root_method {
            Some(m) => Some(m),
            None => None,
        }
    }

    /// Sets the root method.
    pub fn set_root_method(&mut self, root_method: RootMethod)
        ensures
            final(self)@ == (ContextView {
                root_method: Some((root_method.service@, root_method.method@)),
                ..old(self)@
            }),
    {
        self.estimator.root_method = Some(root_method);
    }
}

impl Default for Context {
    /// The context of request 0 of the empty API, built with defaults.
    fn default() -> (c: Self)
        ensures
            c@ == (ContextView {
                api: Seq::empty(),
                request_id: 0,
                slo: 0,
                gateway_entry: 0,
                deadline: 0,
                prio_hint: 0,
                frontend_elapse: None,
                queue_latencies: None,
                response: None,
                hop_count: 0,
                root_method: None,
                tokens: DEFAULT_TOKENS,
            }),
    {
        let b = ContextBuilder::new("", 0);
        proof {
            reveal_strlit("");
            assert(b@.api =~= Seq::<char>::empty());
        }
        b.build()
    }
}

} // verus!
