//! The per-request side of token-based admission: the inbound check, the
//! child-budget check, the recording of downstream prices and the price
//! attached to responses.
use vstd::prelude::*;

use super::draw::random_at_most;
use super::shared::{
    is_cached_child_price, max_child_price, rajomon_wf, total_price, wrap_add, Diagnostics,
    RajomonSharedState, RajomonView,
};
use super::RajomonParams;
use crate::context::Context;
use crate::registry::MethodId;
use crate::text::{early_return_message, early_return_text, parse_u64, parsed_u64};
use vstd::string::StringSliceAdditionalSpecFns;

verus! {

/// Header that carries a server's price on responses.
pub const PRICE_HEADER: &'static str = "x-masa-rajomon-price";

/// Reason of a request rejected at the inbound check.
pub const ADMISSION_REJECTION: &'static str = "RajomonAdmissionRej";

/// Reason of a request rejected at the child-budget check.
pub const CHILD_BUDGET_REJECTION: &'static str = "RajomonChildBudgetRej";

/// The abstract per-request state.
pub struct RajomonLayerView {
    pub rpc: u64,
    pub service: Seq<char>,
    pub method: Seq<char>,
    pub should_drop: bool,
    pub remaining_tokens: u64,
    pub inbound_tokens: u64,
}

/// Per-request admission state: whether the request is dropped, and the
/// token budget left for its child calls.
#[derive(Debug)]
pub struct RajomonLayer {
    rpc: MethodId,
    service: String,
    method: String,
    should_drop: bool,
    remaining_tokens: u64,
    inbound_tokens: u64,
}

impl View for RajomonLayer {
    type V = RajomonLayerView;

    closed spec fn view(&self) -> RajomonLayerView {
        RajomonLayerView {
            rpc: self.rpc.0,
            service: self.service@,
            method: self.method@,
            should_drop: self.should_drop,
            remaining_tokens: self.remaining_tokens,
            inbound_tokens: self.inbound_tokens,
        }
    }
}

/// The message of a request rejected at the inbound check.
pub open spec fn admission_rejection_text(l: RajomonLayerView) -> Seq<char> {
    early_return_text(l.service, l.method, None, Some(ADMISSION_REJECTION@))
}

/// Whether a response is chosen to carry the price, given the propagation
/// frequency and a uniform draw below it: never for 0, always for 1, and
/// when the draw is 0 otherwise.
pub open spec fn propagates(price_freq: u64, draw: u64) -> bool {
    if price_freq == 0 {
        false
    } else if price_freq == 1 {
        true
    } else {
        draw == 0
    }
}

/// Decides whether a response carries the price, given a uniform `draw`
/// in `0..price_freq` (ignored when `price_freq` is 0 or 1).
pub fn propagation_decision(price_freq: u64, draw: u64) -> (r: bool)
    ensures
        r == propagates(price_freq, draw),
{
    match price_freq {
        0 => false,
        1 => true,
        _ => draw == 0,
    }
}

impl RajomonLayer {
    /// Admits or drops a request to `rpc` that carries the tokens of `ctx`:
    /// it is dropped iff its tokens are below the total price of `rpc`.
    /// An admitted request keeps its tokens minus the own price as the
    /// budget for its child calls.
    pub fn new(
        rpc: MethodId,
        service: &str,
        method: &str,
        state: &mut RajomonSharedState,
        ctx: &Context,
    ) -> (l: RajomonLayer)
        requires
            rajomon_wf(old(state)@),
        ensures
            ({
                let s = old(state)@;
                let total = total_price(s.own_price, max_child_price(s.downstream, rpc.0));
                let tokens = ctx@.tokens;
                &&& l@.rpc == rpc.0
                &&& l@.service == service@
                &&& l@.method == method@
                &&& l@.inbound_tokens == tokens
                &&& l@.should_drop == (tokens < total)
                &&& l@.remaining_tokens == if tokens < total { 0 } else { (tokens - s.own_price) as u64 }
                &&& final(state)@ == (RajomonView {
                    diagnostics: if tokens < total {
                        Diagnostics {
                            rejected: wrap_add(s.diagnostics.rejected, 1),
                            token_deficit_sum: wrap_add(s.diagnostics.token_deficit_sum, (total - tokens) as u64),
                            ..s.diagnostics
                        }
                    } else {
                        Diagnostics { admitted: wrap_add(s.diagnostics.admitted, 1), ..s.diagnostics }
                    },
                    ..s
                })
            }),
    {
        let accumulated = state.accumulated_price(rpc);
        let own = state.own_price();
        let tokens = ctx.tokens();
        let mut layer = RajomonLayer {
            rpc,
            service: String::from_str(service),
            method: String::from_str(method),
            should_drop: false,
            remaining_tokens: 0,
            inbound_tokens: tokens,
        };
        if tokens < accumulated {
            layer.should_drop = true;
            state.record_inbound(false, accumulated - tokens);
        } else {
            layer.remaining_tokens = tokens - own;
            state.record_inbound(true, 0);
        }
        layer
    }

    /// Whether the request was dropped at the inbound check.
    pub fn should_drop(&self) -> (r: bool)
        ensures
            r == self@.should_drop,
    {
        self.should_drop
    }

    /// The token budget left for child calls.
    pub fn remaining_tokens(&self) -> (r: u64)
        ensures
            r == self@.remaining_tokens,
    {
        self.remaining_tokens
    }

    /// The tokens the request arrived with.
    pub fn inbound_tokens(&self) -> (r: u64)
        ensures
            r == self@.inbound_tokens,
    {
        self.inbound_tokens
    }

    fn admission_rejection(&self) -> (s: String)
        ensures
            s@ == admission_rejection_text(self@),
    {
        early_return_message(self.service.as_str(), self.method.as_str(), None, Some(ADMISSION_REJECTION))
    }

    /// Before a poll: records the task's queue latency for the price
    /// controller, and rejects a dropped request.
    pub fn before_poll(&self, state: &mut RajomonSharedState, queue_latency_us: u64) -> (r: Result<
        (),
        String,
    >)
        ensures
            final(state)@.queue_stats.window_max == if queue_latency_us
                > old(state)@.queue_stats.window_max {
                queue_latency_us
            } else {
                old(state)@.queue_stats.window_max
            },
            final(state)@.queue_stats.log_window_max == old(state)@.queue_stats.log_window_max,
            final(state)@.own_price == old(state)@.own_price,
            final(state)@.downstream == old(state)@.downstream,
            final(state)@.max_downstream == old(state)@.max_downstream,
            final(state)@.diagnostics == old(state)@.diagnostics,
            self@.should_drop ==> (r matches Err(msg) && msg@ == admission_rejection_text(self@)),
            !self@.should_drop ==> r is Ok,
    {
        state.observe_queue_latency(queue_latency_us);
        if self.should_drop {
            return Err(self.admission_rejection());
        }
        Ok(())
    }

    /// Before a child call to `child`: rejects a dropped request, and a
    /// call whose price exceeds the remaining budget. Otherwise returns the
    /// tokens to attach to the child call: the whole remaining budget.
    pub fn before_child_rpc(
        &self,
        state: &mut RajomonSharedState,
        child: MethodId,
        child_service: &str,
        child_method: &str,
    ) -> (r: Result<u64, String>)
        ensures
            self@.should_drop ==> (r matches Err(msg) && msg@ == admission_rejection_text(self@)
                && final(state)@ == old(state)@),
            !self@.should_drop ==> exists|price: u64|
                #[trigger] is_cached_child_price(old(state)@.downstream, child.0, price) && if self@.remaining_tokens < price {
                    &&& r matches Err(msg) && msg@ == early_return_text(
                        self@.service,
                        self@.method,
                        Some((child_service@, child_method@)),
                        Some(CHILD_BUDGET_REJECTION@),
                    )
                    &&& final(state)@ == (RajomonView {
                        diagnostics: Diagnostics {
                            child_budget_rej: wrap_add(old(state)@.diagnostics.child_budget_rej, 1),
                            ..old(state)@.diagnostics
                        },
                        ..old(state)@
                    })
                } else {
                    r == Ok::<u64, String>(self@.remaining_tokens) && final(state)@ == old(state)@
                },
    {
        if self.should_drop {
            return Err(self.admission_rejection());
        }
        let price = state.child_price(child);
        if self.remaining_tokens < price {
            state.record_child_budget_rejection();
            return Err(
                early_return_message(
                    self.service.as_str(),
                    self.method.as_str(),
                    Some((child_service, child_method)),
                    Some(CHILD_BUDGET_REJECTION),
                ),
            );
        }
        Ok(self.remaining_tokens)
    }

    /// After a poll: rejects a dropped request whose poll is still pending.
    pub fn after_poll(&self, pending: bool) -> (r: Result<(), String>)
        ensures
            pending && self@.should_drop ==> (r matches Err(msg) && msg@ == admission_rejection_text(
                self@,
            )),
            !(pending && self@.should_drop) ==> r is Ok,
    {
        if pending && self.should_drop {
            return Err(self.admission_rejection());
        }
        Ok(())
    }

    /// After a child call to `child` returned: caches the price it
    /// published in its price header, if the header holds a decimal number.
    pub fn after_child_rpc(
        &self,
        state: &mut RajomonSharedState,
        child: MethodId,
        price_header: Option<&str>,
    )
        requires
            rajomon_wf(old(state)@),
        ensures
            rajomon_wf(final(state)@),
            match price_header {
                Some(h) => match parsed_u64(h.spec_bytes()) {
                    Some(price) => {
                        &&& final(state)@.downstream == old(state)@.downstream.insert(
                            (self@.rpc, child.0),
                            price,
                        )
                        &&& final(state)@.max_downstream == old(state)@.max_downstream.insert(
                            self@.rpc,
                            max_child_price(final(state)@.downstream, self@.rpc),
                        )
                        &&& final(state)@.own_price == old(state)@.own_price
                        &&& final(state)@.queue_stats == old(state)@.queue_stats
                        &&& final(state)@.diagnostics == old(state)@.diagnostics
                    },
                    None => final(state)@ == old(state)@,
                },
                None => final(state)@ == old(state)@,
            },
    {
        if let Some(h) = price_header {
            if let Some(price) = parse_u64(h) {
                state.record_child_price(self.rpc, child, price);
            }
        }
    }

    /// The price to attach to the response, if `propagate` (the outcome of
    /// the propagation draw): the total price of the request's method.
    pub fn finalize(&self, state: &RajomonSharedState, propagate: bool) -> (r: Option<u64>)
        requires
            rajomon_wf(state@),
        ensures
            propagate ==> r == Some(
                total_price(state@.own_price, max_child_price(state@.downstream, self@.rpc)),
            ),
            !propagate ==> r == None::<u64>,
    {
        if !propagate {
            return None;
        }
        Some(state.accumulated_price(self.rpc))
    }

    /// Draws whether this response carries the price: never when
    /// `price_freq` is 0, always when it is 1, and with probability
    /// 1/`price_freq` otherwise.
    pub fn should_propagate_price(&self, params: &RajomonParams) -> (r: bool)
        ensures
            params.price_freq == 0 ==> !r,
            params.price_freq == 1 ==> r,
            params.price_freq > 1 ==> exists|draw: u64|
                draw < params.price_freq && r == propagates(params.price_freq, draw),
    {
        let n = params.price_freq;
        let draw = if n > 1 {
            random_at_most(n - 1)
        } else {
            0
        };
        propagation_decision(n, draw)
    }
}

} // verus!
