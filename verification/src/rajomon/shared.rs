//! Server-side pricing state: the own price, the cached downstream prices and
//! the largest downstream price of each parent method.
use dashmap::DashMap;
use vstd::prelude::*;

use super::tables::{
    id_table, id_table_entries, id_table_get, id_table_insert, id_table_new, lists_entries,
    lists_id_entries, pair_table, pair_table_entries, pair_table_insert, pair_table_new,
};
use super::RajomonParams;
use crate::registry::MethodId;

verus! {

/// Queue statistics for the current time window.
#[derive(Debug, Clone, Copy, PartialEq, Eq, Structural)]
pub struct QueueStats {
    /// Maximum per-request queue latency (us) observed since the last tick,
    /// halved at each tick.
    pub window_max: u64,
    /// Maximum `window_max` read by a tick since the last reset.
    pub log_window_max: u64,
}

impl QueueStats {
    /// Empty statistics.
    pub fn new() -> (q: QueueStats)
        ensures
            q == (QueueStats { window_max: 0, log_window_max: 0 }),
    {
        QueueStats { window_max: 0, log_window_max: 0 }
    }

    /// Records one observed queue latency.
    pub fn observe(&mut self, queue_latency_us: u64)
        ensures
            final(self).window_max == if queue_latency_us > old(self).window_max {
                queue_latency_us
            } else {
                old(self).window_max
            },
            final(self).log_window_max == old(self).log_window_max,
    {
        if queue_latency_us > self.window_max {
            self.window_max = queue_latency_us;
        }
    }

    /// Reads the window maximum for a price tick and halves it, so that the
    /// signal decays rather than vanishing between observations.
    pub fn take_for_tick(&mut self) -> (max_us: u64)
        ensures
            max_us == old(self).window_max,
            final(self).window_max == old(self).window_max / 2,
            final(self).log_window_max == if old(self).window_max > old(self).log_window_max {
                old(self).window_max
            } else {
                old(self).log_window_max
            },
    {
        let max_us = self.window_max;
        self.window_max = max_us / 2;
        if max_us > self.log_window_max {
            self.log_window_max = max_us;
        }
        max_us
    }

    /// Returns the logged maximum and resets it.
    pub fn take_log_window_max(&mut self) -> (peak: u64)
        ensures
            peak == old(self).log_window_max,
            *final(self) == (QueueStats { window_max: old(self).window_max, log_window_max: 0 }),
    {
        let peak = self.log_window_max;
        self.log_window_max = 0;
        peak
    }
}

/// Counters of admission and price-controller decisions since the last
/// report. They count modulo 2^64.
#[derive(Debug, Clone, Copy, PartialEq, Eq, Structural)]
pub struct Diagnostics {
    /// Requests admitted at the inbound check.
    pub admitted: u64,
    /// Requests rejected at the inbound check.
    pub rejected: u64,
    /// Requests rejected at the child-budget check.
    pub child_budget_rej: u64,
    /// Price ticks where the price increased.
    pub price_up_ticks: u64,
    /// Price ticks where the price decreased.
    pub price_down_ticks: u64,
    /// Price ticks where the price held.
    pub price_hold_ticks: u64,
    /// Sum of (total price - inbound tokens) over rejected requests.
    pub token_deficit_sum: u64,
}

/// All counters at zero.
pub open spec fn zero_diagnostics() -> Diagnostics {
    Diagnostics {
        admitted: 0,
        rejected: 0,
        child_budget_rej: 0,
        price_up_ticks: 0,
        price_down_ticks: 0,
        price_hold_ticks: 0,
        token_deficit_sum: 0,
    }
}

/// `a + b` modulo 2^64.
pub open spec fn wrap_add(a: u64, b: u64) -> u64 {
    vstd::wrapping::u64_specs::wrapping_add(a, b)
}

/// A report of the diagnostic counters, with the mean token deficit of the
/// rejected requests (0 when none was rejected).
#[derive(Debug, Clone, Copy, PartialEq, Eq, Structural)]
pub struct DiagnosticsReport {
    pub counters: Diagnostics,
    pub mean_token_deficit: u64,
}

/// The price increment for a queueing delay of `max_us`:
/// `excess_us * step_up / 1000`, at least 1.
pub open spec fn price_increment(max_us: u64, threshold_us: u64, step_up: u64) -> int {
    let inc = ((max_us - threshold_us) * step_up) / 1000;
    if inc >= 1 { inc } else { 1 }
}

/// The price after one tick that read a window maximum of `max_us`:
/// proportional increase above the threshold (saturating), decrease by one
/// below half the threshold, hold in between.
pub open spec fn price_after_tick(own: u64, max_us: u64, p: RajomonParams) -> u64 {
    if max_us > p.latency_threshold_us {
        let sum = own + price_increment(max_us, p.latency_threshold_us, p.price_step_up);
        if sum > u64::MAX { u64::MAX } else { sum as u64 }
    } else if own > 0 && max_us < p.latency_threshold_us / 2 {
        (own - 1) as u64
    } else {
        own
    }
}

/// Whether a tick that reads a window maximum of `max_us` computes its
/// increment within `u64`.
pub open spec fn tick_fits(max_us: u64, p: RajomonParams) -> bool {
    max_us > p.latency_threshold_us ==> (max_us - p.latency_threshold_us) * p.price_step_up
        <= u64::MAX
}

/// Whether `ds` caches a price for some child of `parent`.
pub open spec fn has_child(ds: Map<(u64, u64), u64>, parent: u64) -> bool {
    exists|k: (u64, u64)| #[trigger] ds.dom().contains(k) && k.0 == parent
}

/// `v` is the largest price cached for a child of `parent`, or 0 if none is.
pub open spec fn is_max_child_price(ds: Map<(u64, u64), u64>, parent: u64, v: u64) -> bool {
    &&& forall|k: (u64, u64)| #[trigger] ds.dom().contains(k) && k.0 == parent ==> ds[k] <= v
    &&& has_child(ds, parent) ==> exists|k: (u64, u64)|
        #[trigger] ds.dom().contains(k) && k.0 == parent && ds[k] == v
    &&& !has_child(ds, parent) ==> v == 0
}

/// The largest price cached for a child of `parent` (0 if none).
pub open spec fn max_child_price(ds: Map<(u64, u64), u64>, parent: u64) -> u64 {
    choose|v: u64| is_max_child_price(ds, parent, v)
}

/// Whether `p` is a price cached for `child` under some parent, or 0 when
/// no price is cached for `child`.
pub open spec fn is_cached_child_price(ds: Map<(u64, u64), u64>, child: u64, p: u64) -> bool {
    if exists|k: (u64, u64)| #[trigger] ds.dom().contains(k) && k.1 == child {
        exists|k: (u64, u64)| #[trigger] ds.dom().contains(k) && k.1 == child && ds[k] == p
    } else {
        p == 0
    }
}

/// `own + downstream`, saturating.
pub open spec fn total_price(own: u64, downstream: u64) -> u64 {
    if own + downstream > u64::MAX { u64::MAX } else { (own + downstream) as u64 }
}

/// Every cached price halved.
pub open spec fn halved(ds: Map<(u64, u64), u64>) -> Map<(u64, u64), u64> {
    Map::new(|k: (u64, u64)| ds.dom().contains(k), |k: (u64, u64)| (ds[k] / 2) as u64)
}

/// The maximum of the parent methods is determined by the cached prices.
pub proof fn lemma_max_child_price_is(ds: Map<(u64, u64), u64>, parent: u64, v: u64)
    requires
        is_max_child_price(ds, parent, v),
    ensures
        max_child_price(ds, parent) == v,
{
    let w = max_child_price(ds, parent);
    assert(is_max_child_price(ds, parent, w));
    if has_child(ds, parent) {
        let kv = choose|k: (u64, u64)| #[trigger] ds.dom().contains(k) && k.0 == parent && ds[k] == v;
        let kw = choose|k: (u64, u64)| #[trigger] ds.dom().contains(k) && k.0 == parent && ds[k] == w;
        assert(ds[kv] <= w);
        assert(ds[kw] <= v);
    }
}

/// The abstract pricing state.
pub struct RajomonView {
    pub own_price: u64,
    /// Cached price per (parent id, child id).
    pub downstream: Map<(u64, u64), u64>,
    /// Largest cached child price per parent id.
    pub max_downstream: Map<u64, u64>,
    pub queue_stats: QueueStats,
    pub diagnostics: Diagnostics,
}

/// The pricing state is well formed: every parent with a cached child price
/// has a recorded maximum, and every recorded maximum is the largest price
/// cached for the parent's children.
pub open spec fn rajomon_wf(v: RajomonView) -> bool {
    &&& forall|k: (u64, u64)| #[trigger] v.downstream.dom().contains(k) ==> v.max_downstream.dom().contains(k.0)
    &&& forall|p: u64| #[trigger] v.max_downstream.dom().contains(p) ==> is_max_child_price(
        v.downstream,
        p,
        v.max_downstream[p],
    )
}

/// Server-side pricing state: one global own price, the cached prices of
/// downstream services, and the largest downstream price per parent method.
#[derive(Debug)]
pub struct RajomonSharedState {
    /// The server's own price, set by the price controller.
    pub own_price: u64,
    downstream_prices: DashMap<(u64, u64), u64>,
    max_downstream_for_method: DashMap<u64, u64>,
    /// The queueing-delay signal read by the price controller.
    pub queue_stats: QueueStats,
    diagnostics: Diagnostics,
}

impl View for RajomonSharedState {
    type V = RajomonView;

    closed spec fn view(&self) -> RajomonView {
        RajomonView {
            own_price: self.own_price,
            downstream: pair_table(self.downstream_prices),
            max_downstream: id_table(self.max_downstream_for_method),
            queue_stats: self.queue_stats,
            diagnostics: self.diagnostics,
        }
    }
}

/// The largest price among the entries of `es` whose key has `parent` as
/// its first component (0 if none has).
fn max_price_among(es: &Vec<((u64, u64), u64)>, parent: u64) -> (m: u64)
    ensures
        forall|i: int| 0 <= i < es.len() && (#[trigger] es[i]).0.0 == parent ==> es[i].1 <= m,
        (exists|i: int| 0 <= i < es.len() && (#[trigger] es[i]).0.0 == parent && es[i].1 == m)
            || (m == 0 && forall|i: int| 0 <= i < es.len() ==> (#[trigger] es[i]).0.0 != parent),
{
    let mut m: u64 = 0;
    let mut i: usize = 0;
    while i < es.len()
        invariant
            0 <= i <= es.len(),
            forall|j: int| 0 <= j < i && (#[trigger] es[j]).0.0 == parent ==> es[j].1 <= m,
            (exists|j: int| 0 <= j < i && (#[trigger] es[j]).0.0 == parent && es[j].1 == m) || (m
                == 0 && forall|j: int| 0 <= j < i ==> (#[trigger] es[j]).0.0 != parent),
        decreases es.len() - i,
    {
        let e = es[i];
        if e.0.0 == parent {
            if e.1 > m {
                m = e.1;
            }
            proof {
                if es[i as int].1 == m {
                    assert(es[i as int].0.0 == parent);
                    assert(exists|j: int|
                        0 <= j < i + 1 && (#[trigger] es[j]).0.0 == parent && es[j].1 == m);
                }
            }
        }
        i = i + 1;
    }
    m
}

impl RajomonSharedState {
    /// A fresh state at the initial price, with no cached prices.
    pub fn new(params: &RajomonParams) -> (s: RajomonSharedState)
        ensures
            rajomon_wf(s@),
            s@.own_price == params.init_price,
            s@.downstream == Map::<(u64, u64), u64>::empty(),
            s@.max_downstream == Map::<u64, u64>::empty(),
            s@.queue_stats == (QueueStats { window_max: 0, log_window_max: 0 }),
            s@.diagnostics == zero_diagnostics(),
    {
        let downstream_prices = pair_table_new();
        let max_downstream_for_method = id_table_new();
        assert(pair_table(downstream_prices) =~= Map::empty());
        assert(id_table(max_downstream_for_method) =~= Map::empty());
        RajomonSharedState {
            own_price: params.init_price,
            downstream_prices,
            max_downstream_for_method,
            queue_stats: QueueStats::new(),
            diagnostics: Diagnostics {
                admitted: 0,
                rejected: 0,
                child_budget_rej: 0,
                price_up_ticks: 0,
                price_down_ticks: 0,
                price_hold_ticks: 0,
                token_deficit_sum: 0,
            },
        }
    }

    /// The server's own price.
    pub fn own_price(&self) -> (r: u64)
        ensures
            r == self@.own_price,
    {
        self.own_price
    }

    /// The queue statistics.
    pub fn queue_stats(&self) -> (r: QueueStats)
        ensures
            r == self@.queue_stats,
    {
        self.queue_stats
    }

    /// The diagnostic counters.
    pub fn diagnostics(&self) -> (r: Diagnostics)
        ensures
            r == self@.diagnostics,
    {
        self.diagnostics
    }

    /// Counts one inbound admission decision: an admitted request, or a
    /// rejected one that lacked `deficit` tokens.
    pub fn record_inbound(&mut self, admitted: bool, deficit: u64)
        ensures
            final(self)@ == (RajomonView {
                diagnostics: if admitted {
                    Diagnostics {
                        admitted: wrap_add(old(self)@.diagnostics.admitted, 1),
                        ..old(self)@.diagnostics
                    }
                } else {
                    Diagnostics {
                        rejected: wrap_add(old(self)@.diagnostics.rejected, 1),
                        token_deficit_sum: wrap_add(old(self)@.diagnostics.token_deficit_sum, deficit),
                        ..old(self)@.diagnostics
                    }
                },
                ..old(self)@
            }),
    {
        if admitted {
            self.diagnostics.admitted = self.diagnostics.admitted.wrapping_add(1);
        } else {
            self.diagnostics.rejected = self.diagnostics.rejected.wrapping_add(1);
            self.diagnostics.token_deficit_sum = self.diagnostics.token_deficit_sum.wrapping_add(
                deficit,
            );
        }
    }

    /// Counts one rejection at the child-budget check.
    pub fn record_child_budget_rejection(&mut self)
        ensures
            final(self)@ == (RajomonView {
                diagnostics: Diagnostics {
                    child_budget_rej: wrap_add(old(self)@.diagnostics.child_budget_rej, 1),
                    ..old(self)@.diagnostics
                },
                ..old(self)@
            }),
    {
        self.diagnostics.child_budget_rej = self.diagnostics.child_budget_rej.wrapping_add(1);
    }

    /// Reports the diagnostic counters, with the mean token deficit of the
    /// rejected requests, and resets them.
    pub fn take_diagnostics(&mut self) -> (r: DiagnosticsReport)
        ensures
            r.counters == old(self)@.diagnostics,
            r.mean_token_deficit == if old(self)@.diagnostics.rejected > 0 {
                old(self)@.diagnostics.token_deficit_sum / old(self)@.diagnostics.rejected
            } else {
                0
            },
            final(self)@ == (RajomonView { diagnostics: zero_diagnostics(), ..old(self)@ }),
    {
        let counters = self.diagnostics;
        let mean_token_deficit = if counters.rejected > 0 {
            counters.token_deficit_sum / counters.rejected
        } else {
            0
        };
        self.diagnostics = Diagnostics {
            admitted: 0,
            rejected: 0,
            child_budget_rej: 0,
            price_up_ticks: 0,
            price_down_ticks: 0,
            price_hold_ticks: 0,
            token_deficit_sum: 0,
        };
        DiagnosticsReport { counters, mean_token_deficit }
    }

    /// Returns the peak queue window maximum since the last report, and
    /// resets it.
    pub fn take_log_window_max(&mut self) -> (peak: u64)
        ensures
            peak == old(self)@.queue_stats.log_window_max,
            final(self)@ == (RajomonView {
                queue_stats: QueueStats { log_window_max: 0, ..old(self)@.queue_stats },
                ..old(self)@
            }),
    {
        self.queue_stats.take_log_window_max()
    }

    /// The cached downstream prices, as ((parent id, child id), price)
    /// entries in the table's order.
    pub fn downstream_entries(&self) -> (r: Vec<((u64, u64), u64)>)
        ensures
            lists_entries(r@, self@.downstream),
    {
        pair_table_entries(&self.downstream_prices)
    }

    /// The recorded maxima, as (parent id, price) entries in the table's
    /// order.
    pub fn max_downstream_entries(&self) -> (r: Vec<(u64, u64)>)
        ensures
            lists_id_entries(r@, self@.max_downstream),
    {
        id_table_entries(&self.max_downstream_for_method)
    }

    /// Records one observed queue latency.
    pub fn observe_queue_latency(&mut self, queue_latency_us: u64)
        ensures
            final(self)@ == (RajomonView {
                queue_stats: QueueStats {
                    window_max: if queue_latency_us > old(self)@.queue_stats.window_max {
                        queue_latency_us
                    } else {
                        old(self)@.queue_stats.window_max
                    },
                    ..old(self)@.queue_stats
                },
                ..old(self)@
            }),
    {
        self.queue_stats.observe(queue_latency_us);
    }

    /// The largest downstream price recorded for `method`, if any.
    pub fn max_downstream_for(&self, method: MethodId) -> (r: Option<u64>)
        ensures
            r == (if self@.max_downstream.dom().contains(method.0) {
                Some(self@.max_downstream[method.0])
            } else {
                None::<u64>
            }),
    {
        id_table_get(&self.max_downstream_for_method, method.0)
    }

    /// The total price of `method`: the own price plus the largest price
    /// cached for the downstream methods it calls, saturating.
    pub fn accumulated_price(&self, method: MethodId) -> (r: u64)
        requires
            rajomon_wf(self@),
        ensures
            r == total_price(self@.own_price, max_child_price(self@.downstream, method.0)),
    {
        let downstream = match self.max_downstream_for(method) {
            Some(v) => v,
            None => 0,
        };
        proof {
            let v = self@;
            if v.max_downstream.dom().contains(method.0) {
                lemma_max_child_price_is(v.downstream, method.0, downstream);
            } else {
                assert(!has_child(v.downstream, method.0));
                lemma_max_child_price_is(v.downstream, method.0, 0);
            }
        }
        self.own_price.saturating_add(downstream)
    }

    /// The price to charge for calling `child`: a price cached for `child`
    /// under some parent (which one is left to the table's order), or 0 if
    /// none is cached.
    pub fn child_price(&self, child: MethodId) -> (r: u64)
        ensures
            is_cached_child_price(self@.downstream, child.0, r),
    {
        let es = pair_table_entries(&self.downstream_prices);
        let ghost ds = pair_table(self.downstream_prices);
        let mut i: usize = 0;
        while i < es.len()
            invariant
                0 <= i <= es.len(),
                ds == self@.downstream,
                lists_entries(es@, ds),
                forall|j: int| 0 <= j < i ==> (#[trigger] es@[j]).0.1 != child.0,
            decreases es.len() - i,
        {
            if es[i].0.1 == child.0 {
                assert(ds.dom().contains(es@[i as int].0));
                return es[i].1;
            }
            i = i + 1;
        }
        proof {
            assert forall|k: (u64, u64)| #[trigger]
                self@.downstream.dom().contains(k) implies k.1 != child.0 by {
                let j = choose|j: int| 0 <= j < es.len() && es@[j].0 == k;
                assert(es@[j].0.1 != child.0);
            }
        }
        0
    }

    /// Caches the price that `child` published to `parent`, and sets the
    /// maximum of `parent` to the largest price cached for its children.
    pub fn record_child_price(&mut self, parent: MethodId, child: MethodId, price: u64)
        requires
            rajomon_wf(old(self)@),
        ensures
            rajomon_wf(final(self)@),
            final(self)@.downstream == old(self)@.downstream.insert((parent.0, child.0), price),
            final(self)@.max_downstream == old(self)@.max_downstream.insert(
                parent.0,
                max_child_price(final(self)@.downstream, parent.0),
            ),
            final(self)@.own_price == old(self)@.own_price,
            final(self)@.queue_stats == old(self)@.queue_stats,
            final(self)@.diagnostics == old(self)@.diagnostics,
    {
        let ghost v0 = self@;
        pair_table_insert(&mut self.downstream_prices, (parent.0, child.0), price);
        let ghost ds = pair_table(self.downstream_prices);
        let es = pair_table_entries(&self.downstream_prices);
        let m = max_price_among(&es, parent.0);
        proof {
            lemma_entries_max(ds, es@, parent.0, m);
            assert(is_max_child_price(ds, parent.0, m));
            lemma_max_child_price_is(ds, parent.0, m);
        }
        id_table_insert(&mut self.max_downstream_for_method, parent.0, m);
        proof {
            let v = self@;
            assert forall|k: (u64, u64)| #[trigger] v.downstream.dom().contains(k) implies v.max_downstream.dom().contains(k.0) by {
                if k != (parent.0, child.0) {
                    assert(v0.downstream.dom().contains(k));
                }
            }
            assert forall|p: u64| #[trigger] v.max_downstream.dom().contains(p) implies is_max_child_price(
                v.downstream,
                p,
                v.max_downstream[p],
            ) by {
                if p != parent.0 {
                    assert(v0.max_downstream.dom().contains(p));
                    assert(is_max_child_price(v0.downstream, p, v0.max_downstream[p]));
                    if has_child(v0.downstream, p) {
                        let k = choose|k: (u64, u64)|
                            #[trigger] v0.downstream.dom().contains(k) && k.0 == p
                                && v0.downstream[k] == v0.max_downstream[p];
                        assert(v.downstream.dom().contains(k));
                    }
                    if has_child(v.downstream, p) {
                        let k = choose|k: (u64, u64)| #[trigger] v.downstream.dom().contains(k) && k.0 == p;
                        assert(v0.downstream.dom().contains(k));
                    }
                }
            }
        }
    }

    /// One tick of the price controller: reads and halves the queue window
    /// maximum, then moves the own price by the price-update law.
    pub fn update_prices(&mut self, params: &RajomonParams)
        requires
            tick_fits(old(self)@.queue_stats.window_max, *params),
        ensures
            final(self)@.own_price == price_after_tick(
                old(self)@.own_price,
                old(self)@.queue_stats.window_max,
                *params,
            ),
            final(self)@.queue_stats.window_max == old(self)@.queue_stats.window_max / 2,
            final(self)@.queue_stats.log_window_max == if old(self)@.queue_stats.window_max > old(
                self,
            )@.queue_stats.log_window_max {
                old(self)@.queue_stats.window_max
            } else {
                old(self)@.queue_stats.log_window_max
            },
            final(self)@.downstream == old(self)@.downstream,
            final(self)@.max_downstream == old(self)@.max_downstream,
            final(self)@.diagnostics == (if old(self)@.queue_stats.window_max
                > params.latency_threshold_us {
                Diagnostics {
                    price_up_ticks: wrap_add(old(self)@.diagnostics.price_up_ticks, 1),
                    ..old(self)@.diagnostics
                }
            } else if old(self)@.own_price > 0 && old(self)@.queue_stats.window_max
                < params.latency_threshold_us / 2 {
                Diagnostics {
                    price_down_ticks: wrap_add(old(self)@.diagnostics.price_down_ticks, 1),
                    ..old(self)@.diagnostics
                }
            } else {
                Diagnostics {
                    price_hold_ticks: wrap_add(old(self)@.diagnostics.price_hold_ticks, 1),
                    ..old(self)@.diagnostics
                }
            }),
    {
        let max_us = self.queue_stats.take_for_tick();
        let own = self.own_price;
        let new_price = if max_us > params.latency_threshold_us {
            let excess_us = max_us - params.latency_threshold_us;
            let scaled = excess_us * params.price_step_up / 1000;
            let increment = if scaled > 1 {
                scaled
            } else {
                1
            };
            self.diagnostics.price_up_ticks = self.diagnostics.price_up_ticks.wrapping_add(1);
            own.saturating_add(increment)
        } else if own > 0 && max_us < params.latency_threshold_us / 2 {
            self.diagnostics.price_down_ticks = self.diagnostics.price_down_ticks.wrapping_add(1);
            own - 1
        } else {
            self.diagnostics.price_hold_ticks = self.diagnostics.price_hold_ticks.wrapping_add(1);
            own
        };
        self.own_price = new_price;
    }

    /// Halves every cached downstream price and, for each parent whose
    /// children had a price above zero, recomputes its maximum.
    pub fn decay_downstream_prices(&mut self)
        requires
            rajomon_wf(old(self)@),
        ensures
            rajomon_wf(final(self)@),
            final(self)@.downstream == halved(old(self)@.downstream),
            final(self)@.max_downstream.dom() == old(self)@.max_downstream.dom(),
            forall|p: u64| #[trigger]
                final(self)@.max_downstream.dom().contains(p) ==> final(self)@.max_downstream[p]
                    == max_child_price(final(self)@.downstream, p),
            final(self)@.own_price == old(self)@.own_price,
            final(self)@.queue_stats == old(self)@.queue_stats,
            final(self)@.diagnostics == old(self)@.diagnostics,
    {
        let ghost v0 = self@;
        let ghost ds0 = v0.downstream;
        let es = pair_table_entries(&self.downstream_prices);
        let mut parents: Vec<u64> = Vec::new();
        proof {
            assert forall|j: int| 0 <= j < es.len() implies #[trigger] pair_table(self.downstream_prices)[es@[j].0]
                == es@[j].1 by {
                assert(ds0.dom().contains(es@[j].0));
            }
        }
        let mut i: usize = 0;
        while i < es.len()
            invariant
                0 <= i <= es.len(),
                lists_entries(es@, ds0),
                pair_table(self.downstream_prices).dom() == ds0.dom(),
                forall|j: int| 0 <= j < es.len() ==> #[trigger] pair_table(self.downstream_prices)[es@[j].0]
                    == if j < i { es@[j].1 / 2 } else { es@[j].1 },
                forall|j: int| 0 <= j < i && (#[trigger] es@[j]).1 > 0 ==> parents@.contains(es@[j].0.0),
                forall|q: u64| #[trigger] parents@.contains(q) ==> has_child(ds0, q),
                self.own_price == v0.own_price,
                self.queue_stats == v0.queue_stats,
                self.diagnostics == v0.diagnostics,
                id_table(self.max_downstream_for_method) == v0.max_downstream,
            decreases es.len() - i,
        {
            let ghost old_parents = parents@;
            let e = es[i];
            if e.1 > 0 {
                pair_table_insert(&mut self.downstream_prices, e.0, e.1 / 2);
                proof {
                    assert forall|j: int| 0 <= j < es.len() implies #[trigger] pair_table(
                        self.downstream_prices,
                    )[es@[j].0] == if j < i + 1 { es@[j].1 / 2 } else { es@[j].1 } by {
                        if j < i {
                            assert(es@[j].0 != es@[i as int].0);
                        } else if j > i {
                            assert(es@[i as int].0 != es@[j].0);
                        }
                    }
                    assert(ds0.dom().contains(es@[i as int].0));
                }
                if !vec_contains(&parents, e.0.0) {
                    parents.push(e.0.0);
                    proof {
                        assert(parents@[old_parents.len() as int] == e.0.0);
                    }
                }
            }
            proof {
                let x = es@[i as int].0.0;
                assert(ds0.dom().contains(es@[i as int].0));
                assert(has_child(ds0, x));
                assert(parents@ == old_parents || parents@ == old_parents.push(x));
                assert forall|q: u64| #[trigger] parents@.contains(q) implies has_child(ds0, q) by {
                    let w = choose|w: int| 0 <= w < parents@.len() && parents@[w] == q;
                    if w < old_parents.len() {
                        assert(old_parents[w] == q);
                        assert(old_parents.contains(q));
                    } else {
                        assert(q == x);
                    }
                }
                assert forall|j: int| 0 <= j < i + 1 && (#[trigger] es@[j]).1 > 0 implies parents@.contains(
                    es@[j].0.0,
                ) by {
                    if j < i {
                        let w = choose|w: int| 0 <= w < old_parents.len() && old_parents[w] == es@[j].0.0;
                        assert(parents@[w] == es@[j].0.0);
                    }
                }
            }
            i = i + 1;
        }
        let ghost ds1 = pair_table(self.downstream_prices);
        proof {
            assert forall|k: (u64, u64)| #[trigger] ds1.dom().contains(k) implies ds1[k] == ds0[k] / 2 by {
                let j = choose|j: int| 0 <= j < es.len() && es@[j].0 == k;
                assert(ds1[es@[j].0] == es@[j].1 / 2);
            }
            assert(ds1 =~= halved(ds0));
        }
        let mut t: usize = 0;
        while t < parents.len()
            invariant
                0 <= t <= parents.len(),
                pair_table(self.downstream_prices) == ds1,
                ds1 == halved(ds0),
                rajomon_wf(v0),
                ds0 == v0.downstream,
                lists_entries(es@, ds0),
                forall|j: int| 0 <= j < es.len() && (#[trigger] es@[j]).1 > 0 ==> parents@.contains(es@[j].0.0),
                id_table(self.max_downstream_for_method).dom() == v0.max_downstream.dom(),
                forall|p: u64| #[trigger] id_table(self.max_downstream_for_method).dom().contains(p)
                    ==> if in_prefix(parents@, t as int, p) {
                        is_max_child_price(ds1, p, id_table(self.max_downstream_for_method)[p])
                    } else {
                        id_table(self.max_downstream_for_method)[p] == v0.max_downstream[p]
                    },
                forall|q: u64| #[trigger] parents@.contains(q) ==> has_child(ds0, q),
                self.own_price == v0.own_price,
                self.queue_stats == v0.queue_stats,
                self.diagnostics == v0.diagnostics,
            decreases parents.len() - t,
        {
            let p = parents[t];
            let es2 = pair_table_entries(&self.downstream_prices);
            let m = max_price_among(&es2, p);
            proof {
                lemma_entries_max(ds1, es2@, p, m);
                assert(parents@.contains(p));
                let k = choose|k: (u64, u64)| #[trigger] ds0.dom().contains(k) && k.0 == p;
                assert(v0.max_downstream.dom().contains(p));
            }
            id_table_insert(&mut self.max_downstream_for_method, p, m);
            proof {
                let mx = id_table(self.max_downstream_for_method);
                assert forall|q: u64| #[trigger] mx.dom().contains(q)
                    implies if in_prefix(parents@, t + 1, q) {
                        is_max_child_price(ds1, q, mx[q])
                    } else {
                        mx[q] == v0.max_downstream[q]
                    } by {
                    if q == p {
                        assert(parents@[t as int] == p);
                    } else {
                        if in_prefix(parents@, t + 1, q) {
                            let w = choose|w: int| 0 <= w < t + 1 && #[trigger] parents@[w] == q;
                            assert(in_prefix(parents@, t as int, q));
                        }
                    }
                }
            }
            t = t + 1;
        }
        proof {
            let mx = id_table(self.max_downstream_for_method);
            assert forall|p: u64| #[trigger] mx.dom().contains(p) implies is_max_child_price(ds1, p, mx[p])
                && mx[p] == max_child_price(ds1, p) by {
                if !in_prefix(parents@, parents@.len() as int, p) {
                    if parents@.contains(p) {
                        let w = choose|w: int| 0 <= w < parents@.len() && parents@[w] == p;
                        assert(in_prefix(parents@, parents@.len() as int, p));
                    }
                    lemma_unaffected_parent_max(ds0, es@, parents@, p, v0.max_downstream[p]);
                }
                lemma_max_child_price_is(ds1, p, mx[p]);
            }
            assert forall|k: (u64, u64)| #[trigger] ds1.dom().contains(k) implies mx.dom().contains(k.0) by {
                assert(ds0.dom().contains(k));
            }
        }
    }
}

/// Whether `x` occurs among the first `n` items of `s`.
pub open spec fn in_prefix(s: Seq<u64>, n: int, x: u64) -> bool {
    exists|w: int| 0 <= w < n && #[trigger] s[w] == x
}

/// Whether `v` holds `x`.
fn vec_contains(v: &Vec<u64>, x: u64) -> (r: bool)
    ensures
        r == v@.contains(x),
{
    let mut i: usize = 0;
    while i < v.len()
        invariant
            0 <= i <= v.len(),
            forall|j: int| 0 <= j < i ==> v@[j] != x,
        decreases v.len() - i,
    {
        if v[i] == x {
            assert(v@[i as int] == x);
            return true;
        }
        i = i + 1;
    }
    false
}

/// The largest price among the entries that list a table exactly is the
/// largest price in the table.
proof fn lemma_entries_max(ds: Map<(u64, u64), u64>, es: Seq<((u64, u64), u64)>, parent: u64, m: u64)
    requires
        lists_entries(es, ds),
        forall|i: int| 0 <= i < es.len() && (#[trigger] es[i]).0.0 == parent ==> es[i].1 <= m,
        (exists|i: int| 0 <= i < es.len() && (#[trigger] es[i]).0.0 == parent && es[i].1 == m)
            || (m == 0 && forall|i: int| 0 <= i < es.len() ==> (#[trigger] es[i]).0.0 != parent),
    ensures
        is_max_child_price(ds, parent, m),
{
    assert forall|k: (u64, u64)| #[trigger] ds.dom().contains(k) && k.0 == parent implies ds[k] <= m by {
        let j = choose|j: int| 0 <= j < es.len() && es[j].0 == k;
        assert(es[j].0.0 == parent);
    }
    if has_child(ds, parent) {
        let k = choose|k: (u64, u64)| #[trigger] ds.dom().contains(k) && k.0 == parent;
        let j = choose|j: int| 0 <= j < es.len() && es[j].0 == k;
        assert(es[j].0.0 == parent);
        let w = choose|i: int| 0 <= i < es.len() && (#[trigger] es[i]).0.0 == parent && es[i].1 == m;
        assert(ds.dom().contains(es[w].0));
    } else {
        if exists|i: int| 0 <= i < es.len() && (#[trigger] es[i]).0.0 == parent && es[i].1 == m {
            let w = choose|i: int| 0 <= i < es.len() && (#[trigger] es[i]).0.0 == parent && es[i].1 == m;
            assert(ds.dom().contains(es[w].0));
        }
    }
}

/// A parent none of whose children had a price above zero keeps its
/// maximum when every price is halved.
proof fn lemma_unaffected_parent_max(
    ds: Map<(u64, u64), u64>,
    es: Seq<((u64, u64), u64)>,
    parents: Seq<u64>,
    parent: u64,
    v: u64,
)
    requires
        is_max_child_price(ds, parent, v),
        lists_entries(es, ds),
        forall|i: int| 0 <= i < es.len() && (#[trigger] es[i]).1 > 0 ==> parents.contains(es[i].0.0),
        !parents.contains(parent),
    ensures
        is_max_child_price(halved(ds), parent, v),
{
    let h = halved(ds);
    assert forall|k: (u64, u64)| #[trigger] ds.dom().contains(k) && k.0 == parent implies ds[k] == 0 by {
        let j = choose|j: int| 0 <= j < es.len() && es[j].0 == k;
        if es[j].1 > 0 {
            assert(parents.contains(es[j].0.0));
        }
    }
    if has_child(ds, parent) {
        let k = choose|k: (u64, u64)| #[trigger] ds.dom().contains(k) && k.0 == parent && ds[k] == v;
        assert(h.dom().contains(k));
    }
    if has_child(h, parent) {
        let k = choose|k: (u64, u64)| #[trigger] h.dom().contains(k) && k.0 == parent;
        assert(ds.dom().contains(k));
    }
}

/// Law: halving every cached price halves each parent's maximum.
pub proof fn law_decay_halves_maximum(ds: Map<(u64, u64), u64>, parent: u64, v: u64)
    requires
        is_max_child_price(ds, parent, v),
    ensures
        is_max_child_price(halved(ds), parent, v / 2),
        max_child_price(halved(ds), parent) == v / 2,
{
    let h = halved(ds);
    assert forall|k: (u64, u64)| #[trigger] h.dom().contains(k) && k.0 == parent implies h[k] <= v / 2 by {
        assert(ds.dom().contains(k));
        assert(ds[k] <= v);
    }
    if has_child(h, parent) {
        let k0 = choose|k: (u64, u64)| #[trigger] h.dom().contains(k) && k.0 == parent;
        assert(ds.dom().contains(k0));
        let k = choose|k: (u64, u64)| #[trigger] ds.dom().contains(k) && k.0 == parent && ds[k] == v;
        assert(h.dom().contains(k));
    } else {
        if has_child(ds, parent) {
            let k = choose|k: (u64, u64)| #[trigger] ds.dom().contains(k) && k.0 == parent;
            assert(h.dom().contains(k));
        }
    }
    lemma_max_child_price_is(h, parent, v / 2);
}

/// Law: a positive cached price strictly decreases at each decay, and a
/// zero price stays zero.
pub proof fn law_decay_shrinks_prices(ds: Map<(u64, u64), u64>, k: (u64, u64))
    requires
        ds.dom().contains(k),
    ensures
        halved(ds).dom().contains(k),
        ds[k] > 0 ==> halved(ds)[k] < ds[k],
        ds[k] == 0 ==> halved(ds)[k] == 0,
{
}

/// Law: in a well-formed state, the total price of a method covers the
/// price cached for each of its children: a request admitted with enough
/// tokens for the total can pay any one child.
pub proof fn law_total_price_covers_each_child(v: RajomonView, k: (u64, u64))
    requires
        rajomon_wf(v),
        v.downstream.dom().contains(k),
    ensures
        v.downstream[k] <= max_child_price(v.downstream, k.0),
        v.downstream[k] <= total_price(v.own_price, max_child_price(v.downstream, k.0)),
        v.own_price <= total_price(v.own_price, max_child_price(v.downstream, k.0)),
{
    assert(v.max_downstream.dom().contains(k.0));
    lemma_max_child_price_is(v.downstream, k.0, v.max_downstream[k.0]);
}

/// Law: the price controller raises the price (by at least one token,
/// unless saturated) when the queueing delay exceeds the threshold, lowers
/// it by exactly one below half the threshold, and holds it otherwise.
pub proof fn law_price_update_direction(own: u64, max_us: u64, p: RajomonParams)
    ensures
        max_us > p.latency_threshold_us ==> price_after_tick(own, max_us, p) >= own
            && (own < u64::MAX ==> price_after_tick(own, max_us, p) > own),
        max_us <= p.latency_threshold_us && own > 0 && max_us < p.latency_threshold_us / 2
            ==> price_after_tick(own, max_us, p) == own - 1,
        max_us <= p.latency_threshold_us && !(own > 0 && max_us < p.latency_threshold_us / 2)
            ==> price_after_tick(own, max_us, p) == own,
{
}

} // verus!
