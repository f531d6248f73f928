//! Exponentially weighted moving average of latencies.
use vstd::prelude::*;

use super::LatencyEstimator;

verus! {

/// The abstract state of an EWMA estimator.
pub struct EwmaView {
    pub alpha_num: u64,
    pub alpha_den: u64,
    pub ewma: u64,
    pub has_sample: bool,
}

/// One EWMA step: `alpha * value + (1 - alpha) * ewma`, rounded down, with
/// `alpha = num / den`.
pub open spec fn ewma_step(num: u64, den: u64, ewma: u64, value: u64) -> int {
    (num * value + (den - num) * ewma) / (den as int)
}

/// Exponential Weighted Moving Average (EWMA) latency estimator.
/// Recent samples are weighted more heavily, naturally forgetting old data.
///
/// `alpha = alpha_num / alpha_den`. Higher alpha reacts faster but is noisier.
/// The default (alpha = 1/8) has a half-life of about 5 samples.
#[derive(Debug, Clone, Copy)]
pub struct LatencyEwma {
    alpha_num: u64,
    alpha_den: u64,
    ewma: u64,
    has_sample: bool,
}

impl View for LatencyEwma {
    type V = EwmaView;

    open spec fn view(&self) -> EwmaView {
        EwmaView {
            alpha_num: self.num_spec(),
            alpha_den: self.den_spec(),
            ewma: self.ewma_spec(),
            has_sample: self.has_sample_spec(),
        }
    }
}

/// The view after tracking `value`.
pub open spec fn ewma_tracked(v: EwmaView, value: u64) -> EwmaView {
    if !v.has_sample {
        EwmaView { ewma: value, has_sample: true, ..v }
    } else {
        EwmaView { ewma: ewma_step(v.alpha_num, v.alpha_den, v.ewma, value) as u64, ..v }
    }
}

proof fn lemma_ewma_step_bounds(num: u64, den: u64, ewma: u64, value: u64)
    requires
        0 < num < den,
    ensures
        ewma_step(num, den, ewma, value) >= if ewma <= value { ewma as int } else { value as int },
        ewma_step(num, den, ewma, value) <= if ewma <= value { value as int } else { ewma as int },
        num * value + (den - num) * ewma <= u64::MAX * (den as int),
{
    let lo: int = if ewma <= value { ewma as int } else { value as int };
    let hi: int = if ewma <= value { value as int } else { ewma as int };
    let s: int = num * value + (den - num) * ewma;
    assert(lo * den <= s && s <= hi * den) by (nonlinear_arith)
        requires
            0 < num < den,
            lo <= value <= hi,
            lo <= ewma <= hi,
            s == num * value + (den - num) * ewma,
    ;
    assert(hi * den <= u64::MAX * (den as int)) by (nonlinear_arith)
        requires
            hi <= u64::MAX,
            den > 0,
    ;
    assert(lo <= s / (den as int) <= hi) by (nonlinear_arith)
        requires
            lo * den <= s <= hi * den,
            den > 0,
    ;
}

impl LatencyEwma {
    pub closed spec fn num_spec(&self) -> u64 {
        self.alpha_num
    }

    pub closed spec fn den_spec(&self) -> u64 {
        self.alpha_den
    }

    pub closed spec fn ewma_spec(&self) -> u64 {
        self.ewma
    }

    pub closed spec fn has_sample_spec(&self) -> bool {
        self.has_sample
    }

    /// Creates an estimator with `alpha = alpha_num / alpha_den`.
    pub fn new(alpha_num: u64, alpha_den: u64) -> (e: LatencyEwma)
        requires
            0 < alpha_num < alpha_den,
        ensures
            e.inv(),
            e@ == (EwmaView { alpha_num, alpha_den, ewma: 0, has_sample: false }),
    {
        LatencyEwma { alpha_num, alpha_den, ewma: 0, has_sample: false }
    }

    /// The numerator of alpha.
    pub fn alpha_num(&self) -> (r: u64)
        ensures
            r == self@.alpha_num,
    {
        self.alpha_num
    }

    /// The denominator of alpha.
    pub fn alpha_den(&self) -> (r: u64)
        ensures
            r == self@.alpha_den,
    {
        self.alpha_den
    }

    /// The default estimator, `alpha = 1/8`.
    pub fn default_estimator() -> (e: LatencyEwma)
        ensures
            e.inv(),
            e@ == (EwmaView { alpha_num: 1, alpha_den: 8, ewma: 0, has_sample: false }),
    {
        LatencyEwma::new(1, 8)
    }
}

impl LatencyEstimator for LatencyEwma {
    open spec fn initial_view() -> EwmaView {
        EwmaView { alpha_num: 1, alpha_den: 8, ewma: 0, has_sample: false }
    }

    open spec fn tracked_view(v: EwmaView, value: u64) -> EwmaView {
        ewma_tracked(v, value)
    }

    open spec fn trackable(v: EwmaView, value: u64) -> bool {
        true
    }

    open spec fn estimable(v: EwmaView) -> bool {
        v.has_sample
    }

    open spec fn estimate_of(v: EwmaView) -> u64 {
        v.ewma
    }

    open spec fn mean_estimate_of(v: EwmaView) -> u64 {
        v.ewma
    }

    open spec fn mean_floor_estimate_of(v: EwmaView) -> u64 {
        v.ewma
    }

    open spec fn inv(&self) -> bool {
        0 < self@.alpha_num < self@.alpha_den
    }

    fn initial() -> (r: Self) {
        LatencyEwma::default_estimator()
    }

    fn track(&mut self, value: u64) {
        if !self.has_sample {
            self.ewma = value;
            self.has_sample = true;
        } else {
            proof {
                lemma_ewma_step_bounds(self.alpha_num, self.alpha_den, self.ewma, value);
            }
            // Intermediates in u128 cannot overflow: both products are below 2^128.
            let a = self.alpha_num as u128 * value as u128;
            let b = (self.alpha_den - self.alpha_num) as u128 * self.ewma as u128;
            assert(a + b <= u64::MAX * (self.alpha_den as int));
            assert(u64::MAX * (self.alpha_den as int) <= u128::MAX) by (nonlinear_arith)
                requires
                    self.alpha_den <= u64::MAX,
            ;
            let new_ewma = (a + b) / self.alpha_den as u128;
            self.ewma = new_ewma as u64;
        }
    }

    fn can_estimate(&self) -> (r: bool) {
        self.has_sample
    }

    fn estimate(&self) -> (r: u64) {
        self.ewma
    }

    fn mean_estimate(&self) -> (r: u64) {
        self.ewma
    }

    fn mean_floor_estimate(&self) -> (r: u64) {
        self.ewma
    }
}

impl Default for LatencyEwma {
    /// The default estimator, `alpha = 1/8` (a half-life of about 5 samples).
    fn default() -> (e: Self)
        ensures
            e.inv(),
            e@ == (EwmaView { alpha_num: 1, alpha_den: 8, ewma: 0, has_sample: false }),
    {
        LatencyEwma::new(1, 8)
    }
}

/// An EWMA step never leaves the interval spanned by the previous estimate
/// and the new value.
pub proof fn lemma_ewma_stays_between(v: EwmaView, value: u64)
    requires
        0 < v.alpha_num < v.alpha_den,
        v.has_sample,
    ensures
        ewma_tracked(v, value).ewma >= if v.ewma <= value { v.ewma } else { value },
        ewma_tracked(v, value).ewma <= if v.ewma <= value { value } else { v.ewma },
{
    lemma_ewma_step_bounds(v.alpha_num, v.alpha_den, v.ewma, value);
}

/// Tracking the value the estimate already holds leaves it unchanged: the
/// estimate converges to a constant input.
pub proof fn lemma_ewma_constant_is_fixed_point(v: EwmaView, value: u64)
    requires
        0 < v.alpha_num < v.alpha_den,
        v.has_sample,
        v.ewma == value,
    ensures
        ewma_tracked(v, value) == v,
{
    lemma_ewma_step_bounds(v.alpha_num, v.alpha_den, v.ewma, value);
}

} // verus!
