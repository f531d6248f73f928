//! Root-mean-square latency estimator.
use vstd::prelude::*;

use super::LatencyEstimator;

verus! {

/// `r` is the integer square root of `n`: the largest `r` with `r * r <= n`.
pub open spec fn is_isqrt(r: int, n: int) -> bool {
    0 <= r && r * r <= n < (r + 1) * (r + 1)
}

/// The integer square root of `n`.
pub closed spec fn isqrt(n: nat) -> nat {
    choose|r: nat| is_isqrt(r as int, n as int)
}

/// The integer square root is unique.
pub proof fn lemma_isqrt_unique(r1: int, r2: int, n: int)
    requires
        is_isqrt(r1, n),
        is_isqrt(r2, n),
    ensures
        r1 == r2,
{
    if r1 < r2 {
        assert((r1 + 1) * (r1 + 1) <= r2 * r2) by (nonlinear_arith)
            requires
                0 <= r1 < r2,
        ;
    } else if r2 < r1 {
        assert((r2 + 1) * (r2 + 1) <= r1 * r1) by (nonlinear_arith)
            requires
                0 <= r2 < r1,
        ;
    }
}

/// Any witness of the integer square root is `isqrt`.
pub proof fn lemma_isqrt_is(r: int, n: nat)
    requires
        is_isqrt(r, n as int),
    ensures
        isqrt(n) == r,
{
    let r_nat: nat = r as nat;
    assert(is_isqrt(r_nat as int, n as int));
    let c = isqrt(n);
    assert(is_isqrt(c as int, n as int));
    lemma_isqrt_unique(c as int, r, n as int);
}

/// One Newton step keeps the iterate above the square root.
proof fn lemma_newton_step_above(x: int, n: int)
    requires
        1 <= x,
        0 <= n,
    ensures
        n < ((x + n / x) / 2 + 1) * ((x + n / x) / 2 + 1),
{
    let q = n / x;
    let t = (x + q) / 2 + 1;
    assert(n < x * (q + 1)) by (nonlinear_arith)
        requires
            1 <= x,
            0 <= n,
            q == n / x,
    ;
    if t * t <= n {
        assert(x + q + 1 <= 2 * t);
        assert(x * (q + 1) <= x * (2 * t - x)) by (nonlinear_arith)
            requires
                x + q + 1 <= 2 * t,
                1 <= x,
        ;
        assert(x * (2 * t - x) <= t * t) by (nonlinear_arith);
    }
}

/// Termination of the Newton iteration pins down the square root.
proof fn lemma_newton_fixpoint(x: int, n: int)
    requires
        1 <= x,
        0 <= n,
        (x + n / x) / 2 >= x,
    ensures
        x * x <= n,
{
    let q = n / x;
    assert(q >= x);
    assert(x * x <= x * q) by (nonlinear_arith)
        requires
            q >= x,
            x >= 1,
    ;
    assert(x * q <= n) by (nonlinear_arith)
        requires
            q == n / x,
            x >= 1,
            n >= 0,
    ;
}

/// The largest value a squared `u64` can take.
pub open spec fn max_square() -> int {
    u64::MAX * u64::MAX
}

/// The abstract state of an RMS estimator.
pub struct RmsView {
    pub sum_squares: nat,
    pub count: nat,
    pub rms: u64,
    pub update_interval: nat,
    pub since_last_update: nat,
}

/// The root mean square of observations summing to `sum_squares` over
/// `count` values (0 when there are none).
pub open spec fn rms_value(sum_squares: nat, count: nat) -> nat {
    if count == 0 {
        0
    } else {
        isqrt(sum_squares / count)
    }
}

/// The view after tracking `value`: the counters grow, and every
/// `update_interval` observations the cached RMS is recomputed.
pub open spec fn rms_tracked(v: RmsView, value: u64) -> RmsView {
    let sum_squares = v.sum_squares + value * value;
    let count = v.count + 1;
    let since = v.since_last_update + 1;
    if since >= v.update_interval {
        RmsView {
            sum_squares: sum_squares as nat,
            count: count as nat,
            rms: rms_value(sum_squares as nat, count as nat) as u64,
            update_interval: v.update_interval,
            since_last_update: 0,
        }
    } else {
        RmsView {
            sum_squares: sum_squares as nat,
            count: count as nat,
            rms: v.rms,
            update_interval: v.update_interval,
            since_last_update: since as nat,
        }
    }
}

/// Root Mean Square (RMS) based latency estimator.
///
/// Keeps incremental counters of `sum(x^2)` and the count, and refreshes the
/// cached RMS every `update_interval` observations to amortize the cost of
/// the square root.
#[derive(Debug, Clone, Copy)]
pub struct LatencyRms {
    sum_squares: u128,
    count: usize,
    rms: u64,
    update_interval: usize,
    since_last_update: usize,
}

impl View for LatencyRms {
    type V = RmsView;

    closed spec fn view(&self) -> RmsView {
        RmsView {
            sum_squares: self.sum_squares as nat,
            count: self.count as nat,
            rms: self.rms,
            update_interval: self.update_interval as nat,
            since_last_update: self.since_last_update as nat,
        }
    }
}

impl LatencyRms {
    /// Creates an estimator that refreshes its RMS every `update_interval`
    /// observations.
    pub fn new(update_interval: usize) -> (e: LatencyRms)
        requires
            update_interval >= 1,
        ensures
            e.inv(),
            e@ == (RmsView {
                sum_squares: 0,
                count: 0,
                rms: 0,
                update_interval: update_interval as nat,
                since_last_update: 0,
            }),
    {
        LatencyRms { sum_squares: 0, count: 0, rms: 0, update_interval, since_last_update: 0 }
    }

    fn update_rms(&mut self)
        requires
            old(self)@.sum_squares <= old(self)@.count * max_square(),
        ensures
            final(self)@ == (RmsView { rms: rms_value(old(self)@.sum_squares, old(self)@.count) as u64, ..old(self)@ }),
    {
        if self.count == 0 {
            self.rms = 0;
            return;
        }
        let mean_square = self.sum_squares / self.count as u128;
        proof {
            assert(mean_square <= max_square()) by (nonlinear_arith)
                requires
                    self.sum_squares <= self.count * max_square(),
                    self.count >= 1,
                    mean_square == self.sum_squares / (self.count as u128),
            ;
            assert(max_square() < u128::MAX);
        }
        let r = integer_sqrt(mean_square);
        proof {
            assert(r <= u64::MAX) by (nonlinear_arith)
                requires
                    r * r <= mean_square,
                    mean_square <= max_square(),
                    r >= 0,
            ;
        }
        self.rms = r as u64;
    }

    /// The cached root mean square.
    pub fn rms(&self) -> (r: u64)
        ensures
            r == self@.rms,
    {
        self.rms
    }

    /// The sum of the squares of all tracked values.
    pub fn sum_squares(&self) -> (r: u128)
        ensures
            r == self@.sum_squares,
    {
        self.sum_squares
    }

    /// The number of tracked values.
    pub fn count(&self) -> (r: usize)
        ensures
            r == self@.count,
    {
        self.count
    }

    /// How many observations pass between two RMS refreshes.
    pub fn update_interval(&self) -> (r: usize)
        ensures
            r == self@.update_interval,
    {
        self.update_interval
    }

    /// Observations tracked since the last RMS refresh.
    pub fn since_last_update(&self) -> (r: usize)
        ensures
            r == self@.since_last_update,
    {
        self.since_last_update
    }
}

impl Default for LatencyRms {
    /// An estimator that refreshes every 512 observations.
    fn default() -> (e: Self)
        ensures
            e.inv(),
            e@ == (RmsView {
                sum_squares: 0,
                count: 0,
                rms: 0,
                update_interval: 512,
                since_last_update: 0,
            }),
    {
        LatencyRms::new(512)
    }
}

impl LatencyEstimator for LatencyRms {
    open spec fn initial_view() -> RmsView {
        RmsView { sum_squares: 0, count: 0, rms: 0, update_interval: 512, since_last_update: 0 }
    }

    open spec fn tracked_view(v: RmsView, value: u64) -> RmsView {
        rms_tracked(v, value)
    }

    open spec fn trackable(v: RmsView, value: u64) -> bool {
        v.sum_squares + value * value <= u128::MAX && v.count + 1 <= usize::MAX
    }

    open spec fn estimable(v: RmsView) -> bool {
        v.count > 0
    }

    open spec fn estimate_of(v: RmsView) -> u64 {
        v.rms
    }

    open spec fn mean_estimate_of(v: RmsView) -> u64 {
        v.rms
    }

    open spec fn mean_floor_estimate_of(v: RmsView) -> u64 {
        v.rms
    }

    open spec fn inv(&self) -> bool {
        &&& self@.update_interval >= 1
        &&& self@.since_last_update < self@.update_interval
        &&& self@.sum_squares <= self@.count * max_square()
    }

    fn initial() -> (r: Self) {
        LatencyRms::new(512)
    }

    fn track(&mut self, value: u64) {
        let value_squared = (value as u128) * (value as u128);
        proof {
            assert(value_squared <= max_square()) by (nonlinear_arith)
                requires
                    value_squared == value * value,
                    value <= u64::MAX,
            ;
            assert(self.sum_squares + value_squared <= (self.count + 1) * max_square()) by (nonlinear_arith)
                requires
                    self.sum_squares <= self.count * max_square(),
                    value_squared <= max_square(),
            ;
        }
        self.sum_squares = self.sum_squares + value_squared;
        self.count = self.count + 1;
        self.since_last_update = self.since_last_update + 1;
        if self.since_last_update >= self.update_interval {
            self.update_rms();
            self.since_last_update = 0;
        }
    }

    fn can_estimate(&self) -> (r: bool) {
        self.count > 0
    }

    fn estimate(&self) -> (r: u64) {
        self.rms
    }

    fn mean_estimate(&self) -> (r: u64) {
        self.rms
    }

    fn mean_floor_estimate(&self) -> (r: u64) {
        self.rms
    }
}

/// The RMS of `count` copies of the same value is that value.
pub proof fn lemma_rms_of_identical_values(count: nat, value: u64)
    requires
        count > 0,
    ensures
        rms_value(count * (value * value) as nat, count) == value,
{
    let n: int = count * (value * value);
    assert(n / (count as int) == value * value) by (nonlinear_arith)
        requires
            n == count * (value * value),
            count > 0,
    ;
    assert(is_isqrt(value as int, value * value)) by (nonlinear_arith);
    lemma_isqrt_is(value as int, (value * value) as nat);
}

/// Integer square root using Newton's method.
pub fn integer_sqrt(n: u128) -> (r: u128)
    requires
        n < u128::MAX,
    ensures
        is_isqrt(r as int, n as int),
        r == isqrt(n as nat),
{
    if n == 0 {
        proof {
            lemma_isqrt_is(0, 0);
        }
        return 0;
    }
    if n < 4 {
        proof {
            lemma_isqrt_is(1, n as nat);
        }
        return 1;
    }
    let mut x: u128 = n;
    let mut y: u128 = (x + 1) / 2;
    proof {
        assert(n < (n + 1) * (n + 1)) by (nonlinear_arith)
            requires
                n >= 1,
        ;
        assert(n / n == 1) by (nonlinear_arith)
            requires
                n >= 1,
        ;
        lemma_newton_step_above(n as int, n as int);
    }
    while y < x
        invariant
            4 <= n < u128::MAX,
            1 <= x <= n,
            y == (x + n / x) / 2,
            n < (y + 1) * (y + 1),
            n < (x + 1) * (x + 1),
        decreases x,
    {
        x = y;
        proof {
            assert(1 <= x) by (nonlinear_arith)
                requires
                    n < (x + 1) * (x + 1),
                    4 <= n,
            ;
            assert(x + n / x <= n + 1) by (nonlinear_arith)
                requires
                    1 <= x <= n,
            ;
            lemma_newton_step_above(x as int, n as int);
        }
        y = (x + n / x) / 2;
    }
    proof {
        lemma_newton_fixpoint(x as int, n as int);
        lemma_isqrt_is(x as int, n as nat);
    }
    x
}

} // verus!
