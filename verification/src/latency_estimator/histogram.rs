//! Latency distribution: percentiles over a sliding window of observations.
use vstd::prelude::*;

use super::LatencyEstimator;
use crate::sorting::{lemma_sorted_len, sort_values, sorted_values};

verus! {

/// The percentile returned as the estimate.
pub const PERCENTILE: usize = 50;

/// The sum of a sequence of values.
pub open spec fn sum_of(s: Seq<u64>) -> nat
    decreases s.len(),
{
    if s.len() == 0 {
        0
    } else {
        (sum_of(s.drop_last()) + s.last()) as nat
    }
}

/// The table of the 0th to 99th percentiles of `vals`: entry `i` is the
/// value at index `len * i / 100` of the sorted values.
pub open spec fn percentile_table(vals: Seq<u64>) -> Seq<u64> {
    Seq::new(100, |i: int| sorted_values(vals)[(vals.len() * i) / 100])
}

/// The abstract state of a latency distribution.
pub struct DistributionView {
    pub name: Seq<char>,
    pub capacity: nat,
    pub cur: Seq<u64>,
    pub prev: Seq<u64>,
    pub mean: u64,
    pub percentiles: Seq<u64>,
}

/// The view after tracking `value`. The value joins the current window;
/// when the window is full, the statistics are recomputed over the previous
/// and the current window together, and the current window becomes the
/// previous one.
pub open spec fn distribution_tracked(v: DistributionView, value: u64) -> DistributionView {
    let cur = v.cur.push(value);
    if cur.len() >= v.capacity {
        let vals = v.prev + cur;
        DistributionView {
            name: v.name,
            capacity: v.capacity,
            cur: Seq::empty(),
            prev: cur,
            mean: (sum_of(vals) / vals.len()) as u64,
            percentiles: percentile_table(vals),
        }
    } else {
        DistributionView { cur, ..v }
    }
}

/// Whether tracking `value` keeps the window sum within `u64`.
pub open spec fn distribution_trackable(v: DistributionView, value: u64) -> bool {
    v.cur.len() + 1 >= v.capacity ==> sum_of(v.prev + v.cur.push(value)) <= u64::MAX
}

/// Latency distribution estimator: keeps the current and the previous window
/// of observations and summarizes both when the current window fills up.
#[derive(Debug)]
pub struct LatencyDistribution {
    name: String,
    capacity: usize,
    cur_queue: Vec<u64>,
    prev_queue: Vec<u64>,
    mean: u64,
    percentiles: Vec<u64>,
}

impl View for LatencyDistribution {
    type V = DistributionView;

    closed spec fn view(&self) -> DistributionView {
        DistributionView {
            name: self.name@,
            capacity: self.capacity as nat,
            cur: self.cur_queue@,
            prev: self.prev_queue@,
            mean: self.mean,
            percentiles: self.percentiles@,
        }
    }
}

proof fn lemma_sum_take_step(s: Seq<u64>, i: int)
    requires
        0 <= i < s.len(),
    ensures
        sum_of(s.take(i + 1)) == sum_of(s.take(i)) + s[i],
{
    assert(s.take(i + 1).drop_last() =~= s.take(i));
}

proof fn lemma_sum_prefix_le(s: Seq<u64>, i: int)
    requires
        0 <= i <= s.len(),
    ensures
        sum_of(s.take(i)) <= sum_of(s),
    decreases s.len() - i,
{
    if i < s.len() {
        lemma_sum_take_step(s, i);
        lemma_sum_prefix_le(s, i + 1);
    } else {
        assert(s.take(i) =~= s);
    }
}

impl LatencyDistribution {
    /// Creates a distribution whose window holds `capacity` observations.
    pub fn new(name: String, capacity: usize) -> (d: LatencyDistribution)
        requires
            capacity >= 100,
        ensures
            d.inv(),
            d@ == (DistributionView {
                name: name@,
                capacity: capacity as nat,
                cur: Seq::empty(),
                prev: Seq::empty(),
                mean: 0,
                percentiles: Seq::empty(),
            }),
    {
        LatencyDistribution {
            name,
            capacity,
            cur_queue: Vec::new(),
            prev_queue: Vec::new(),
            mean: 0,
            percentiles: Vec::new(),
        }
    }

    fn update(&mut self)
        requires
            sum_of(old(self)@.prev + old(self)@.cur) <= u64::MAX,
            old(self)@.prev.len() + old(self)@.cur.len() >= 1,
        ensures
            final(self)@ == (DistributionView {
                mean: (sum_of(old(self)@.prev + old(self)@.cur) / (old(self)@.prev + old(self)@.cur).len()) as u64,
                percentiles: percentile_table(old(self)@.prev + old(self)@.cur),
                ..old(self)@
            }),
    {
        let ghost vals = self@.prev + self@.cur;
        let mut values: Vec<u64> = Vec::new();
        let mut i: usize = 0;
        while i < self.prev_queue.len()
            invariant
                0 <= i <= self.prev_queue@.len(),
                values@ =~= self.prev_queue@.take(i as int),
            decreases self.prev_queue@.len() - i,
        {
            values.push(self.prev_queue[i]);
            i = i + 1;
        }
        let mut j: usize = 0;
        while j < self.cur_queue.len()
            invariant
                0 <= j <= self.cur_queue@.len(),
                values@ =~= self.prev_queue@ + self.cur_queue@.take(j as int),
            decreases self.cur_queue@.len() - j,
        {
            values.push(self.cur_queue[j]);
            j = j + 1;
        }
        assert(values@ =~= vals);
        let mut sum: u64 = 0;
        let mut k: usize = 0;
        while k < values.len()
            invariant
                0 <= k <= values@.len(),
                values@ == vals,
                sum == sum_of(vals.take(k as int)),
                sum_of(vals) <= u64::MAX,
            decreases values@.len() - k,
        {
            proof {
                lemma_sum_take_step(vals, k as int);
                lemma_sum_prefix_le(vals, k + 1);
            }
            sum = sum + values[k];
            k = k + 1;
        }
        assert(vals.take(vals.len() as int) =~= vals);
        let n = values.len();
        self.mean = sum / n as u64;
        sort_values(&mut values);
        proof {
            lemma_sorted_len(vals);
        }
        let mut table: Vec<u64> = Vec::new();
        let mut p: usize = 0;
        while p < 100
            invariant
                0 <= p <= 100,
                n == vals.len(),
                n >= 1,
                values@ == sorted_values(vals),
                values@.len() == n,
                table@.len() == p,
                forall|q: int| 0 <= q < p ==> table@[q] == #[trigger] percentile_table(vals)[q],
            decreases 100 - p,
        {
            proof {
                assert((n as int) * (p as int) <= u128::MAX) by (nonlinear_arith)
                    requires
                        n <= usize::MAX,
                        p < 100,
                ;
                assert(((n as int) * (p as int)) / 100 < n) by (nonlinear_arith)
                    requires
                        n >= 1,
                        p < 100,
                ;
            }
            let np: u128 = n as u128 * p as u128;
            let idx = (np / 100) as usize;
            table.push(values[idx]);
            p = p + 1;
        }
        assert(table@ =~= percentile_table(vals));
        self.percentiles = table;
    }

    /// Tracks a latency value (same as the estimator's `track`).
    pub fn track(&mut self, value: u64)
        requires
            old(self).inv(),
            distribution_trackable(old(self)@, value),
        ensures
            final(self).inv(),
            final(self)@ == distribution_tracked(old(self)@, value),
    {
        self.cur_queue.push(value);
        if self.cur_queue.len() >= self.capacity {
            self.update();
            std::mem::swap(&mut self.cur_queue, &mut self.prev_queue);
            self.cur_queue.clear();
        }
    }

    /// The percentile table (empty until the first window is full).
    pub fn percentiles(&self) -> (r: &Vec<u64>)
        ensures
            r@ == self@.percentiles,
    {
        &self.percentiles
    }

    /// The `p`-th percentile.
    pub fn percentile(&self, p: usize) -> (r: u64)
        requires
            self.inv(),
            p < 100,
            self@.percentiles.len() > 0,
        ensures
            r == self@.percentiles[p as int],
    {
        self.percentiles[p]
    }

    /// Whether a percentile table is available.
    pub fn can_estimate(&self) -> (r: bool)
        ensures
            r == (self@.percentiles.len() > 0),
    {
        self.percentiles.len() > 0
    }

    /// The median once available, the mean (0 at first) before.
    pub fn estimate(&self) -> (r: u64)
        requires
            self.inv(),
        ensures
            r == distribution_estimate(self@),
    {
        if self.percentiles.len() == 0 {
            self.mean
        } else {
            self.percentile(PERCENTILE)
        }
    }

    /// The window capacity.
    pub fn capacity(&self) -> (r: usize)
        ensures
            r == self@.capacity,
    {
        self.capacity
    }

    /// The number of observations in the current window.
    pub fn cur_queue_len(&self) -> (r: usize)
        ensures
            r == self@.cur.len(),
    {
        self.cur_queue.len()
    }

    /// The number of observations in the previous window.
    pub fn prev_queue_len(&self) -> (r: usize)
        ensures
            r == self@.prev.len(),
    {
        self.prev_queue.len()
    }

    /// The mean computed at the last window rotation.
    pub fn mean(&self) -> (r: u64)
        ensures
            r == self@.mean,
    {
        self.mean
    }
}

/// The estimate of a distribution: the median once a table exists, the mean
/// before.
pub open spec fn distribution_estimate(v: DistributionView) -> u64 {
    if v.percentiles.len() == 0 {
        v.mean
    } else {
        v.percentiles[PERCENTILE as int]
    }
}

impl Default for LatencyDistribution {
    /// An unnamed distribution with a window of 512 observations.
    fn default() -> (d: Self)
        ensures
            d.inv(),
            d@ == (DistributionView {
                name: Seq::empty(),
                capacity: 512,
                cur: Seq::empty(),
                prev: Seq::empty(),
                mean: 0,
                percentiles: Seq::empty(),
            }),
    {
        LatencyDistribution::new(String::new(), 512)
    }
}

impl LatencyEstimator for LatencyDistribution {
    open spec fn initial_view() -> DistributionView {
        DistributionView {
            name: Seq::empty(),
            capacity: 512,
            cur: Seq::empty(),
            prev: Seq::empty(),
            mean: 0,
            percentiles: Seq::empty(),
        }
    }

    open spec fn tracked_view(v: DistributionView, value: u64) -> DistributionView {
        distribution_tracked(v, value)
    }

    open spec fn trackable(v: DistributionView, value: u64) -> bool {
        distribution_trackable(v, value)
    }

    open spec fn estimable(v: DistributionView) -> bool {
        v.percentiles.len() > 0
    }

    open spec fn estimate_of(v: DistributionView) -> u64 {
        distribution_estimate(v)
    }

    open spec fn mean_estimate_of(v: DistributionView) -> u64 {
        distribution_estimate(v)
    }

    open spec fn mean_floor_estimate_of(v: DistributionView) -> u64 {
        distribution_estimate(v)
    }

    open spec fn inv(&self) -> bool {
        &&& self@.capacity >= 100
        &&& self@.cur.len() < self@.capacity
        &&& (self@.prev.len() == 0 || self@.prev.len() == self@.capacity)
        &&& (self@.percentiles.len() == 0 || self@.percentiles.len() == 100)
    }

    fn initial() -> (r: Self) {
        LatencyDistribution::default()
    }

    fn track(&mut self, value: u64) {
        LatencyDistribution::track(self, value)
    }

    fn can_estimate(&self) -> (r: bool) {
        LatencyDistribution::can_estimate(self)
    }

    fn estimate(&self) -> (r: u64) {
        LatencyDistribution::estimate(self)
    }

    fn mean_estimate(&self) -> (r: u64) {
        LatencyDistribution::estimate(self)
    }

    fn mean_floor_estimate(&self) -> (r: u64) {
        LatencyDistribution::estimate(self)
    }
}

} // verus!
