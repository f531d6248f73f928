//! Latency estimators: streaming summaries of observed latencies.
use vstd::prelude::*;

pub mod ewma;
pub mod histogram;
pub mod rms;

verus! {

/// A latency estimator tracks latency observations (in microseconds) and
/// provides an estimate of the latency to expect.
///
/// The behaviour of an implementation is described over its view: tracking
/// a value moves the view to `tracked_view`, and the estimates are functions
/// of the view.
pub trait LatencyEstimator: View + Sized {
    /// The view of a freshly created estimator.
    spec fn initial_view() -> Self::V;

    /// The view after tracking `value`.
    spec fn tracked_view(v: Self::V, value: u64) -> Self::V;

    /// Whether `value` can be tracked without exceeding a machine limit.
    spec fn trackable(v: Self::V, value: u64) -> bool;

    /// Whether enough data has been seen to give an estimate.
    spec fn estimable(v: Self::V) -> bool;

    /// The estimate.
    spec fn estimate_of(v: Self::V) -> u64;

    /// The conservative (mean-only) estimate.
    spec fn mean_estimate_of(v: Self::V) -> u64;

    /// The floor estimate, a lower envelope used for hard thresholds.
    spec fn mean_floor_estimate_of(v: Self::V) -> u64;

    /// Internal well-formedness of a value of the implementing type.
    spec fn inv(&self) -> bool;

    /// A fresh estimator with no observations.
    fn initial() -> (r: Self)
        ensures
            r.inv(),
            r@ == Self::initial_view(),
    ;

    /// Track a new latency value.
    fn track(&mut self, value: u64)
        requires
            old(self).inv(),
            Self::trackable(old(self)@, value),
        ensures
            final(self).inv(),
            final(self)@ == Self::tracked_view(old(self)@, value),
    ;

    /// Whether the estimator has enough data to provide an estimate.
    fn can_estimate(&self) -> (r: bool)
        requires
            self.inv(),
        ensures
            r == Self::estimable(self@),
    ;

    /// The estimate.
    fn estimate(&self) -> (r: u64)
        requires
            self.inv(),
        ensures
            r == Self::estimate_of(self@),
    ;

    /// The conservative, mean-only estimate.
    fn mean_estimate(&self) -> (r: u64)
        requires
            self.inv(),
        ensures
            r == Self::mean_estimate_of(self@),
    ;

    /// The floor estimate.
    fn mean_floor_estimate(&self) -> (r: u64)
        requires
            self.inv(),
        ensures
            r == Self::mean_floor_estimate_of(self@),
    ;
}

} // verus!
