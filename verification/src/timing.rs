//! Latency tracking over a request's lifetime.
//!
//! Instants and durations are measured in nanoseconds on a monotonic clock
//! that the caller reads and passes in.
use vstd::prelude::*;

verus! {

/// Tracks the latency of one operation: not started, started at an instant,
/// or finished with a measured duration.
#[derive(Debug, Clone, Copy, PartialEq, Eq, Structural)]
pub enum LatencyTracker {
    NotStarted,
    /// Started at the given instant (nanoseconds).
    Started(u64),
    /// Finished; the measured latency in nanoseconds.
    Finished(u64),
}

impl LatencyTracker {
    /// Starts tracking at instant `now`. A tracker starts only once.
    pub fn start(&mut self, now: u64)
        requires
            *old(self) == LatencyTracker::NotStarted,
        ensures
            *final(self) == LatencyTracker::Started(now),
    {
        *self = LatencyTracker::Started(now);
    }

    /// Records the latency at instant `now`: the time elapsed since the
    /// start (0 if `now` precedes the start, as `Instant::elapsed` saturates).
    pub fn record_latency(&mut self, now: u64)
        requires
            *old(self) is Started,
        ensures
            *final(self) == LatencyTracker::Finished(
                if now >= (*old(self))->Started_0 { (now - (*old(self))->Started_0) as u64 } else { 0 },
            ),
    {
        match *self {
            LatencyTracker::Started(start) => {
                *self = LatencyTracker::Finished(now.saturating_sub(start));
            },
            _ => {},
        }
    }

    /// The recorded latency, once finished.
    pub fn get_latency(&self) -> (r: Option<u64>)
        ensures
            r == (match *self {
                LatencyTracker::Finished(lat) => Some(lat),
                _ => None,
            }),
    {
        match *self {
            LatencyTracker::Finished(lat) => Some(lat),
            _ => None,
        }
    }
}

/// Accumulates the compute time of a request across its polls: each poll
/// is timed from `start` to `stop`, and a `stop` without a matching `start`
/// does nothing. Times are in microseconds on a monotonic clock.
#[derive(Debug, Clone, Copy, PartialEq, Eq, Structural)]
pub struct ComputeTracker {
    /// When the current poll started, if one is being timed.
    pub started_at: Option<u64>,
    /// The compute time accumulated so far (saturating).
    pub compute_us: u64,
}

impl ComputeTracker {
    /// A tracker with no compute time and no poll being timed.
    pub fn new() -> (t: ComputeTracker)
        ensures
            t == (ComputeTracker { started_at: None, compute_us: 0 }),
    {
        ComputeTracker { started_at: None, compute_us: 0 }
    }

    /// Starts timing a poll at `now`.
    pub fn start(&mut self, now: u64)
        ensures
            *final(self) == (ComputeTracker { started_at: Some(now), ..*old(self) }),
    {
        self.started_at = Some(now);
    }

    /// Stops timing the current poll at `now`, adding its duration; does
    /// nothing when no poll is being timed.
    pub fn stop(&mut self, now: u64)
        ensures
            *final(self) == match old(self).started_at {
                Some(s) => ComputeTracker {
                    started_at: None,
                    compute_us: if old(self).compute_us + (if now >= s { now - s } else { 0 }) > u64::MAX {
                        u64::MAX
                    } else {
                        (old(self).compute_us + (if now >= s { now - s } else { 0 })) as u64
                    },
                },
                None => *old(self),
            },
    {
        match self.started_at {
            Some(s) => {
                self.compute_us = self.compute_us.saturating_add(now.saturating_sub(s));
                self.started_at = None;
            },
            None => {},
        }
    }

    /// The compute time accumulated so far.
    pub fn compute_us(&self) -> (r: u64)
        ensures
            r == self.compute_us,
    {
        self.compute_us
    }
}

} // verus!
