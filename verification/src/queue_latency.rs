//! Queue-latency accounting of one request: the time its task spent in the
//! run queue before its first poll and before later polls, its children's
//! included.
use vstd::prelude::*;

use crate::context::{Context, ContextView, QueueLatencies, QueueLatenciesView};
use crate::rajomon::shared::wrap_add;

verus! {

/// The tracker `t` after a poll preceded by `queue_latency_us` of queueing:
/// the first positive latency counts as initial, later ones as resume; a
/// zero latency is no observation.
pub open spec fn polled(t: QueueLatencyTracker, queue_latency_us: u64) -> QueueLatencyTracker {
    if queue_latency_us == 0 {
        t
    } else if t.is_first_poll {
        QueueLatencyTracker {
            initial_q_lat: wrap_add(t.initial_q_lat, queue_latency_us),
            is_first_poll: false,
            ..t
        }
    } else {
        QueueLatencyTracker { resume_q_lat: wrap_add(t.resume_q_lat, queue_latency_us), ..t }
    }
}

/// The queue latencies accumulated for one request. The sums count modulo
/// 2^64.
#[derive(Debug, Clone, Copy, PartialEq, Eq, Structural)]
pub struct QueueLatencyTracker {
    /// Queue latency before the first poll, plus the children's.
    pub initial_q_lat: u64,
    /// Queue latency before later polls, plus the children's.
    pub resume_q_lat: u64,
    /// No positive queue latency has been observed before a poll yet.
    pub is_first_poll: bool,
}

impl Default for QueueLatencyTracker {
    fn default() -> (t: Self)
        ensures
            t == (QueueLatencyTracker { initial_q_lat: 0, resume_q_lat: 0, is_first_poll: true }),
    {
        QueueLatencyTracker { initial_q_lat: 0, resume_q_lat: 0, is_first_poll: true }
    }
}

impl QueueLatencyTracker {
    /// A tracker with nothing observed.
    pub fn new() -> (t: Self)
        ensures
            t == (QueueLatencyTracker { initial_q_lat: 0, resume_q_lat: 0, is_first_poll: true }),
    {
        Self::default()
    }

    /// Records the queue latency that preceded a poll of the request's
    /// task: the first positive one counts as initial, later ones as
    /// resume; a zero latency is no observation.
    pub fn track_poll(&mut self, queue_latency_us: u64)
        ensures
            *final(self) == polled(*old(self), queue_latency_us),
    {
        if queue_latency_us > 0 {
            if self.is_first_poll {
                self.is_first_poll = false;
                self.initial_q_lat = self.initial_q_lat.wrapping_add(queue_latency_us);
            } else {
                self.resume_q_lat = self.resume_q_lat.wrapping_add(queue_latency_us);
            }
        }
    }

    /// Adds the queue latencies reported by a child's response, if it
    /// reported any.
    pub fn track_child_response(&mut self, child: Option<&QueueLatencies>)
        ensures
            match child {
                Some(q) => *final(self) == (QueueLatencyTracker {
                    initial_q_lat: wrap_add(old(self).initial_q_lat, q.initial),
                    resume_q_lat: wrap_add(old(self).resume_q_lat, q.resume),
                    ..*old(self)
                }),
                None => *final(self) == *old(self),
            },
    {
        if let Some(q) = child {
            self.initial_q_lat = self.initial_q_lat.wrapping_add(q.initial);
            self.resume_q_lat = self.resume_q_lat.wrapping_add(q.resume);
        }
    }

    /// The accumulated latencies, with no queue lengths.
    pub fn latencies(&self) -> (q: QueueLatencies)
        ensures
            q@ == (QueueLatenciesView {
                initial: self.initial_q_lat,
                resume: self.resume_q_lat,
                queue_lengths: Seq::empty(),
            }),
    {
        let q = QueueLatencies { initial: self.initial_q_lat, resume: self.resume_q_lat, queue_lengths: Vec::new() };
        assert(q@.queue_lengths =~= Seq::empty());
        q
    }

    /// Attaches the accumulated latencies to the response context `ctx`.
    pub fn inject_context_metadata(&self, ctx: &mut Context)
        ensures
            final(ctx)@ == (ContextView {
                queue_latencies: Some(
                    QueueLatenciesView {
                        initial: self.initial_q_lat,
                        resume: self.resume_q_lat,
                        queue_lengths: Seq::empty(),
                    },
                ),
                ..old(ctx)@
            }),
    {
        ctx.set_queue_latencies(self.latencies());
    }
}

} // verus!
