//! The per-request state that every scheduling policy keeps: the request's
//! context, its end-to-end deadline guard and its queue-latency account.
use vstd::prelude::*;

use crate::context::{Context, ContextBuilder, ContextView, QueueLatenciesView};
use crate::deadline::{guard_outcome, slo_abort_decision, SloAbortHandler, SloAbortView};
use crate::queue_latency::{polled, QueueLatencyTracker};

verus! {

/// The state common to every policy's handling of one request.
#[derive(Debug)]
pub struct BaseHookState {
    /// The request's context.
    pub ctx: Context,
    /// The queue latencies of the request and its children.
    pub q_lat_tracker: QueueLatencyTracker,
    /// The end-to-end deadline guard.
    pub slo_abort: SloAbortHandler,
}

impl BaseHookState {
    /// The state of a request to `service`::`method` with context `ctx`.
    pub fn new(ctx: Context, service: &str, method: &str) -> (b: BaseHookState)
        ensures
            b.ctx@ == ctx@,
            b.q_lat_tracker == (QueueLatencyTracker { initial_q_lat: 0, resume_q_lat: 0, is_first_poll: true }),
            b.slo_abort@ == (SloAbortView { will_abort: false, service: service@, method: method@, last_child: None }),
    {
        BaseHookState {
            slo_abort: SloAbortHandler::new(service, method),
            q_lat_tracker: QueueLatencyTracker::new(),
            ctx,
        }
    }

    /// Checks the end-to-end deadline guard at `now`; an aborted request
    /// gets its early-return message.
    pub fn check_guards(&mut self, now: u64, abort_slo: bool) -> (r: Result<(), String>)
        requires
            old(self).ctx@.gateway_entry + old(self).ctx@.slo <= u64::MAX,
        ensures
            ({
                let d = slo_abort_decision(
                    abort_slo,
                    old(self).slo_abort@.will_abort,
                    old(self).ctx@.gateway_entry + old(self).ctx@.slo,
                    old(self).ctx@.deadline,
                    now,
                );
                &&& final(self).slo_abort@ == (SloAbortView {
                    will_abort: old(self).slo_abort@.will_abort || d,
                    ..old(self).slo_abort@
                })
                &&& guard_outcome(final(self).slo_abort@, d, r)
            }),
            final(self).ctx == old(self).ctx,
            final(self).q_lat_tracker == old(self).q_lat_tracker,
    {
        if self.slo_abort.check(&self.ctx, now, abort_slo) {
            return Err(self.slo_abort.issue_error());
        }
        Ok(())
    }

    /// After a poll: a pending one is checked as in
    /// [`Self::check_guards`]; a ready one passes unchecked.
    pub fn check_pending_guards(&mut self, pending: bool, now: u64, abort_slo: bool) -> (r: Result<(), String>)
        requires
            old(self).ctx@.gateway_entry + old(self).ctx@.slo <= u64::MAX,
        ensures
            !pending ==> r is Ok && final(self).slo_abort@ == old(self).slo_abort@,
            pending ==> ({
                let d = slo_abort_decision(
                    abort_slo,
                    old(self).slo_abort@.will_abort,
                    old(self).ctx@.gateway_entry + old(self).ctx@.slo,
                    old(self).ctx@.deadline,
                    now,
                );
                &&& final(self).slo_abort@ == (SloAbortView {
                    will_abort: old(self).slo_abort@.will_abort || d,
                    ..old(self).slo_abort@
                })
                &&& guard_outcome(final(self).slo_abort@, d, r)
            }),
            final(self).ctx == old(self).ctx,
            final(self).q_lat_tracker == old(self).q_lat_tracker,
    {
        if pending {
            return self.check_guards(now, abort_slo);
        }
        Ok(())
    }

    /// Records the queue latency before a poll.
    pub fn track_poll(&mut self, queue_latency_us: u64)
        ensures
            final(self).ctx == old(self).ctx,
            final(self).slo_abort == old(self).slo_abort,
            final(self).q_lat_tracker == polled(old(self).q_lat_tracker, queue_latency_us),
    {
        self.q_lat_tracker.track_poll(queue_latency_us);
    }

    /// After the child call `service`::`method` returned: it becomes the
    /// last child named in the early-return message.
    pub fn update_after_child(&mut self, service: &str, method: &str)
        ensures
            final(self).slo_abort@ == (SloAbortView { last_child: Some((service@, method@)), ..old(self).slo_abort@ }),
            final(self).ctx == old(self).ctx,
            final(self).q_lat_tracker == old(self).q_lat_tracker,
    {
        self.slo_abort.set_last_child(service, method);
    }

    /// The context attached to the response: the request's context with
    /// the accumulated queue latencies.
    pub fn finalize(&self) -> (c: Context)
        ensures
            c@ == (ContextView {
                queue_latencies: Some(
                    QueueLatenciesView {
                        initial: self.q_lat_tracker.initial_q_lat,
                        resume: self.q_lat_tracker.resume_q_lat,
                        queue_lengths: Seq::empty(),
                    },
                ),
                ..self.ctx@
            }),
    {
        let mut c = ContextBuilder::from(&self.ctx).build();
        self.q_lat_tracker.inject_context_metadata(&mut c);
        c
    }
}

} // verus!
