//! The per-request estimation lifecycle: child calls are recorded as they
//! are issued and complete, and at the end of the request the recorded
//! timings are turned into observations for the server's estimators.
use vstd::prelude::*;

use super::fanout::{
    completed_records, end_of, prefix_after, recover_group_observations, recover_path_groups,
    recovered_groups, root_prefix, ChildRecord, GroupObs, PathPrefix,
};
use super::keys::{ParentToChildKey, RootToLocalKey};
use crate::deadline::sat_sub;
use crate::registry::MethodId;
use crate::sorting::{is_sorted, lemma_sorted_values, sort_values, sorted_values};

verus! {

/// The number of leading records of `s` that are terminal.
pub open spec fn leading_terminal(s: Seq<ChildRecord>) -> nat
    decreases s.len(),
{
    if s.len() == 0 || !s[0].terminal {
        0
    } else {
        1 + leading_terminal(s.drop_first())
    }
}

/// `p` extended by the first `n` groups of `obs`, by their signatures
/// (`service` false) or service signatures (`service` true).
pub open spec fn extend_prefix(p: PathPrefix, obs: Seq<GroupObs>, n: nat, service: bool) -> PathPrefix
    decreases n,
{
    if n == 0 {
        p
    } else {
        prefix_after(
            extend_prefix(p, obs, (n - 1) as nat, service),
            if service { obs[n - 1].service_signature } else { obs[n - 1].signature },
        )
    }
}

/// The child calls of one handler invocation, and the path prefix formed
/// by the fanout groups that completed before the current open group.
#[derive(Debug, Clone)]
pub struct FanoutInvocationState {
    /// All child calls issued by the invocation, in issue order.
    pub children: Vec<ChildRecord>,
    /// Prefix of the groups completed before the current open group.
    pub path_prefix: PathPrefix,
    /// Service-shape version of `path_prefix`.
    pub service_path_prefix: PathPrefix,
    /// Number of leading child records folded into the prefixes.
    pub incorporated_child_count: usize,
}

impl Default for FanoutInvocationState {
    fn default() -> (s: FanoutInvocationState)
        ensures
            s.children@.len() == 0,
            s.path_prefix == root_prefix(),
            s.service_path_prefix == root_prefix(),
            s.incorporated_child_count == 0,
    {
        FanoutInvocationState {
            children: Vec::new(),
            path_prefix: PathPrefix::root(),
            service_path_prefix: PathPrefix::root(),
            incorporated_child_count: 0,
        }
    }
}

/// The state after folding in the completed groups: the records after the
/// incorporated ones, up to the first non-terminal one, are grouped (for a
/// parent time of `now`) and appended to the prefixes.
pub open spec fn refreshed(s: FanoutInvocationState, now: u64) -> (PathPrefix, PathPrefix, nat) {
    let inc = s.incorporated_child_count as int;
    if inc >= s.children@.len() {
        (s.path_prefix, s.service_path_prefix, inc as nat)
    } else {
        let pending = s.children@.subrange(inc, s.children@.len() as int);
        let t = leading_terminal(pending);
        if t == 0 {
            (s.path_prefix, s.service_path_prefix, inc as nat)
        } else {
            let obs = recovered_groups(pending.take(t as int), now);
            (
                extend_prefix(s.path_prefix, obs, obs.len(), false),
                extend_prefix(s.service_path_prefix, obs, obs.len(), true),
                (inc + t) as nat,
            )
        }
    }
}

impl FanoutInvocationState {
    /// Folds the groups that completed before the current open group into
    /// the path prefixes: the not yet incorporated records up to the first
    /// non-terminal one.
    pub fn refresh_path_prefix_before_open_group(&mut self, now: u64)
        ensures
            final(self).children@ == old(self).children@,
            refreshed(*old(self), now) == (
                final(self).path_prefix,
                final(self).service_path_prefix,
                final(self).incorporated_child_count as nat,
            ),
    {
        let inc = self.incorporated_child_count;
        let n = self.children.len();
        if inc >= n {
            return;
        }
        let ghost pending = self.children@.subrange(inc as int, n as int);
        let mut t: usize = 0;
        assert(pending.skip(0) =~= pending);
        while inc + t < n && self.children[inc + t].terminal
            invariant
                inc < n,
                n == self.children@.len(),
                0 <= t <= n - inc,
                pending == self.children@.subrange(inc as int, n as int),
                leading_terminal(pending) == t + leading_terminal(pending.skip(t as int)),
            decreases n - inc - t,
        {
            assert(pending.skip(t as int).drop_first() =~= pending.skip(t + 1));
            assert(pending.skip(t as int)[0] == self.children@[inc + t]);
            t = t + 1;
        }
        proof {
            if inc + t < n {
                assert(pending.skip(t as int)[0] == self.children@[inc + t]);
            }
        }
        if t == 0 {
            return;
        }
        let mut terminal: Vec<ChildRecord> = Vec::new();
        let mut k: usize = 0;
        while k < t
            invariant
                inc + t <= n,
                n == self.children@.len(),
                0 <= k <= t,
                terminal@ == self.children@.subrange(inc as int, (inc + k) as int),
            decreases t - k,
        {
            terminal.push(self.children[inc + k]);
            proof {
                assert(terminal@ =~= self.children@.subrange(inc as int, (inc + k + 1) as int));
            }
            k = k + 1;
        }
        assert(terminal@ =~= pending.take(t as int));
        let groups = recover_group_observations(terminal.as_slice(), now);
        let ghost obs = recovered_groups(pending.take(t as int), now);
        let ghost p0 = self.path_prefix;
        let ghost s0 = self.service_path_prefix;
        let mut g: usize = 0;
        while g < groups.len()
            invariant
                0 <= g <= groups@.len(),
                groups@.len() == obs.len(),
                forall|j: int|
                    0 <= j < groups@.len() ==> (#[trigger] groups@[j]).signature@ == obs[j].signature
                        && groups@[j].service_signature@ == obs[j].service_signature,
                self.path_prefix == extend_prefix(p0, obs, g as nat, false),
                self.service_path_prefix == extend_prefix(s0, obs, g as nat, true),
                self.children@ == old(self).children@,
                self.incorporated_child_count == inc,
            decreases groups@.len() - g,
        {
            let grp = &groups[g];
            self.path_prefix = self.path_prefix.append_signature(grp.signature.as_slice());
            self.service_path_prefix = self.service_path_prefix.append_signature(
                grp.service_signature.as_slice(),
            );
            g = g + 1;
        }
        self.incorporated_child_count = inc + t;
    }
}

/// The timing state of one child call, created when the call is issued.
#[derive(Debug, Clone)]
pub struct ChildRPCTracker {
    pub key: ParentToChildKey,
    /// Index of the call's record among the invocation's child records.
    pub child_index: usize,
    /// Observable path prefix before the call's fanout group.
    pub path_prefix: PathPrefix,
    /// Sorted ids of the still-open earlier children and this child: a
    /// lower bound on the signature of the call's eventual group.
    pub base_signature: Vec<u64>,
    pub service_path_prefix: PathPrefix,
    pub base_service_signature: Vec<u64>,
    pub child_id: MethodId,
    pub start_time: u64,
}

impl ChildRPCTracker {
    /// Microseconds elapsed since the call started (0 if `now` is earlier).
    pub fn elapsed_us(&self, now: u64) -> (r: u64)
        ensures
            r == (if now >= self.start_time { (now - self.start_time) as u64 } else { 0 }),
    {
        now.saturating_sub(self.start_time)
    }
}

/// How a child call ended.
#[derive(Debug, Clone, Copy, PartialEq, Eq, Structural)]
pub enum ChildOutcome {
    /// The child returned early (an early-return response).
    EarlyReturn,
    /// The child returned normally, but some hop below it tripped its soft
    /// deadline signal.
    Signaled,
    /// The child returned normally.
    Completed,
}

/// What a completed child call contributes to the server's estimators.
#[derive(Debug, Clone, Copy, PartialEq, Eq, Structural)]
pub enum ChildObservation {
    /// Early-return feedback for the edge.
    EarlyReturnFeedback(ParentToChildKey),
    /// The child's wall-clock time on the edge.
    ChildWallclock(ParentToChildKey, u64),
    /// Nothing is tracked.
    Skipped,
}

/// One fanout group to record in the server's pattern table.
#[derive(Debug, Clone)]
pub struct FanoutGroupUpdate {
    pub root: MethodId,
    pub parent: MethodId,
    pub path_prefix: PathPrefix,
    pub signature: Vec<u64>,
    pub service_path_prefix: PathPrefix,
    pub service_signature: Vec<u64>,
    pub post_join_us: u64,
}

/// The observations a request contributes to the server's estimators when
/// it finishes.
#[derive(Debug, Clone)]
pub struct FlushObservations {
    /// Per completed child: the time from its end to the parent's end.
    pub after_child: Vec<(ParentToChildKey, u64)>,
    /// The recovered fanout groups of more than one child.
    pub groups: Vec<FanoutGroupUpdate>,
    /// The method's total wall-clock time, when the root method is known.
    pub method_wallclock: Option<(RootToLocalKey, u64)>,
}

/// The ids of the records of `s` that are not terminal, in order.
pub open spec fn open_ids(s: Seq<ChildRecord>, service: bool) -> Seq<u64>
    decreases s.len(),
{
    if s.len() == 0 {
        Seq::empty()
    } else {
        let rest = open_ids(s.drop_last(), service);
        let c = s.last();
        if c.terminal {
            rest
        } else {
            rest.push(if service { c.child_service_id.0 } else { c.child_id.0 })
        }
    }
}

/// Whether some record of `s` is not terminal.
pub open spec fn has_open(s: Seq<ChildRecord>) -> bool {
    exists|i: int| 0 <= i < s.len() && !(#[trigger] s[i]).terminal
}

/// Per-request estimation state: the method, the root method of the call
/// tree if known, the invocation's child calls, and when the request began.
#[derive(Debug)]
pub struct EstimationTracker {
    pub resolved_method_id: MethodId,
    pub root_method_id: Option<MethodId>,
    pub fanout: FanoutInvocationState,
    pub request_start: u64,
}

/// The root method, or the method itself when the root is unknown.
pub open spec fn root_or_self_of(t: EstimationTracker) -> MethodId {
    match t.root_method_id {
        Some(r) => r,
        None => t.resolved_method_id,
    }
}

/// `s1` is `s0` after beginning the call to `child_id` (of service
/// `child_service_id`) at `now`, and `t` is the call's tracker; see
/// [`EstimationTracker::begin_child`].
pub open spec fn began_child(
    s0: EstimationTracker,
    s1: EstimationTracker,
    child_id: MethodId,
    child_service_id: MethodId,
    now: u64,
    fanout_enabled: bool,
    t: ChildRPCTracker,
) -> bool {
    let f0 = s0.fanout;
    let open = has_open(f0.children@);
    let (p, sp, inc) = if fanout_enabled && open {
        refreshed(f0, now)
    } else {
        (f0.path_prefix, f0.service_path_prefix, f0.incorporated_child_count as nat)
    };
    &&& t.key == ParentToChildKey(root_or_self_of(s0), s0.resolved_method_id, child_id)
    &&& t.child_id == child_id
    &&& t.start_time == now
    &&& t.child_index == f0.children@.len()
    &&& s1.fanout.children@ == f0.children@.push(
        ChildRecord { child_id, child_service_id, start: now, end: None, terminal: false },
    )
    &&& s1.fanout.path_prefix == p
    &&& s1.fanout.service_path_prefix == sp
    &&& s1.fanout.incorporated_child_count == inc
    &&& if fanout_enabled {
        &&& t.path_prefix == p
        &&& t.service_path_prefix == sp
        &&& t.base_signature@ == sorted_values(open_ids(f0.children@, false).push(child_id.0))
        &&& t.base_service_signature@ == sorted_values(open_ids(f0.children@, true).push(child_service_id.0))
    } else {
        &&& t.path_prefix == root_prefix()
        &&& t.service_path_prefix == root_prefix()
        &&& t.base_signature@ == seq![child_id.0]
        &&& t.base_service_signature@ == seq![child_service_id.0]
    }
    &&& s1.resolved_method_id == s0.resolved_method_id
    &&& s1.root_method_id == s0.root_method_id
    &&& s1.request_start == s0.request_start
}

/// `s1` is `s0` after flushing at `parent_end`, and `r` holds the
/// observations; see [`EstimationTracker::flush`].
pub open spec fn flushed(
    s0: EstimationTracker,
    s1: EstimationTracker,
    parent_end: u64,
    fanout_enabled: bool,
    r: FlushObservations,
) -> bool {
    let obs = recovered_groups(s0.fanout.children@, parent_end);
    let idx = multi_child_groups(obs, obs.len());
    &&& s1.fanout.children@.len() == 0
    &&& s1.fanout.path_prefix == root_prefix()
    &&& s1.fanout.service_path_prefix == root_prefix()
    &&& s1.fanout.incorporated_child_count == 0
    &&& s1.resolved_method_id == s0.resolved_method_id
    &&& s1.root_method_id == s0.root_method_id
    &&& s1.request_start == s0.request_start
    &&& r.after_child@ == after_child_observations(
        s0.fanout.children@,
        root_or_self_of(s0),
        s0.resolved_method_id,
        parent_end,
    )
    &&& if fanout_enabled {
        &&& r.groups@.len() == idx.len()
        &&& forall|j: int|
            0 <= j < idx.len() ==> group_update_matches(
                #[trigger] r.groups@[j],
                obs,
                idx[j],
                root_or_self_of(s0),
                s0.resolved_method_id,
            )
    } else {
        r.groups@.len() == 0
    }
    &&& r.method_wallclock == match s0.root_method_id {
        Some(root) => Some((RootToLocalKey(root, s0.resolved_method_id), sat_sub(parent_end, s0.request_start))),
        None => None::<(RootToLocalKey, u64)>,
    }
}

/// `s1` is `s0` after the call of `tracker` ended at `now` with `outcome`,
/// and `r` is the observation it yields; see
/// [`EstimationTracker::record_child_complete`].
pub open spec fn recorded_child(
    s0: EstimationTracker,
    s1: EstimationTracker,
    tracker: ChildRPCTracker,
    outcome: ChildOutcome,
    now: u64,
    r: ChildObservation,
) -> bool {
    let cs = s0.fanout.children@;
    let i = tracker.child_index as int;
    let updated = if i < cs.len() {
        cs.update(
            i,
            ChildRecord {
                end: if outcome == ChildOutcome::EarlyReturn { cs[i].end } else { Some(now) },
                terminal: true,
                ..cs[i]
            },
        )
    } else {
        cs
    };
    &&& s1.resolved_method_id == s0.resolved_method_id
    &&& s1.root_method_id == s0.root_method_id
    &&& s1.request_start == s0.request_start
    &&& s1.fanout.path_prefix == s0.fanout.path_prefix
    &&& s1.fanout.service_path_prefix == s0.fanout.service_path_prefix
    &&& s1.fanout.incorporated_child_count == s0.fanout.incorporated_child_count
    &&& s1.fanout.children@ == updated
    &&& r == match outcome {
        ChildOutcome::EarlyReturn => ChildObservation::EarlyReturnFeedback(tracker.key),
        ChildOutcome::Signaled => ChildObservation::Skipped,
        ChildOutcome::Completed => ChildObservation::ChildWallclock(tracker.key, sat_sub(now, tracker.start_time)),
    }
}

impl EstimationTracker {
    /// A tracker for a request to `resolved_method_id` that began at
    /// `request_start`.
    pub fn new(resolved_method_id: MethodId, root_method_id: Option<MethodId>, request_start: u64) -> (t: EstimationTracker)
        ensures
            t.resolved_method_id == resolved_method_id,
            t.root_method_id == root_method_id,
            t.request_start == request_start,
            t.fanout.children@.len() == 0,
            t.fanout.path_prefix == root_prefix(),
            t.fanout.service_path_prefix == root_prefix(),
            t.fanout.incorporated_child_count == 0,
    {
        EstimationTracker {
            resolved_method_id,
            root_method_id,
            fanout: FanoutInvocationState::default(),
            request_start,
        }
    }

    /// The root method, falling back to the method itself.
    pub fn root_or_self(&self) -> (r: MethodId)
        ensures
            r == root_or_self_of(*self),
    {
        match self.root_method_id {
            Some(r) => r,
            None => self.resolved_method_id,
        }
    }

    /// The key of the method's total wall-clock time, when the root method
    /// is known.
    pub fn method_wallclock_key(&self) -> (r: Option<RootToLocalKey>)
        ensures
            r == match self.root_method_id {
                Some(root) => Some(RootToLocalKey(root, self.resolved_method_id)),
                None => None::<RootToLocalKey>,
            },
    {
        match self.root_method_id {
            Some(root) => Some(RootToLocalKey::root_rpc_method(root).local_rpc_method(self.resolved_method_id)),
            None => None,
        }
    }

    /// The ids of the still-open children (or their services), in order.
    fn open_child_ids(&self, service: bool) -> (r: Vec<u64>)
        ensures
            r@ == open_ids(self.fanout.children@, service),
    {
        let ghost s = self.fanout.children@;
        let mut r: Vec<u64> = Vec::new();
        let mut i: usize = 0;
        assert(s.take(0) =~= Seq::<ChildRecord>::empty());
        while i < self.fanout.children.len()
            invariant
                0 <= i <= s.len(),
                s == self.fanout.children@,
                r@ == open_ids(s.take(i as int), service),
            decreases s.len() - i,
        {
            let c = self.fanout.children[i];
            assert(s.take(i + 1).drop_last() =~= s.take(i as int));
            assert(s.take(i + 1).last() == c);
            if !c.terminal {
                if service {
                    r.push(c.child_service_id.0);
                } else {
                    r.push(c.child_id.0);
                }
            }
            i = i + 1;
        }
        assert(s.take(s.len() as int) =~= s);
        r
    }

    /// Whether some child is still open.
    fn has_open_children(&self) -> (r: bool)
        ensures
            r == has_open(self.fanout.children@),
    {
        let mut i: usize = 0;
        while i < self.fanout.children.len()
            invariant
                0 <= i <= self.fanout.children@.len(),
                forall|k: int| 0 <= k < i ==> (#[trigger] self.fanout.children@[k]).terminal,
            decreases self.fanout.children@.len() - i,
        {
            if !self.fanout.children[i].terminal {
                return true;
            }
            i = i + 1;
        }
        false
    }

    /// Records the issue of a child call to `child_id` (of service
    /// `child_service_id`) at `now`, and returns its tracker. With fanout
    /// estimation enabled, the completed groups are first folded into the
    /// path prefix when a sibling is still open, and the base signatures
    /// are the sorted ids of the open siblings and this child; otherwise
    /// the prefixes are the root prefix and the signatures this child alone.
    pub fn begin_child(
        &mut self,
        child_id: MethodId,
        child_service_id: MethodId,
        now: u64,
        fanout_enabled: bool,
    ) -> (t: ChildRPCTracker)
        requires
            old(self).fanout.children@.len() < usize::MAX,
        ensures
            began_child(*old(self), *final(self), child_id, child_service_id, now, fanout_enabled, t),
    {
        let root = self.root_or_self();
        let key = ParentToChildKey::root_rpc_method(root).parent_rpc_method(self.resolved_method_id).child_rpc_method(
            child_id,
        );
        let path_prefix;
        let service_path_prefix;
        let mut base_signature: Vec<u64>;
        let mut base_service_signature: Vec<u64>;
        if fanout_enabled {
            if self.has_open_children() {
                self.fanout.refresh_path_prefix_before_open_group(now);
            }
            path_prefix = self.fanout.path_prefix;
            service_path_prefix = self.fanout.service_path_prefix;
            base_signature = self.open_child_ids(false);
            base_signature.push(child_id.0);
            sort_values(&mut base_signature);
            base_service_signature = self.open_child_ids(true);
            base_service_signature.push(child_service_id.0);
            sort_values(&mut base_service_signature);
        } else {
            path_prefix = PathPrefix::root();
            service_path_prefix = PathPrefix::root();
            base_signature = Vec::new();
            base_signature.push(child_id.0);
            base_service_signature = Vec::new();
            base_service_signature.push(child_service_id.0);
        }
        let index = self.fanout.children.len();
        self.fanout.children.push(
            ChildRecord { child_id, child_service_id, start: now, end: None, terminal: false },
        );
        ChildRPCTracker {
            key,
            child_index: index,
            path_prefix,
            base_signature,
            service_path_prefix,
            base_service_signature,
            child_id,
            start_time: now,
        }
    }

    /// Records the end of the child call of `tracker` at `now`. An early
    /// return marks the record terminal without an end (so that it is left
    /// out of group recovery) and yields early-return feedback; a signaled
    /// child gets its end but no wall-clock observation; a normal return
    /// gets its end and yields its elapsed wall-clock time.
    pub fn record_child_complete(&mut self, tracker: &ChildRPCTracker, outcome: ChildOutcome, now: u64) -> (r:
        ChildObservation)
        ensures
            recorded_child(*old(self), *final(self), *tracker, outcome, now, r),
    {
        let i = tracker.child_index;
        let obs = match outcome {
            ChildOutcome::EarlyReturn => ChildObservation::EarlyReturnFeedback(tracker.key),
            ChildOutcome::Signaled => ChildObservation::Skipped,
            ChildOutcome::Completed => ChildObservation::ChildWallclock(tracker.key, tracker.elapsed_us(now)),
        };
        if i < self.fanout.children.len() {
            let mut record = self.fanout.children[i];
            if outcome != ChildOutcome::EarlyReturn {
                record.end = Some(now);
            }
            record.terminal = true;
            self.fanout.children.set(i, record);
        }
        obs
    }
}

/// The after-child observations of the completed records of `children`:
/// each child's edge key and the time from its end to `parent_end`.
pub open spec fn after_child_observations(
    children: Seq<ChildRecord>,
    root: MethodId,
    parent: MethodId,
    parent_end: u64,
) -> Seq<(ParentToChildKey, u64)> {
    completed_records(children).map_values(
        |c: ChildRecord| (ParentToChildKey(root, parent, c.child_id), sat_sub(parent_end, end_of(c))),
    )
}

/// The indices of the groups among the first `n` of `obs` that have more
/// than one child, in order.
pub open spec fn multi_child_groups(obs: Seq<GroupObs>, n: nat) -> Seq<int>
    decreases n,
{
    if n == 0 {
        Seq::empty()
    } else {
        let rest = multi_child_groups(obs, (n - 1) as nat);
        if obs[n - 1].signature.len() > 1 {
            rest.push(n - 1)
        } else {
            rest
        }
    }
}

/// Whether `u` records the group `i` of `obs` under (`root`, `parent`).
pub open spec fn group_update_matches(
    u: FanoutGroupUpdate,
    obs: Seq<GroupObs>,
    i: int,
    root: MethodId,
    parent: MethodId,
) -> bool {
    &&& u.root == root
    &&& u.parent == parent
    &&& u.path_prefix == super::fanout::prefix_through(obs, i as nat, false)
    &&& u.service_path_prefix == super::fanout::prefix_through(obs, i as nat, true)
    &&& u.signature@ == obs[i].signature
    &&& u.service_signature@ == obs[i].service_signature
    &&& u.post_join_us == obs[i].post_join_us
}

impl EstimationTracker {
    /// Ends the request at `parent_end`: clears the invocation state and
    /// returns the observations for the server's estimators: the
    /// after-child time of each completed child; with fanout estimation
    /// enabled, the recovered groups of more than one child with their path
    /// prefixes; and the method's total wall-clock time when the root
    /// method is known.
    pub fn flush(&mut self, parent_end: u64, fanout_enabled: bool) -> (r: FlushObservations)
        ensures
            flushed(*old(self), *final(self), parent_end, fanout_enabled, r),
    {
        let root = self.root_or_self();
        let parent = self.resolved_method_id;
        let mut fanout = FanoutInvocationState::default();
        std::mem::swap(&mut fanout, &mut self.fanout);
        let children = fanout.children;
        let ghost cs = children@;
        let mut after_child: Vec<(ParentToChildKey, u64)> = Vec::new();
        let mut i: usize = 0;
        assert(cs.take(0) =~= Seq::<ChildRecord>::empty());
        proof {
            reveal(Seq::filter);
            assert(completed_records(cs.take(0)) =~= Seq::<ChildRecord>::empty());
        }
        while i < children.len()
            invariant
                0 <= i <= cs.len(),
                cs == children@,
                after_child@ == after_child_observations(cs.take(i as int), root, parent, parent_end),
            decreases cs.len() - i,
        {
            let c = children[i];
            let ghost pre = cs.take(i as int);
            proof {
                reveal(Seq::filter);
                assert(cs.take(i + 1).drop_last() =~= pre);
                assert(cs.take(i + 1).last() == c);
            }
            match c.end {
                Some(end) => {
                    let key = ParentToChildKey::root_rpc_method(root).parent_rpc_method(parent).child_rpc_method(
                        c.child_id,
                    );
                    after_child.push((key, parent_end.saturating_sub(end)));
                    proof {
                        assert(completed_records(cs.take(i + 1)) == completed_records(pre).push(c));
                        assert(after_child@ =~= after_child_observations(cs.take(i + 1), root, parent, parent_end));
                    }
                },
                None => {
                    proof {
                        assert(completed_records(cs.take(i + 1)) == completed_records(pre));
                    }
                },
            }
            i = i + 1;
        }
        assert(cs.take(cs.len() as int) =~= cs);
        let mut groups: Vec<FanoutGroupUpdate> = Vec::new();
        if fanout_enabled {
            let recovered = recover_path_groups(children.as_slice(), parent_end);
            let ghost obs = recovered_groups(cs, parent_end);
            let mut g: usize = 0;
            while g < recovered.len()
                invariant
                    0 <= g <= recovered@.len(),
                    recovered@.len() == obs.len(),
                    forall|k: int|
                        0 <= k < recovered@.len() ==> super::fanout::path_obs_matches(
                            #[trigger] recovered@[k],
                            obs,
                            k,
                        ),
                    groups@.len() == multi_child_groups(obs, g as nat).len(),
                    forall|j: int|
                        0 <= j < groups@.len() ==> group_update_matches(
                            #[trigger] groups@[j],
                            obs,
                            multi_child_groups(obs, g as nat)[j],
                            root,
                            parent,
                        ),
                decreases recovered@.len() - g,
            {
                let grp = &recovered[g];
                proof {
                    assert(super::fanout::path_obs_matches(recovered@[g as int], obs, g as int));
                }
                if grp.signature.len() > 1 {
                    groups.push(
                        FanoutGroupUpdate {
                            root,
                            parent,
                            path_prefix: grp.path_prefix,
                            signature: grp.signature.clone(),
                            service_path_prefix: grp.service_path_prefix,
                            service_signature: grp.service_signature.clone(),
                            post_join_us: grp.post_join_us,
                        },
                    );
                }
                g = g + 1;
            }
        }
        let method_wallclock = match self.method_wallclock_key() {
            Some(key) => Some((key, parent_end.saturating_sub(self.request_start))),
            None => None,
        };
        FlushObservations { after_child, groups, method_wallclock }
    }
}

} // verus!
