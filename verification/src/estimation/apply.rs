//! Feeding a finished request's observations to the server's estimators:
//! the per-edge after-child map, the per-method wall-clock map, and the
//! tables of learned fanout-group patterns.
use vstd::prelude::*;

use super::fanout::{completed_records, groups_of, recovered_groups, sort_by_start, PathPrefix};
use super::keys::{EstimateKey, ParentToChildKey, RootToLocalKey};
use super::latency_map::{view_or_initial, LatencyMap};
use super::patterns::{keyed_count, keyed_estimator_view, updated_patterns, FanoutPatternTable, PatternScope, PatternView};
use super::tracker::{flushed, multi_child_groups, ChildObservation, EstimationTracker, FanoutGroupUpdate, FlushObservations};
use crate::latency_estimator::LatencyEstimator;
use crate::sorting::{is_sorted, lemma_sorted_values};

verus! {

/// The map `m` after tracking `value` for `key`.
pub open spec fn tracked_in<K, E: LatencyEstimator>(m: Map<K, E::V>, key: K, value: u64) -> Map<K, E::V> {
    m.insert(key, E::tracked_view(view_or_initial::<K, E>(m, key), value))
}

/// The map `m` after tracking each (key, value) of `s`, in order.
pub open spec fn tracked_all<K, E: LatencyEstimator>(m: Map<K, E::V>, s: Seq<(K, u64)>) -> Map<K, E::V>
    decreases s.len(),
{
    if s.len() == 0 {
        m
    } else {
        tracked_in::<K, E>(tracked_all::<K, E>(m, s.drop_last()), s.last().0, s.last().1)
    }
}

/// The last-observation times `t` after observing each key of `s` at `now`.
pub open spec fn observed_all<K>(t: Map<K, u64>, s: Seq<(K, u64)>, now: u64) -> Map<K, u64>
    decreases s.len(),
{
    if s.len() == 0 {
        t
    } else {
        observed_all(t, s.drop_last(), now).insert(s.last().0, now)
    }
}

/// Whether each (key, value) of `s` can be tracked, in order, starting
/// from `m`.
pub open spec fn trackable_all<K, E: LatencyEstimator>(m: Map<K, E::V>, s: Seq<(K, u64)>) -> bool
    decreases s.len(),
{
    if s.len() == 0 {
        true
    } else {
        &&& trackable_all::<K, E>(m, s.drop_last())
        &&& E::trackable(view_or_initial::<K, E>(tracked_all::<K, E>(m, s.drop_last()), s.last().0), s.last().1)
    }
}

/// Whether the patterns `ps` can record a group with sorted signature
/// `sig` and post-join time `v` under (`root`, `parent`, `scope`).
pub open spec fn recordable<E: LatencyEstimator>(
    ps: Seq<PatternView<E::V>>,
    root: u64,
    parent: u64,
    scope: PatternScope,
    sig: Seq<u64>,
    v: u64,
) -> bool {
    &&& is_sorted(sig)
    &&& keyed_count(ps, root, parent, scope, sig) < u64::MAX
    &&& E::trackable(keyed_estimator_view::<E>(ps, root, parent, scope, sig), v)
}

/// The patterns `ps` after recording a group under its path prefix and in
/// aggregate.
pub open spec fn recorded_twice<E: LatencyEstimator>(
    ps: Seq<PatternView<E::V>>,
    root: u64,
    parent: u64,
    prefix: PathPrefix,
    sig: Seq<u64>,
    v: u64,
) -> Seq<PatternView<E::V>> {
    let path = updated_patterns::<E>(ps, root, parent, PatternScope::Path(prefix), sig, v);
    updated_patterns::<E>(path, root, parent, PatternScope::Aggregate, sig, v)
}

/// Whether both recordings of [`recorded_twice`] can be made.
pub open spec fn recordable_twice<E: LatencyEstimator>(
    ps: Seq<PatternView<E::V>>,
    root: u64,
    parent: u64,
    prefix: PathPrefix,
    sig: Seq<u64>,
    v: u64,
) -> bool {
    let path = updated_patterns::<E>(ps, root, parent, PatternScope::Path(prefix), sig, v);
    &&& recordable::<E>(ps, root, parent, PatternScope::Path(prefix), sig, v)
    &&& recordable::<E>(path, root, parent, PatternScope::Aggregate, sig, v)
}

/// The method-signature table `ps` and the service-signature table `ss`
/// after recording the groups `gs`, in order.
pub open spec fn groups_recorded<E: LatencyEstimator>(
    ps: Seq<PatternView<E::V>>,
    ss: Seq<PatternView<E::V>>,
    gs: Seq<FanoutGroupUpdate>,
) -> (Seq<PatternView<E::V>>, Seq<PatternView<E::V>>)
    decreases gs.len(),
{
    if gs.len() == 0 {
        (ps, ss)
    } else {
        let before = groups_recorded::<E>(ps, ss, gs.drop_last());
        let g = gs.last();
        (
            recorded_twice::<E>(before.0, g.root.0, g.parent.0, g.path_prefix, g.signature@, g.post_join_us),
            recorded_twice::<E>(
                before.1,
                g.root.0,
                g.parent.0,
                g.service_path_prefix,
                g.service_signature@,
                g.post_join_us,
            ),
        )
    }
}

/// Whether the groups `gs` can be recorded, in order, starting from the
/// tables `ps` and `ss`.
pub open spec fn groups_recordable<E: LatencyEstimator>(
    ps: Seq<PatternView<E::V>>,
    ss: Seq<PatternView<E::V>>,
    gs: Seq<FanoutGroupUpdate>,
) -> bool
    decreases gs.len(),
{
    if gs.len() == 0 {
        true
    } else {
        let before = groups_recorded::<E>(ps, ss, gs.drop_last());
        let g = gs.last();
        &&& groups_recordable::<E>(ps, ss, gs.drop_last())
        &&& recordable_twice::<E>(before.0, g.root.0, g.parent.0, g.path_prefix, g.signature@, g.post_join_us)
        &&& recordable_twice::<E>(
            before.1,
            g.root.0,
            g.parent.0,
            g.service_path_prefix,
            g.service_signature@,
            g.post_join_us,
        )
    }
}

proof fn lemma_trackable_prefix<K, E: LatencyEstimator>(m: Map<K, E::V>, s: Seq<(K, u64)>, i: int)
    requires
        0 <= i <= s.len(),
        trackable_all::<K, E>(m, s),
    ensures
        trackable_all::<K, E>(m, s.take(i)),
    decreases s.len() - i,
{
    if i < s.len() {
        lemma_trackable_prefix::<K, E>(m, s, i + 1);
        assert(s.take(i + 1).drop_last() =~= s.take(i));
    } else {
        assert(s.take(i) =~= s);
    }
}

proof fn lemma_recordable_prefix<E: LatencyEstimator>(
    ps: Seq<PatternView<E::V>>,
    ss: Seq<PatternView<E::V>>,
    gs: Seq<FanoutGroupUpdate>,
    i: int,
)
    requires
        0 <= i <= gs.len(),
        groups_recordable::<E>(ps, ss, gs),
    ensures
        groups_recordable::<E>(ps, ss, gs.take(i)),
    decreases gs.len() - i,
{
    if i < gs.len() {
        lemma_recordable_prefix::<E>(ps, ss, gs, i + 1);
        assert(gs.take(i + 1).drop_last() =~= gs.take(i));
    } else {
        assert(gs.take(i) =~= gs);
    }
}

proof fn lemma_multi_child_groups_in_range(obs: Seq<super::fanout::GroupObs>, n: nat)
    ensures
        forall|j: int|
            0 <= j < multi_child_groups(obs, n).len() ==> 0 <= #[trigger] multi_child_groups(obs, n)[j] < n,
    decreases n,
{
    if n > 0 {
        let rest = multi_child_groups(obs, (n - 1) as nat);
        lemma_multi_child_groups_in_range(obs, (n - 1) as nat);
        assert forall|j: int| 0 <= j < multi_child_groups(obs, n).len() implies 0 <= #[trigger] multi_child_groups(
            obs,
            n,
        )[j] < n by {
            if j < rest.len() {
                assert(multi_child_groups(obs, n)[j] == rest[j]);
            }
        }
    }
}

/// Law: every fanout group that a flush hands out has sorted method and
/// service signatures, as the pattern tables need to record it.
pub proof fn law_flushed_signatures_sorted(
    s0: EstimationTracker,
    s1: EstimationTracker,
    parent_end: u64,
    fanout_enabled: bool,
    r: FlushObservations,
    j: int,
)
    requires
        flushed(s0, s1, parent_end, fanout_enabled, r),
        0 <= j < r.groups@.len(),
    ensures
        is_sorted(r.groups@[j].signature@),
        is_sorted(r.groups@[j].service_signature@),
{
    let obs = recovered_groups(s0.fanout.children@, parent_end);
    let gs = groups_of(sort_by_start(completed_records(s0.fanout.children@)));
    let idx = multi_child_groups(obs, obs.len());
    lemma_multi_child_groups_in_range(obs, obs.len());
    let i = idx[j];
    assert(0 <= i < obs.len());
    lemma_sorted_values(gs[i].ids);
    lemma_sorted_values(gs[i].service_ids);
}

/// Tracks each (key, value) of `s`, in order, into `map`, as observed at
/// `now`.
fn track_each_at<K: EstimateKey, E: LatencyEstimator>(map: &mut LatencyMap<K, E>, s: &Vec<(K, u64)>, now: u64)
    requires
        old(map).wf(),
        trackable_all::<K, E>(old(map)@, s@),
    ensures
        final(map).wf(),
        final(map)@ == tracked_all::<K, E>(old(map)@, s@),
        final(map).last_observations() == observed_all(old(map).last_observations(), s@, now),
{
    let ghost m0 = map@;
    let ghost t0 = map.last_observations();
    let mut i: usize = 0;
    while i < s.len()
        invariant
            0 <= i <= s@.len(),
            map.wf(),
            map@ == tracked_all::<K, E>(m0, s@.take(i as int)),
            map.last_observations() == observed_all(t0, s@.take(i as int), now),
            trackable_all::<K, E>(m0, s@),
        decreases s@.len() - i,
    {
        let (k, v) = s[i];
        proof {
            lemma_trackable_prefix::<K, E>(m0, s@, i + 1);
            assert(s@.take(i + 1).drop_last() =~= s@.take(i as int));
            assert(s@.take(i + 1).last() == s@[i as int]);
        }
        map.track_at(k, v, now);
        i = i + 1;
    }
    assert(s@.take(s@.len() as int) =~= s@);
}

/// Records a group with signature `sig` under its path prefix and in
/// aggregate.
fn record_twice<E: LatencyEstimator>(
    table: &mut FanoutPatternTable<E>,
    root: u64,
    parent: u64,
    prefix: PathPrefix,
    sig: &Vec<u64>,
    v: u64,
)
    requires
        old(table).wf(),
        recordable_twice::<E>(old(table)@, root, parent, prefix, sig@, v),
    ensures
        final(table).wf(),
        final(table)@ == recorded_twice::<E>(old(table)@, root, parent, prefix, sig@, v),
{
    table.update(root, parent, PatternScope::Path(prefix), sig.clone(), v);
    table.update(root, parent, PatternScope::Aggregate, sig.clone(), v);
}

/// Records the fanout group `g` into the method-signature table `patterns`
/// and the service-signature table `service_patterns`, each under the
/// group's path prefix and in aggregate.
pub fn track_fanout_group<E: LatencyEstimator>(
    patterns: &mut FanoutPatternTable<E>,
    service_patterns: &mut FanoutPatternTable<E>,
    g: &FanoutGroupUpdate,
)
    requires
        old(patterns).wf(),
        old(service_patterns).wf(),
        groups_recordable::<E>(old(patterns)@, old(service_patterns)@, seq![*g]),
    ensures
        final(patterns).wf(),
        final(service_patterns).wf(),
        (final(patterns)@, final(service_patterns)@) == groups_recorded::<E>(
            old(patterns)@,
            old(service_patterns)@,
            seq![*g],
        ),
{
    proof {
        assert(seq![*g].drop_last() =~= Seq::<FanoutGroupUpdate>::empty());
    }
    record_twice(patterns, g.root.0, g.parent.0, g.path_prefix, &g.signature, g.post_join_us);
    record_twice(service_patterns, g.root.0, g.parent.0, g.service_path_prefix, &g.service_signature, g.post_join_us);
}

/// Feeds the observation of a finished child call, made at `now`, to the
/// per-edge child wall-clock map `child`: a wall-clock time is tracked for
/// its edge with `now` as the edge's last observation; the other
/// observations leave the map unchanged.
pub fn apply_child_observation<E: LatencyEstimator>(
    obs: ChildObservation,
    child: &mut LatencyMap<ParentToChildKey, E>,
    now: u64,
)
    requires
        old(child).wf(),
        obs matches ChildObservation::ChildWallclock(k, v) ==> E::trackable(
            view_or_initial::<ParentToChildKey, E>(old(child)@, k),
            v,
        ),
    ensures
        final(child).wf(),
        match obs {
            ChildObservation::ChildWallclock(k, v) => {
                &&& final(child)@ == tracked_in::<ParentToChildKey, E>(old(child)@, k, v)
                &&& final(child).last_observations() == old(child).last_observations().insert(k, now)
            },
            _ => {
                &&& final(child)@ == old(child)@
                &&& final(child).last_observations() == old(child).last_observations()
            },
        },
{
    match obs {
        ChildObservation::ChildWallclock(k, v) => child.track_at(k, v, now),
        _ => {},
    }
}

/// Feeds the observations `obs` of a finished request to the server's
/// estimators: each after-child time into the per-edge map `after_child`;
/// each fanout group into the method-signature table `patterns` and the
/// service-signature table `service_patterns`, each under the group's path
/// prefix and in aggregate; and the method's wall-clock time, when there is
/// one, into `method_wallclock`. The after-child times are observed at
/// `now`, which becomes their edges' last observation time.
pub fn apply_flush<E: LatencyEstimator>(
    obs: &FlushObservations,
    now: u64,
    after_child: &mut LatencyMap<ParentToChildKey, E>,
    patterns: &mut FanoutPatternTable<E>,
    service_patterns: &mut FanoutPatternTable<E>,
    method_wallclock: &mut LatencyMap<RootToLocalKey, E>,
)
    requires
        old(after_child).wf(),
        old(patterns).wf(),
        old(service_patterns).wf(),
        old(method_wallclock).wf(),
        trackable_all::<ParentToChildKey, E>(old(after_child)@, obs.after_child@),
        groups_recordable::<E>(old(patterns)@, old(service_patterns)@, obs.groups@),
        obs.method_wallclock matches Some((k, v)) ==> E::trackable(
            view_or_initial::<RootToLocalKey, E>(old(method_wallclock)@, k),
            v,
        ),
    ensures
        final(after_child).wf(),
        final(patterns).wf(),
        final(service_patterns).wf(),
        final(method_wallclock).wf(),
        final(after_child)@ == tracked_all::<ParentToChildKey, E>(old(after_child)@, obs.after_child@),
        final(after_child).last_observations() == observed_all(
            old(after_child).last_observations(),
            obs.after_child@,
            now,
        ),
        (final(patterns)@, final(service_patterns)@) == groups_recorded::<E>(
            old(patterns)@,
            old(service_patterns)@,
            obs.groups@,
        ),
        final(method_wallclock)@ == match obs.method_wallclock {
            Some((k, v)) => tracked_in::<RootToLocalKey, E>(old(method_wallclock)@, k, v),
            None => old(method_wallclock)@,
        },
{
    track_each_at(after_child, &obs.after_child, now);
    let ghost ps0 = patterns@;
    let ghost ss0 = service_patterns@;
    let mut i: usize = 0;
    while i < obs.groups.len()
        invariant
            0 <= i <= obs.groups@.len(),
            patterns.wf(),
            service_patterns.wf(),
            (patterns@, service_patterns@) == groups_recorded::<E>(ps0, ss0, obs.groups@.take(i as int)),
            groups_recordable::<E>(ps0, ss0, obs.groups@),
        decreases obs.groups@.len() - i,
    {
        let g = &obs.groups[i];
        proof {
            lemma_recordable_prefix::<E>(ps0, ss0, obs.groups@, i + 1);
            assert(obs.groups@.take(i + 1).drop_last() =~= obs.groups@.take(i as int));
            assert(obs.groups@.take(i + 1).last() == obs.groups@[i as int]);
        }
        record_twice(patterns, g.root.0, g.parent.0, g.path_prefix, &g.signature, g.post_join_us);
        record_twice(service_patterns, g.root.0, g.parent.0, g.service_path_prefix, &g.service_signature, g.post_join_us);
        i = i + 1;
    }
    assert(obs.groups@.take(obs.groups@.len() as int) =~= obs.groups@);
    match obs.method_wallclock {
        Some((k, v)) => method_wallclock.track(k, v),
        None => {},
    }
}

} // verus!
