//! A map from keys to latency estimators.
use vstd::prelude::*;

use super::keys::EstimateKey;
use crate::latency_estimator::LatencyEstimator;

verus! {

/// Which of an estimator's estimates to read.
#[derive(Debug, Clone, Copy, PartialEq, Eq, Structural)]
pub enum EstimateKind {
    Full,
    Mean,
    Floor,
}

/// The estimate of kind `kind` of an estimator with view `v`.
pub open spec fn estimate_of_kind<E: LatencyEstimator>(v: E::V, kind: EstimateKind) -> u64 {
    match kind {
        EstimateKind::Full => E::estimate_of(v),
        EstimateKind::Mean => E::mean_estimate_of(v),
        EstimateKind::Floor => E::mean_floor_estimate_of(v),
    }
}

/// The index of an entry for `k` in `s`.
pub open spec fn key_index<K, E>(s: Seq<(K, E)>, k: K) -> int {
    choose|i: int| 0 <= i < s.len() && s[i].0 == k
}

/// Whether `s` holds an entry for `k`.
pub open spec fn has_key<K, E>(s: Seq<(K, E)>, k: K) -> bool {
    exists|i: int| 0 <= i < s.len() && s[i].0 == k
}

/// The map from keys to estimator views that the entries `s` represent.
pub open spec fn entries_view<K, E: View>(s: Seq<(K, E)>) -> Map<K, E::V> {
    Map::new(|k: K| has_key(s, k), |k: K| s[key_index(s, k)].1@)
}

/// The view of the estimator for `k`: its current view if present, the
/// view of a fresh estimator otherwise.
pub open spec fn view_or_initial<K, E: LatencyEstimator>(m: Map<K, E::V>, k: K) -> E::V {
    if m.dom().contains(k) { m[k] } else { E::initial_view() }
}

/// The time of the last observation of each key.
#[derive(Debug)]
pub struct ObservedAt<K> {
    times: Vec<(K, u64)>,
}

/// The map from keys to times that the pairs `s` represent.
pub open spec fn times_view<K>(s: Seq<(K, u64)>) -> Map<K, u64> {
    Map::new(|k: K| has_key(s, k), |k: K| s[key_index(s, k)].1)
}

impl<K: EstimateKey> ObservedAt<K> {
    /// The time of each key's last observation.
    pub closed spec fn times(&self) -> Map<K, u64> {
        times_view(self.times@)
    }

    /// Each key has one time.
    pub closed spec fn wf(&self) -> bool {
        forall|i: int, j: int|
            #![trigger self.times@[i], self.times@[j]]
            0 <= i < self.times@.len() && 0 <= j < self.times@.len() && i != j
                ==> self.times@[i].0 != self.times@[j].0
    }

    proof fn lemma_time_at(&self, i: int)
        requires
            self.wf(),
            0 <= i < self.times@.len(),
        ensures
            self.times().dom().contains(self.times@[i].0),
            self.times()[self.times@[i].0] == self.times@[i].1,
    {
        let s = self.times@;
        assert(has_key(s, s[i].0));
        let c = key_index(s, s[i].0);
        if c != i {
            assert(s[c].0 != s[i].0);
        }
    }

    /// No key observed yet.
    pub fn new() -> (o: Self)
        ensures
            o.wf(),
            o.times() == Map::<K, u64>::empty(),
    {
        let o = ObservedAt { times: Vec::new() };
        assert(o.times() =~= Map::<K, u64>::empty());
        o
    }

    fn find(&self, key: &K) -> (r: Option<usize>)
        requires
            self.wf(),
        ensures
            match r {
                Some(i) => i < self.times@.len() && self.times@[i as int].0 == *key,
                None => !self.times().dom().contains(*key),
            },
    {
        let mut i: usize = 0;
        while i < self.times.len()
            invariant
                0 <= i <= self.times@.len(),
                forall|j: int| 0 <= j < i ==> (#[trigger] self.times@[j]).0 != *key,
            decreases self.times@.len() - i,
        {
            if self.times[i].0.same_key(key) {
                proof {
                    K::lemma_ids_injective(self.times@[i as int].0, *key);
                }
                return Some(i);
            }
            i = i + 1;
        }
        None
    }

    /// The time of the last observation of `key`, if any.
    pub fn get(&self, key: K) -> (r: Option<u64>)
        requires
            self.wf(),
        ensures
            r == if self.times().dom().contains(key) {
                Some(self.times()[key])
            } else {
                None::<u64>
            },
    {
        match self.find(&key) {
            Some(i) => {
                proof {
                    self.lemma_time_at(i as int);
                }
                Some(self.times[i].1)
            },
            None => None,
        }
    }

    /// Records `now` as the time of the last observation of `key`.
    pub fn set(&mut self, key: K, now: u64)
        requires
            old(self).wf(),
        ensures
            final(self).wf(),
            final(self).times() == old(self).times().insert(key, now),
    {
        let ghost s0 = self.times@;
        match self.find(&key) {
            Some(i) => {
                self.times.set(i, (key, now));
            },
            None => {
                self.times.push((key, now));
            },
        }
        proof {
            let s = self.times@;
            let want = times_view(s0).insert(key, now);
            assert forall|a: int, b: int|
                #![trigger s[a], s[b]]
                0 <= a < s.len() && 0 <= b < s.len() && a != b implies s[a].0 != s[b].0 by {
                if a < s0.len() && b < s0.len() {
                    assert(s0[a].0 == s[a].0 && s0[b].0 == s[b].0);
                } else if a < s0.len() {
                    assert(s0[a].0 == s[a].0);
                    if s0[a].0 == key {
                        assert(has_key(s0, key));
                    }
                } else if b < s0.len() {
                    assert(s0[b].0 == s[b].0);
                    if s0[b].0 == key {
                        assert(has_key(s0, key));
                    }
                }
            }
            assert forall|k: K| #[trigger] self.times().dom().contains(k) == want.dom().contains(k) by {
                if has_key(s, k) && k != key {
                    let j = choose|j: int| 0 <= j < s.len() && s[j].0 == k;
                    assert(s0[j].0 == k);
                }
                if has_key(s0, k) {
                    let j = choose|j: int| 0 <= j < s0.len() && s0[j].0 == k;
                    assert(s[j].0 == k);
                }
                if k == key {
                    let j = if has_key(s0, key) { choose|j: int| 0 <= j < s0.len() && s0[j].0 == key } else { s0.len() as int };
                    assert(s[j].0 == key);
                }
            }
            assert forall|k: K| #[trigger] self.times().dom().contains(k) implies self.times()[k] == want[k] by {
                let j = choose|j: int| 0 <= j < s.len() && s[j].0 == k;
                self.lemma_time_at(j);
                if k != key {
                    assert(s[j] == s0[j]);
                    assert(has_key(s0, k));
                    let c = key_index(s0, k);
                    if c != j {
                        assert(s0[c].0 == s0[j].0);
                    }
                }
            }
            assert(self.times() =~= want);
        }
    }
}

/// A map from keys to latency estimators. Reading an estimate for a key
/// that has no estimator creates a fresh one for it.
#[derive(Debug)]
pub struct LatencyMap<K, E> {
    entries: Vec<(K, E)>,
    last_obs: ObservedAt<K>,
}

impl<K: EstimateKey, E: LatencyEstimator> View for LatencyMap<K, E> {
    type V = Map<K, E::V>;

    closed spec fn view(&self) -> Map<K, E::V> {
        entries_view(self.entries@)
    }
}

impl<K: EstimateKey, E: LatencyEstimator> LatencyMap<K, E> {
    /// The time of each key's last observation tracked by
    /// [`Self::track_at`].
    pub closed spec fn last_observations(&self) -> Map<K, u64> {
        self.last_obs.times()
    }

    /// Each key has one entry, every estimator is well formed, and each
    /// key has one last-observation time.
    pub closed spec fn wf(&self) -> bool {
        &&& self.last_obs.wf()
        &&& forall|i: int, j: int|
            #![trigger self.entries@[i], self.entries@[j]]
            0 <= i < self.entries@.len() && 0 <= j < self.entries@.len() && i != j
                ==> self.entries@[i].0 != self.entries@[j].0
        &&& forall|i: int| 0 <= i < self.entries@.len() ==> (#[trigger] self.entries@[i]).1.inv()
    }

    proof fn lemma_view_at(&self, i: int)
        requires
            self.wf(),
            0 <= i < self.entries@.len(),
        ensures
            self@.dom().contains(self.entries@[i].0),
            self@[self.entries@[i].0] == self.entries@[i].1@,
    {
        let s = self.entries@;
        assert(has_key(s, s[i].0));
        let c = key_index(s, s[i].0);
        assert(s[c].0 == s[i].0);
        if c != i {
            assert(s[c].0 != s[i].0);
        }
    }

    /// An empty map.
    pub fn new() -> (m: Self)
        ensures
            m.wf(),
            m@ == Map::<K, E::V>::empty(),
            m.last_observations() == Map::<K, u64>::empty(),
    {
        let m = LatencyMap { entries: Vec::new(), last_obs: ObservedAt::new() };
        assert(m@ =~= Map::<K, E::V>::empty());
        m
    }

    /// The position of the entry for `key`, if any.
    fn find(&self, key: &K) -> (r: Option<usize>)
        requires
            self.wf(),
        ensures
            match r {
                Some(i) => i < self.entries@.len() && self.entries@[i as int].0 == *key,
                None => !self@.dom().contains(*key),
            },
    {
        let mut i: usize = 0;
        while i < self.entries.len()
            invariant
                0 <= i <= self.entries@.len(),
                forall|j: int| 0 <= j < i ==> (#[trigger] self.entries@[j]).0 != *key,
            decreases self.entries@.len() - i,
        {
            if self.entries[i].0.same_key(key) {
                proof {
                    K::lemma_ids_injective(self.entries@[i as int].0, *key);
                }
                return Some(i);
            }
            i = i + 1;
        }
        None
    }

    /// Whether the map holds no estimator.
    pub fn is_empty(&self) -> (r: bool)
        requires
            self.wf(),
        ensures
            r == (self@.dom() =~= Set::<K>::empty()),
    {
        if self.entries.len() == 0 {
            assert(self@.dom() =~= Set::<K>::empty());
            true
        } else {
            proof {
                self.lemma_view_at(0);
            }
            false
        }
    }

    /// Reads the estimate of kind `kind` for `key`: `None` until the key's
    /// estimator can estimate. A key without an estimator gets a fresh one.
    pub fn get_estimate_with(&mut self, key: K, kind: EstimateKind) -> (r: Option<u64>)
        requires
            old(self).wf(),
        ensures
            final(self).wf(),
            final(self).last_observations() == old(self).last_observations(),
            final(self)@ == if old(self)@.dom().contains(key) {
                old(self)@
            } else {
                old(self)@.insert(key, E::initial_view())
            },
            r == if old(self)@.dom().contains(key) && E::estimable(old(self)@[key]) {
                Some(estimate_of_kind::<E>(old(self)@[key], kind))
            } else {
                None::<u64>
            },
    {
        match self.find(&key) {
            Some(i) => {
                proof {
                    self.lemma_view_at(i as int);
                }
                let e = &self.entries[i].1;
                if e.can_estimate() {
                    let v = match kind {
                        EstimateKind::Full => e.estimate(),
                        EstimateKind::Mean => e.mean_estimate(),
                        EstimateKind::Floor => e.mean_floor_estimate(),
                    };
                    Some(v)
                } else {
                    None
                }
            },
            None => {
                self.push_entry(key, E::initial());
                None
            },
        }
    }

    /// Appends an entry for a key that has none.
    fn push_entry(&mut self, key: K, e: E)
        requires
            old(self).wf(),
            !old(self)@.dom().contains(key),
            e.inv(),
        ensures
            final(self).wf(),
            final(self).last_observations() == old(self).last_observations(),
            final(self)@ == old(self)@.insert(key, e@),
    {
        let ghost s0 = self.entries@;
        self.entries.push((key, e));
        proof {
            let s = self.entries@;
            assert forall|i: int, j: int|
                #![trigger s[i], s[j]]
                0 <= i < s.len() && 0 <= j < s.len() && i != j implies s[i].0 != s[j].0 by {
                if i < s0.len() && j < s0.len() {
                    assert(s[i] == s0[i] && s[j] == s0[j]);
                } else if i < s0.len() {
                    assert(s[i] == s0[i]);
                    if s0[i].0 == key {
                        assert(has_key(s0, key));
                    }
                } else if j < s0.len() {
                    assert(s[j] == s0[j]);
                    if s0[j].0 == key {
                        assert(has_key(s0, key));
                    }
                }
            }
            assert forall|i: int| 0 <= i < s.len() implies (#[trigger] s[i]).1.inv() by {
                if i < s0.len() {
                    assert(s[i] == s0[i]);
                }
            }
            assert forall|k: K| #[trigger] self@.dom().contains(k) == old(self)@.insert(key, e@).dom().contains(k) by {
                if has_key(s, k) && k != key {
                    let i = choose|i: int| 0 <= i < s.len() && s[i].0 == k;
                    assert(s0[i].0 == k);
                }
                if has_key(s0, k) {
                    let i = choose|i: int| 0 <= i < s0.len() && s0[i].0 == k;
                    assert(s[i].0 == k);
                }
                if k == key {
                    assert(s[s0.len() as int].0 == key);
                }
            }
            assert forall|k: K| #[trigger] self@.dom().contains(k) implies self@[k] == old(self)@.insert(key, e@)[k] by {
                if k == key {
                    self.lemma_view_at(s0.len() as int);
                } else {
                    let i = choose|i: int| 0 <= i < s.len() && s[i].0 == k;
                    self.lemma_view_at(i);
                    assert(s[i] == s0[i]);
                    assert(has_key(s0, k));
                    let c = key_index(s0, k);
                    if c != i {
                        assert(s0[c].0 == s0[i].0);
                    }
                }
            }
            assert(self@ =~= old(self)@.insert(key, e@));
        }
    }

    /// The full estimate for `key`; see [`Self::get_estimate_with`].
    pub fn get_estimate(&mut self, key: K) -> (r: Option<u64>)
        requires
            old(self).wf(),
        ensures
            final(self).wf(),
            final(self).last_observations() == old(self).last_observations(),
            final(self)@ == view_after_read::<K, E>(old(self)@, key),
            r == read_estimate::<K, E>(old(self)@, key, EstimateKind::Full),
    {
        self.get_estimate_with(key, EstimateKind::Full)
    }

    /// The mean-only estimate for `key`; see [`Self::get_estimate_with`].
    pub fn get_mean_estimate(&mut self, key: K) -> (r: Option<u64>)
        requires
            old(self).wf(),
        ensures
            final(self).wf(),
            final(self).last_observations() == old(self).last_observations(),
            final(self)@ == view_after_read::<K, E>(old(self)@, key),
            r == read_estimate::<K, E>(old(self)@, key, EstimateKind::Mean),
    {
        self.get_estimate_with(key, EstimateKind::Mean)
    }

    /// The floor estimate for `key`; see [`Self::get_estimate_with`].
    pub fn get_mean_floor_estimate(&mut self, key: K) -> (r: Option<u64>)
        requires
            old(self).wf(),
        ensures
            final(self).wf(),
            final(self).last_observations() == old(self).last_observations(),
            final(self)@ == view_after_read::<K, E>(old(self)@, key),
            r == read_estimate::<K, E>(old(self)@, key, EstimateKind::Floor),
    {
        self.get_estimate_with(key, EstimateKind::Floor)
    }

    /// Tracks `value` for `key`, creating the key's estimator if needed.
    pub fn track(&mut self, key: K, value: u64)
        requires
            old(self).wf(),
            E::trackable(view_or_initial::<K, E>(old(self)@, key), value),
        ensures
            final(self).wf(),
            final(self).last_observations() == old(self).last_observations(),
            final(self)@ == old(self)@.insert(
                key,
                E::tracked_view(view_or_initial::<K, E>(old(self)@, key), value),
            ),
    {
        match self.find(&key) {
            Some(i) => {
                proof {
                    self.lemma_view_at(i as int);
                }
                let ghost s0 = self.entries@;
                let mut entry = self.entries.remove(i);
                entry.1.track(value);
                self.entries.insert(i, entry);
                proof {
                    let s = self.entries@;
                    assert(s =~= s0.update(i as int, entry));
                    assert forall|a: int, b: int|
                        #![trigger s[a], s[b]]
                        0 <= a < s.len() && 0 <= b < s.len() && a != b implies s[a].0 != s[b].0 by {
                        assert(s0[a].0 == s[a].0 && s0[b].0 == s[b].0);
                    }
                    assert forall|k: K| #[trigger] self@.dom().contains(k) == old(self)@.dom().contains(k) by {
                        if has_key(s, k) {
                            let j = choose|j: int| 0 <= j < s.len() && s[j].0 == k;
                            assert(s0[j].0 == k);
                        }
                        if has_key(s0, k) {
                            let j = choose|j: int| 0 <= j < s0.len() && s0[j].0 == k;
                            assert(s[j].0 == k);
                        }
                    }
                    assert forall|k: K| #[trigger] self@.dom().contains(k) implies self@[k] == old(self)@.insert(
                        key,
                        E::tracked_view(view_or_initial::<K, E>(old(self)@, key), value),
                    )[k] by {
                        let j = choose|j: int| 0 <= j < s.len() && s[j].0 == k;
                        self.lemma_view_at(j);
                        if j != i {
                            assert(s[j] == s0[j]);
                            let c = key_index(s0, k);
                            assert(has_key(s0, k));
                            if c != j {
                                assert(s0[c].0 == s0[j].0);
                            }
                        }
                    }
                    assert(self@ =~= old(self)@.insert(
                        key,
                        E::tracked_view(view_or_initial::<K, E>(old(self)@, key), value),
                    ));
                }
            },
            None => {
                let mut e = E::initial();
                e.track(value);
                self.push_entry(key, e);
            },
        }
    }

    /// Tracks `value` for `key`, observed at `now`: the key's estimator
    /// tracks it as in [`Self::track`], and `now` becomes the key's last
    /// observation time.
    pub fn track_at(&mut self, key: K, value: u64, now: u64)
        requires
            old(self).wf(),
            E::trackable(view_or_initial::<K, E>(old(self)@, key), value),
        ensures
            final(self).wf(),
            final(self)@ == old(self)@.insert(
                key,
                E::tracked_view(view_or_initial::<K, E>(old(self)@, key), value),
            ),
            final(self).last_observations() == old(self).last_observations().insert(key, now),
    {
        self.track(key, value);
        self.last_obs.set(key, now);
    }

    /// The time of the last observation of `key` tracked by
    /// [`Self::track_at`], if any.
    pub fn last_observation(&self, key: K) -> (r: Option<u64>)
        requires
            self.wf(),
        ensures
            r == if self.last_observations().dom().contains(key) {
                Some(self.last_observations()[key])
            } else {
                None::<u64>
            },
    {
        self.last_obs.get(key)
    }

    /// Sets the estimator for `key`, replacing any earlier one.
    pub fn insert(&mut self, key: K, value: E)
        requires
            old(self).wf(),
            value.inv(),
        ensures
            final(self).wf(),
            final(self).last_observations() == old(self).last_observations(),
            final(self)@ == old(self)@.insert(key, value@),
    {
        match self.find(&key) {
            Some(i) => {
                let ghost s0 = self.entries@;
                self.entries.set(i, (key, value));
                proof {
                    let s = self.entries@;
                    assert forall|a: int, b: int|
                        #![trigger s[a], s[b]]
                        0 <= a < s.len() && 0 <= b < s.len() && a != b implies s[a].0 != s[b].0 by {
                        assert(s0[a].0 == s[a].0 && s0[b].0 == s[b].0);
                    }
                    assert forall|k: K| #[trigger] self@.dom().contains(k) == old(self)@.insert(key, value@).dom().contains(k) by {
                        if has_key(s, k) {
                            let j = choose|j: int| 0 <= j < s.len() && s[j].0 == k;
                            assert(s0[j].0 == k);
                        }
                        if has_key(s0, k) {
                            let j = choose|j: int| 0 <= j < s0.len() && s0[j].0 == k;
                            assert(s[j].0 == k);
                        }
                        if k == key {
                            assert(s[i as int].0 == key);
                        }
                    }
                    assert forall|k: K| #[trigger] self@.dom().contains(k) implies self@[k] == old(self)@.insert(key, value@)[k] by {
                        let j = choose|j: int| 0 <= j < s.len() && s[j].0 == k;
                        self.lemma_view_at(j);
                        if j != i {
                            assert(s[j] == s0[j]);
                            let c = key_index(s0, k);
                            assert(has_key(s0, k));
                            if c != j {
                                assert(s0[c].0 == s0[j].0);
                            }
                        }
                    }
                    assert(self@ =~= old(self)@.insert(key, value@));
                }
            },
            None => {
                self.push_entry(key, value);
            },
        }
    }

    /// Each key once, with its full estimate, or `None` where the
    /// estimator cannot estimate yet.
    pub fn snapshot(&self) -> (r: Vec<(K, Option<u64>)>)
        requires
            self.wf(),
        ensures
            forall|i: int, j: int| 0 <= i < j < r@.len() ==> r@[i].0 != r@[j].0,
            forall|i: int| 0 <= i < r@.len() ==> #[trigger] self@.dom().contains(r@[i].0)
                && r@[i].1 == (if E::estimable(self@[r@[i].0]) {
                    Some(E::estimate_of(self@[r@[i].0]))
                } else {
                    None::<u64>
                }),
            forall|k: K| #[trigger] self@.dom().contains(k) ==> exists|i: int| 0 <= i < r@.len() && r@[i].0 == k,
    {
        let mut r: Vec<(K, Option<u64>)> = Vec::new();
        let mut i: usize = 0;
        while i < self.entries.len()
            invariant
                self.wf(),
                0 <= i <= self.entries@.len(),
                r@.len() == i,
                forall|j: int| 0 <= j < i ==> (#[trigger] r@[j]).0 == self.entries@[j].0
                    && r@[j].1 == (if E::estimable(self.entries@[j].1@) {
                        Some(E::estimate_of(self.entries@[j].1@))
                    } else {
                        None::<u64>
                    }),
            decreases self.entries@.len() - i,
        {
            let e = &self.entries[i];
            let est = if e.1.can_estimate() {
                Some(e.1.estimate())
            } else {
                None
            };
            r.push((e.0, est));
            i = i + 1;
        }
        proof {
            assert forall|a: int, b: int| 0 <= a < b < r@.len() implies r@[a].0 != r@[b].0 by {
                assert(self.entries@[a].0 != self.entries@[b].0);
            }
            assert forall|j: int| 0 <= j < r@.len() implies #[trigger] self@.dom().contains(r@[j].0)
                && r@[j].1 == (if E::estimable(self@[r@[j].0]) {
                    Some(E::estimate_of(self@[r@[j].0]))
                } else {
                    None::<u64>
                }) by {
                self.lemma_view_at(j);
            }
            assert forall|k: K| #[trigger] self@.dom().contains(k) implies exists|j: int| 0 <= j < r@.len() && r@[j].0 == k by {
                let j = choose|j: int| 0 <= j < self.entries@.len() && self.entries@[j].0 == k;
                assert(r@[j].0 == k);
            }
        }
        r
    }
}

/// The map after reading an estimate for `key`: a fresh estimator is added
/// for a key that had none.
pub open spec fn view_after_read<K, E: LatencyEstimator>(m: Map<K, E::V>, key: K) -> Map<K, E::V> {
    if m.dom().contains(key) { m } else { m.insert(key, E::initial_view()) }
}

/// The estimate read for `key`: present only when the key's estimator can
/// estimate.
pub open spec fn read_estimate<K, E: LatencyEstimator>(m: Map<K, E::V>, key: K, kind: EstimateKind) -> Option<u64> {
    if m.dom().contains(key) && E::estimable(m[key]) {
        Some(estimate_of_kind::<E>(m[key], kind))
    } else {
        None
    }
}

/// Law: reading a key right after tracking a value for it gives the
/// estimate of the tracked estimator, and tracking one key leaves the
/// estimators of the other keys unchanged.
pub proof fn law_read_after_track<K, E: LatencyEstimator>(
    m: Map<K, E::V>,
    key: K,
    other: K,
    value: u64,
    kind: EstimateKind,
)
    requires
        other != key,
    ensures
        ({
            let after = E::tracked_view(view_or_initial::<K, E>(m, key), value);
            let m2 = m.insert(key, after);
            &&& read_estimate::<K, E>(m2, key, kind) == if E::estimable(after) {
                Some(estimate_of_kind::<E>(after, kind))
            } else {
                None::<u64>
            }
            &&& read_estimate::<K, E>(m2, other, kind) == read_estimate::<K, E>(m, other, kind)
        }),
{
}

} // verus!
