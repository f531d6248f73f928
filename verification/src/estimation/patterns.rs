//! The server-level table of learned fanout-group patterns, and the lookup
//! of a group estimate from the closest compatible patterns.
use vstd::prelude::*;

use super::fanout::{is_multiset_subset, is_sub_multiset, PathPrefix};
use crate::latency_estimator::LatencyEstimator;
use crate::sorting::is_sorted;

verus! {

/// The three remaining-work estimates after a child call: the full
/// estimate, the mean-only estimate and the floor estimate.
#[derive(Debug, Clone, Copy, PartialEq, Eq, Structural)]
pub struct AfterChildEstimates {
    pub full: u64,
    pub mean: u64,
    pub floor: u64,
}

impl Default for AfterChildEstimates {
    fn default() -> (r: AfterChildEstimates)
        ensures
            r == (AfterChildEstimates { full: 0, mean: 0, floor: 0 }),
    {
        AfterChildEstimates { full: 0, mean: 0, floor: 0 }
    }
}

/// The scope of a learned pattern: under one observable path prefix, or
/// aggregated over all prefixes.
#[derive(Debug, Clone, Copy, PartialEq, Eq, Structural)]
pub enum PatternScope {
    Aggregate,
    Path(PathPrefix),
}

/// One learned pattern: an estimator of the post-join time of groups with
/// this signature, under a (root, parent) pair and a scope, and how often
/// it was observed.
#[derive(Debug)]
pub struct GroupPattern<E> {
    root: u64,
    parent: u64,
    scope: PatternScope,
    signature: Vec<u64>,
    estimator: E,
    occurrence_count: u64,
}

/// The abstract content of a pattern.
pub struct PatternView<V> {
    pub root: u64,
    pub parent: u64,
    pub scope: PatternScope,
    pub signature: Seq<u64>,
    pub est: V,
    pub count: u64,
}

/// `x` capped at `cap`.
pub open spec fn capped(x: u64, cap: u64) -> u64 {
    if x < cap { x } else { cap }
}

/// The estimates of a pattern's estimator, each capped at `cap`.
pub open spec fn pattern_estimates_of<E: LatencyEstimator>(v: E::V, cap: u64) -> AfterChildEstimates {
    AfterChildEstimates {
        full: capped(E::estimate_of(v), cap),
        mean: capped(E::mean_estimate_of(v), cap),
        floor: capped(E::mean_floor_estimate_of(v), cap),
    }
}

/// Whether `p` is keyed by (`root`, `parent`, `scope`, `sig`).
pub open spec fn keyed<V>(p: PatternView<V>, root: u64, parent: u64, scope: PatternScope, sig: Seq<u64>) -> bool {
    p.root == root && p.parent == parent && p.scope == scope && p.signature == sig
}

/// Whether `p` is a compatible pattern for a group whose signature is at
/// least `base`: same (root, parent, scope), a signature that includes
/// `base`, and an estimator that can estimate.
pub open spec fn compatible<E: LatencyEstimator>(
    p: PatternView<E::V>,
    root: u64,
    parent: u64,
    scope: PatternScope,
    base: Seq<u64>,
) -> bool {
    &&& p.root == root
    &&& p.parent == parent
    &&& p.scope == scope
    &&& is_sub_multiset(base, p.signature)
    &&& E::estimable(p.est)
}

/// The shortest signature length among the compatible patterns of `ps`.
pub open spec fn min_compatible_len<E: LatencyEstimator>(
    ps: Seq<PatternView<E::V>>,
    root: u64,
    parent: u64,
    scope: PatternScope,
    base: Seq<u64>,
) -> Option<nat>
    decreases ps.len(),
{
    if ps.len() == 0 {
        None
    } else {
        let rest = min_compatible_len::<E>(ps.drop_last(), root, parent, scope, base);
        let p = ps.last();
        if compatible::<E>(p, root, parent, scope, base) {
            match rest {
                Some(m) => if p.signature.len() < m { Some(p.signature.len()) } else { Some(m) },
                None => Some(p.signature.len()),
            }
        } else {
            rest
        }
    }
}

/// Whether `p` takes part in the weighted average: compatible, with a
/// signature of the shortest length `m`.
pub open spec fn averaged<E: LatencyEstimator>(
    p: PatternView<E::V>,
    root: u64,
    parent: u64,
    scope: PatternScope,
    base: Seq<u64>,
    m: nat,
) -> bool {
    compatible::<E>(p, root, parent, scope, base) && p.signature.len() == m
}

/// The weight of a pattern: its occurrence count, at least 1.
pub open spec fn weight_of<V>(p: PatternView<V>) -> nat {
    if p.count >= 1 { p.count as nat } else { 1 }
}

/// The total weight of the averaged patterns of `ps`.
pub open spec fn total_weight<E: LatencyEstimator>(
    ps: Seq<PatternView<E::V>>,
    root: u64,
    parent: u64,
    scope: PatternScope,
    base: Seq<u64>,
    m: nat,
) -> nat
    decreases ps.len(),
{
    if ps.len() == 0 {
        0
    } else {
        total_weight::<E>(ps.drop_last(), root, parent, scope, base, m) + if averaged::<E>(
            ps.last(),
            root,
            parent,
            scope,
            base,
            m,
        ) {
            weight_of(ps.last())
        } else {
            0
        }
    }
}

/// The weighted sum, over the averaged patterns of `ps`, of one capped
/// estimate (0: full, 1: mean, 2: floor).
pub open spec fn weighted_sum<E: LatencyEstimator>(
    ps: Seq<PatternView<E::V>>,
    root: u64,
    parent: u64,
    scope: PatternScope,
    base: Seq<u64>,
    m: nat,
    cap: u64,
    which: int,
) -> nat
    decreases ps.len(),
{
    if ps.len() == 0 {
        0
    } else {
        let p = ps.last();
        let e = pattern_estimates_of::<E>(p.est, cap);
        let v = if which == 0 { e.full } else if which == 1 { e.mean } else { e.floor };
        weighted_sum::<E>(ps.drop_last(), root, parent, scope, base, m, cap, which) + if averaged::<E>(
            p,
            root,
            parent,
            scope,
            base,
            m,
        ) {
            (v * weight_of(p)) as nat
        } else {
            0nat
        }
    }
}

/// The estimate for a group whose signature is at least `base`, from the
/// patterns `ps` under (`root`, `parent`, `scope`): the exact pattern's
/// estimates if it can estimate; otherwise the weighted average, by
/// occurrence count, over the compatible patterns with the shortest
/// signature; `None` if there is none.
pub open spec fn closest_lookup<E: LatencyEstimator>(
    ps: Seq<PatternView<E::V>>,
    root: u64,
    parent: u64,
    scope: PatternScope,
    base: Seq<u64>,
    cap: u64,
) -> Option<AfterChildEstimates> {
    if exists|i: int| 0 <= i < ps.len() && keyed(#[trigger] ps[i], root, parent, scope, base) && E::estimable(ps[i].est) {
        let i = choose|i: int| 0 <= i < ps.len() && keyed(#[trigger] ps[i], root, parent, scope, base) && E::estimable(ps[i].est);
        Some(pattern_estimates_of::<E>(ps[i].est, cap))
    } else {
        match min_compatible_len::<E>(ps, root, parent, scope, base) {
            None => None,
            Some(m) => {
                let w = total_weight::<E>(ps, root, parent, scope, base, m);
                if w == 0 {
                    None
                } else {
                    Some(AfterChildEstimates {
                        full: (weighted_sum::<E>(ps, root, parent, scope, base, m, cap, 0) / w) as u64,
                        mean: (weighted_sum::<E>(ps, root, parent, scope, base, m, cap, 1) / w) as u64,
                        floor: (weighted_sum::<E>(ps, root, parent, scope, base, m, cap, 2) / w) as u64,
                    })
                }
            },
        }
    }
}

/// Whether `ps` holds the exact pattern for `base` under (`root`,
/// `parent`, `scope`), with an estimator that can estimate.
pub open spec fn exact_estimable<E: LatencyEstimator>(
    ps: Seq<PatternView<E::V>>,
    root: u64,
    parent: u64,
    scope: PatternScope,
    base: Seq<u64>,
) -> bool {
    exists|i: int| 0 <= i < ps.len() && keyed(#[trigger] ps[i], root, parent, scope, base) && E::estimable(ps[i].est)
}

/// Whether the weighted average over the compatible patterns fits 128-bit
/// accumulators: its total weight and each of its three weighted sums.
pub open spec fn sums_fit<E: LatencyEstimator>(
    ps: Seq<PatternView<E::V>>,
    root: u64,
    parent: u64,
    scope: PatternScope,
    base: Seq<u64>,
    cap: u64,
) -> bool {
    match min_compatible_len::<E>(ps, root, parent, scope, base) {
        None => true,
        Some(m) => {
            &&& total_weight::<E>(ps, root, parent, scope, base, m) <= u128::MAX
            &&& weighted_sum::<E>(ps, root, parent, scope, base, m, cap, 0) <= u128::MAX
            &&& weighted_sum::<E>(ps, root, parent, scope, base, m, cap, 1) <= u128::MAX
            &&& weighted_sum::<E>(ps, root, parent, scope, base, m, cap, 2) <= u128::MAX
        },
    }
}

/// Whether the closest lookup under (`root`, `parent`, `scope`) stays within
/// its accumulators: the exact pattern answers it, or the sums fit.
pub open spec fn lookup_fits<E: LatencyEstimator>(
    ps: Seq<PatternView<E::V>>,
    root: u64,
    parent: u64,
    scope: PatternScope,
    base: Seq<u64>,
    cap: u64,
) -> bool {
    exact_estimable::<E>(ps, root, parent, scope, base) || sums_fit::<E>(ps, root, parent, scope, base, cap)
}

/// The occurrence count of the pattern keyed by (`root`, `parent`, `scope`,
/// `sig`), 0 when there is none.
pub open spec fn keyed_count<V>(ps: Seq<PatternView<V>>, root: u64, parent: u64, scope: PatternScope, sig: Seq<u64>) -> nat {
    if has_keyed(ps, root, parent, scope, sig) {
        ps[keyed_index(ps, root, parent, scope, sig)].count as nat
    } else {
        0
    }
}

/// Whether `ps` holds a pattern for (`root`, `parent`).
pub open spec fn has_root_parent<V>(ps: Seq<PatternView<V>>, root: u64, parent: u64) -> bool {
    exists|i: int| 0 <= i < ps.len() && (#[trigger] ps[i]).root == root && ps[i].parent == parent
}

/// The estimate looked up for a child whose group signature is at least
/// `base`: zeros when (`root`, `parent`) has no pattern; otherwise the
/// closest lookup under the path prefix, falling back to the aggregate
/// scope, then to zeros.
pub open spec fn lookup_estimate_of<E: LatencyEstimator>(
    ps: Seq<PatternView<E::V>>,
    root: u64,
    parent: u64,
    prefix: PathPrefix,
    base: Seq<u64>,
    cap: u64,
) -> AfterChildEstimates {
    let zero = AfterChildEstimates { full: 0, mean: 0, floor: 0 };
    if !has_root_parent(ps, root, parent) {
        zero
    } else {
        match closest_lookup::<E>(ps, root, parent, PatternScope::Path(prefix), base, cap) {
            Some(e) => e,
            None => match closest_lookup::<E>(ps, root, parent, PatternScope::Aggregate, base, cap) {
                Some(e) => e,
                None => zero,
            },
        }
    }
}

/// Whether the slices hold the same ids.
fn same_ids(a: &[u64], b: &[u64]) -> (r: bool)
    ensures
        r == (a@ == b@),
{
    if a.len() != b.len() {
        return false;
    }
    let mut i: usize = 0;
    while i < a.len()
        invariant
            0 <= i <= a@.len(),
            a@.len() == b@.len(),
            forall|k: int| 0 <= k < i ==> a@[k] == b@[k],
        decreases a@.len() - i,
    {
        if a[i] != b[i] {
            return false;
        }
        i = i + 1;
    }
    assert(a@ =~= b@);
    true
}

/// `x` capped at `cap`.
fn cap_at(x: u64, cap: u64) -> (r: u64)
    ensures
        r == capped(x, cap),
{
    if x < cap {
        x
    } else {
        cap
    }
}

/// The index of the pattern keyed by (`root`, `parent`, `scope`, `sig`).
pub open spec fn keyed_index<V>(ps: Seq<PatternView<V>>, root: u64, parent: u64, scope: PatternScope, sig: Seq<u64>) -> int {
    choose|i: int| 0 <= i < ps.len() && keyed(#[trigger] ps[i], root, parent, scope, sig)
}

/// Whether `ps` holds the pattern keyed by (`root`, `parent`, `scope`, `sig`).
pub open spec fn has_keyed<V>(ps: Seq<PatternView<V>>, root: u64, parent: u64, scope: PatternScope, sig: Seq<u64>) -> bool {
    exists|i: int| 0 <= i < ps.len() && keyed(#[trigger] ps[i], root, parent, scope, sig)
}

/// The patterns after observing a group with signature `sig` and post-join
/// time `v` under (`root`, `parent`, `scope`): the keyed pattern tracks `v`
/// and counts one more occurrence; a new pattern is appended if there was
/// none.
pub open spec fn updated_patterns<E: LatencyEstimator>(
    ps: Seq<PatternView<E::V>>,
    root: u64,
    parent: u64,
    scope: PatternScope,
    sig: Seq<u64>,
    v: u64,
) -> Seq<PatternView<E::V>> {
    if has_keyed(ps, root, parent, scope, sig) {
        let i = keyed_index(ps, root, parent, scope, sig);
        ps.update(
            i,
            PatternView { est: E::tracked_view(ps[i].est, v), count: (ps[i].count + 1) as u64, ..ps[i] },
        )
    } else {
        ps.push(
            PatternView {
                root,
                parent,
                scope,
                signature: sig,
                est: E::tracked_view(E::initial_view(), v),
                count: 1,
            },
        )
    }
}

/// The view of the estimator that a group keyed by (`root`, `parent`,
/// `scope`, `sig`) is tracked into.
pub open spec fn keyed_estimator_view<E: LatencyEstimator>(
    ps: Seq<PatternView<E::V>>,
    root: u64,
    parent: u64,
    scope: PatternScope,
    sig: Seq<u64>,
) -> E::V {
    if has_keyed(ps, root, parent, scope, sig) {
        ps[keyed_index(ps, root, parent, scope, sig)].est
    } else {
        E::initial_view()
    }
}

impl<E: LatencyEstimator> GroupPattern<E> {
    /// The abstract content of the pattern.
    pub closed spec fn pview(&self) -> PatternView<E::V> {
        PatternView {
            root: self.root,
            parent: self.parent,
            scope: self.scope,
            signature: self.signature@,
            est: self.estimator@,
            count: self.occurrence_count,
        }
    }

    /// The root method id.
    pub fn root(&self) -> (r: u64)
        ensures
            r == self.pview().root,
    {
        self.root
    }

    /// The parent method id.
    pub fn parent(&self) -> (r: u64)
        ensures
            r == self.pview().parent,
    {
        self.parent
    }

    /// The scope.
    pub fn scope(&self) -> (r: PatternScope)
        ensures
            r == self.pview().scope,
    {
        self.scope
    }

    /// The sorted signature.
    pub fn signature(&self) -> (r: &[u64])
        ensures
            r@ == self.pview().signature,
    {
        self.signature.as_slice()
    }

    /// The estimator.
    pub fn estimator(&self) -> (r: &E)
        ensures
            r@ == self.pview().est,
    {
        &self.estimator
    }

    /// How often the pattern was observed.
    pub fn occurrence_count(&self) -> (r: u64)
        ensures
            r == self.pview().count,
    {
        self.occurrence_count
    }
}

/// The table of learned fanout-group patterns of a server, keyed by
/// (root method, parent method, scope, signature).
#[derive(Debug)]
pub struct FanoutPatternTable<E> {
    patterns: Vec<GroupPattern<E>>,
}

impl<E: LatencyEstimator> View for FanoutPatternTable<E> {
    type V = Seq<PatternView<E::V>>;

    closed spec fn view(&self) -> Seq<PatternView<E::V>> {
        self.patterns@.map_values(|p: GroupPattern<E>| p.pview())
    }
}

/// A weighted sum of values capped at `cap` is at most the weight times `cap`.
proof fn lemma_weighted_sum_le<E: LatencyEstimator>(
    ps: Seq<PatternView<E::V>>,
    root: u64,
    parent: u64,
    scope: PatternScope,
    base: Seq<u64>,
    m: nat,
    cap: u64,
    which: int,
)
    ensures
        weighted_sum::<E>(ps, root, parent, scope, base, m, cap, which) <= total_weight::<E>(
            ps,
            root,
            parent,
            scope,
            base,
            m,
        ) * cap,
    decreases ps.len(),
{
    if ps.len() > 0 {
        lemma_weighted_sum_le::<E>(ps.drop_last(), root, parent, scope, base, m, cap, which);
        let p = ps.last();
        let e = pattern_estimates_of::<E>(p.est, cap);
        let v = if which == 0 { e.full } else if which == 1 { e.mean } else { e.floor };
        let w = weight_of(p);
        assert(v * w <= cap * w) by (nonlinear_arith)
            requires
                v <= cap,
        ;
        let tw0 = total_weight::<E>(ps.drop_last(), root, parent, scope, base, m);
        assert(tw0 * cap + w * cap == (tw0 + w) * cap) by (nonlinear_arith);
    }
}

/// The sums over a prefix of `ps` are at most those over `ps`.
proof fn lemma_prefix_sums_le<E: LatencyEstimator>(
    ps: Seq<PatternView<E::V>>,
    root: u64,
    parent: u64,
    scope: PatternScope,
    base: Seq<u64>,
    m: nat,
    cap: u64,
    i: int,
)
    requires
        0 <= i <= ps.len(),
    ensures
        total_weight::<E>(ps.take(i), root, parent, scope, base, m) <= total_weight::<E>(ps, root, parent, scope, base, m),
        weighted_sum::<E>(ps.take(i), root, parent, scope, base, m, cap, 0) <= weighted_sum::<E>(ps, root, parent, scope, base, m, cap, 0),
        weighted_sum::<E>(ps.take(i), root, parent, scope, base, m, cap, 1) <= weighted_sum::<E>(ps, root, parent, scope, base, m, cap, 1),
        weighted_sum::<E>(ps.take(i), root, parent, scope, base, m, cap, 2) <= weighted_sum::<E>(ps, root, parent, scope, base, m, cap, 2),
    decreases ps.len() - i,
{
    if i < ps.len() {
        lemma_prefix_sums_le::<E>(ps, root, parent, scope, base, m, cap, i + 1);
        assert(ps.take(i + 1).drop_last() =~= ps.take(i));
    } else {
        assert(ps.take(i) =~= ps);
    }
}

proof fn lemma_div_le(a: nat, w: nat, c: nat)
    requires
        w > 0,
        a <= w * c,
    ensures
        a / w <= c,
{
    assert(a / w <= c) by (nonlinear_arith)
        requires
            w > 0,
            a <= w * c,
    ;
}

impl<E: LatencyEstimator> FanoutPatternTable<E> {
    /// Each key has one pattern, every estimator is well formed, every
    /// signature is sorted, and every pattern was observed at least once.
    pub closed spec fn wf(&self) -> bool {
        let ps = self@;
        &&& forall|i: int, j: int|
            #![trigger ps[i], ps[j]]
            0 <= i < ps.len() && 0 <= j < ps.len() && i != j ==> !keyed(
                ps[i],
                ps[j].root,
                ps[j].parent,
                ps[j].scope,
                ps[j].signature,
            )
        &&& forall|i: int| 0 <= i < self.patterns@.len() ==> (#[trigger] self.patterns@[i]).estimator.inv()
        &&& forall|i: int| 0 <= i < ps.len() ==> is_sorted((#[trigger] ps[i]).signature)
        &&& forall|i: int| 0 <= i < ps.len() ==> (#[trigger] ps[i]).count >= 1
    }

    /// An empty table.
    pub fn new() -> (t: Self)
        ensures
            t.wf(),
            t@ == Seq::<PatternView<E::V>>::empty(),
    {
        let t = FanoutPatternTable { patterns: Vec::new() };
        assert(t@ =~= Seq::<PatternView<E::V>>::empty());
        t
    }

    /// Whether the table holds no pattern.
    pub fn is_empty(&self) -> (r: bool)
        ensures
            r == (self@.len() == 0),
    {
        self.patterns.len() == 0
    }

    /// The patterns, in insertion order.
    pub fn patterns(&self) -> (r: &[GroupPattern<E>])
        ensures
            r@.map_values(|p: GroupPattern<E>| p.pview()) == self@,
    {
        self.patterns.as_slice()
    }

    /// The capped estimates of a pattern.
    fn pattern_estimates(p: &GroupPattern<E>, cap: u64) -> (r: AfterChildEstimates)
        requires
            p.estimator.inv(),
        ensures
            r == pattern_estimates_of::<E>(p.estimator@, cap),
    {
        AfterChildEstimates {
            full: cap_at(p.estimator.estimate(), cap),
            mean: cap_at(p.estimator.mean_estimate(), cap),
            floor: cap_at(p.estimator.mean_floor_estimate(), cap),
        }
    }

    /// The estimate for a group whose signature is at least `base` under
    /// (`root`, `parent`, `scope`); see [`closest_lookup`].
    pub fn closest_compatible_lookup(
        &self,
        root: u64,
        parent: u64,
        scope: PatternScope,
        base: &[u64],
        cap: u64,
    ) -> (r: Option<AfterChildEstimates>)
        requires
            self.wf(),
            is_sorted(base@),
            lookup_fits::<E>(self@, root, parent, scope, base@, cap),
        ensures
            r == closest_lookup::<E>(self@, root, parent, scope, base@, cap),
    {
        let ghost ps = self@;
        let n = self.patterns.len();
        let mut i: usize = 0;
        while i < n
            invariant
                self.wf(),
                ps == self@,
                n == ps.len(),
                0 <= i <= n,
                forall|k: int| 0 <= k < i ==> !(keyed(#[trigger] ps[k], root, parent, scope, base@) && E::estimable(ps[k].est)),
            decreases n - i,
        {
            let p = &self.patterns[i];
            proof {
                assert(ps[i as int] == p.pview());
            }
            if p.root == root && p.parent == parent && p.scope == scope && same_ids(
                p.signature.as_slice(),
                base,
            ) {
                if p.estimator.can_estimate() {
                    proof {
                        let c = choose|c: int| 0 <= c < ps.len() && keyed(#[trigger] ps[c], root, parent, scope, base@) && E::estimable(ps[c].est);
                        if c != i {
                            assert(!keyed(ps[c], ps[i as int].root, ps[i as int].parent, ps[i as int].scope, ps[i as int].signature));
                        }
                    }
                    return Some(Self::pattern_estimates(p, cap));
                }
            }
            i = i + 1;
        }
        // The shortest compatible signature.
        let mut min_len: Option<usize> = None;
        let mut i: usize = 0;
        assert(ps.take(0) =~= Seq::<PatternView<E::V>>::empty());
        while i < n
            invariant
                self.wf(),
                ps == self@,
                n == ps.len(),
                0 <= i <= n,
                is_sorted(base@),
                match min_len {
                    Some(m) => min_compatible_len::<E>(ps.take(i as int), root, parent, scope, base@) == Some(m as nat),
                    None => min_compatible_len::<E>(ps.take(i as int), root, parent, scope, base@) == None::<nat>,
                },
            decreases n - i,
        {
            let p = &self.patterns[i];
            proof {
                assert(ps[i as int] == p.pview());
                assert(ps.take(i + 1).drop_last() =~= ps.take(i as int));
                assert(ps.take(i + 1).last() == ps[i as int]);
            }
            if p.root == root && p.parent == parent && p.scope == scope && is_multiset_subset(
                base,
                p.signature.as_slice(),
            ) && p.estimator.can_estimate() {
                let len = p.signature.len();
                min_len = match min_len {
                    Some(m) => if len < m {
                        Some(len)
                    } else {
                        Some(m)
                    },
                    None => Some(len),
                };
            }
            i = i + 1;
        }
        assert(ps.take(n as int) =~= ps);
        assert(!exact_estimable::<E>(ps, root, parent, scope, base@));
        let m = match min_len {
            Some(m) => m,
            None => {
                return None;
            },
        };
        let mut total: u128 = 0;
        let mut full: u128 = 0;
        let mut mean: u128 = 0;
        let mut floor: u128 = 0;
        let mut i: usize = 0;
        while i < n
            invariant
                self.wf(),
                ps == self@,
                n == ps.len(),
                0 <= i <= n,
                is_sorted(base@),
                total == total_weight::<E>(ps.take(i as int), root, parent, scope, base@, m as nat),
                full == weighted_sum::<E>(ps.take(i as int), root, parent, scope, base@, m as nat, cap, 0),
                mean == weighted_sum::<E>(ps.take(i as int), root, parent, scope, base@, m as nat, cap, 1),
                floor == weighted_sum::<E>(ps.take(i as int), root, parent, scope, base@, m as nat, cap, 2),
                min_compatible_len::<E>(ps, root, parent, scope, base@) == Some(m as nat),
                sums_fit::<E>(ps, root, parent, scope, base@, cap),
            decreases n - i,
        {
            let p = &self.patterns[i];
            let ghost pre = ps.take(i as int);
            let ghost next = ps.take(i + 1);
            proof {
                assert(ps[i as int] == p.pview());
                assert(next.drop_last() =~= pre);
                assert(next.last() == ps[i as int]);
                lemma_prefix_sums_le::<E>(ps, root, parent, scope, base@, m as nat, cap, i + 1);
            }
            if p.root == root && p.parent == parent && p.scope == scope && p.signature.len() == m
                && is_multiset_subset(base, p.signature.as_slice()) && p.estimator.can_estimate() {
                let weight: u128 = if p.occurrence_count >= 1 {
                    p.occurrence_count as u128
                } else {
                    1
                };
                let e = Self::pattern_estimates(p, cap);
                total = total + weight;
                full = full + (e.full as u128) * weight;
                mean = mean + (e.mean as u128) * weight;
                floor = floor + (e.floor as u128) * weight;
            }
            i = i + 1;
        }
        proof {
            assert(ps.take(n as int) =~= ps);
        }
        if total == 0 {
            return None;
        }
        proof {
            lemma_weighted_sum_le::<E>(ps, root, parent, scope, base@, m as nat, cap, 0);
            lemma_weighted_sum_le::<E>(ps, root, parent, scope, base@, m as nat, cap, 1);
            lemma_weighted_sum_le::<E>(ps, root, parent, scope, base@, m as nat, cap, 2);
            lemma_div_le(full as nat, total as nat, cap as nat);
            lemma_div_le(mean as nat, total as nat, cap as nat);
            lemma_div_le(floor as nat, total as nat, cap as nat);
        }
        Some(
            AfterChildEstimates {
                full: (full / total) as u64,
                mean: (mean / total) as u64,
                floor: (floor / total) as u64,
            },
        )
    }

    /// The estimate for a child of `parent` (under `root`) whose group
    /// signature is at least `base`, with `prefix` the path prefix before
    /// its group; see [`lookup_estimate_of`].
    pub fn lookup_estimate(
        &self,
        root: u64,
        parent: u64,
        path_prefix: PathPrefix,
        base_signature: &[u64],
        cap: u64,
    ) -> (r: AfterChildEstimates)
        requires
            self.wf(),
            is_sorted(base_signature@),
            has_root_parent(self@, root, parent) ==> lookup_fits::<E>(
                self@,
                root,
                parent,
                PatternScope::Path(path_prefix),
                base_signature@,
                cap,
            ),
            has_root_parent(self@, root, parent) && closest_lookup::<E>(
                self@,
                root,
                parent,
                PatternScope::Path(path_prefix),
                base_signature@,
                cap,
            ) is None ==> lookup_fits::<E>(self@, root, parent, PatternScope::Aggregate, base_signature@, cap),
        ensures
            r == lookup_estimate_of::<E>(self@, root, parent, path_prefix, base_signature@, cap),
    {
        let ghost ps = self@;
        let mut found = false;
        let mut i: usize = 0;
        while i < self.patterns.len()
            invariant
                ps == self@,
                0 <= i <= ps.len(),
                found == exists|k: int| 0 <= k < i && (#[trigger] ps[k]).root == root && ps[k].parent == parent,
            decreases ps.len() - i,
        {
            proof {
                assert(ps[i as int] == self.patterns@[i as int].pview());
            }
            if self.patterns[i].root == root && self.patterns[i].parent == parent {
                found = true;
            }
            i = i + 1;
        }
        if !found {
            return AfterChildEstimates { full: 0, mean: 0, floor: 0 };
        }
        match self.closest_compatible_lookup(root, parent, PatternScope::Path(path_prefix), base_signature, cap) {
            Some(e) => e,
            None => match self.closest_compatible_lookup(
                root,
                parent,
                PatternScope::Aggregate,
                base_signature,
                cap,
            ) {
                Some(e) => e,
                None => AfterChildEstimates { full: 0, mean: 0, floor: 0 },
            },
        }
    }

    /// Records one observed group with sorted signature `signature` and
    /// post-join time `after_child_us` under (`root`, `parent`, `scope`).
    pub fn update(
        &mut self,
        root: u64,
        parent: u64,
        scope: PatternScope,
        signature: Vec<u64>,
        after_child_us: u64,
    )
        requires
            old(self).wf(),
            is_sorted(signature@),
            keyed_count(old(self)@, root, parent, scope, signature@) < u64::MAX,
            E::trackable(
                keyed_estimator_view::<E>(old(self)@, root, parent, scope, signature@),
                after_child_us,
            ),
        ensures
            final(self).wf(),
            final(self)@ == updated_patterns::<E>(old(self)@, root, parent, scope, signature@, after_child_us),
    {
        let ghost ps = self@;
        let ghost sig = signature@;
        let n = self.patterns.len();
        let mut i: usize = 0;
        while i < n
            invariant
                ps == self@,
                n == ps.len(),
                0 <= i <= n,
                sig == signature@,
                self.wf(),
                self.patterns@ == old(self).patterns@,
                is_sorted(sig),
                keyed_count(ps, root, parent, scope, sig) < u64::MAX,
                E::trackable(keyed_estimator_view::<E>(ps, root, parent, scope, sig), after_child_us),
                forall|k: int| 0 <= k < i ==> !keyed(#[trigger] ps[k], root, parent, scope, sig),
            decreases n - i,
        {
            let p = &self.patterns[i];
            proof {
                assert(ps[i as int] == p.pview());
            }
            if p.root == root && p.parent == parent && p.scope == scope && same_ids(
                p.signature.as_slice(),
                signature.as_slice(),
            ) {
                proof {
                    assert(keyed(ps[i as int], root, parent, scope, sig));
                    let c = keyed_index(ps, root, parent, scope, sig);
                    if c != i {
                        assert(!keyed(ps[c], ps[i as int].root, ps[i as int].parent, ps[i as int].scope, ps[i as int].signature));
                    }
                    assert(has_keyed(ps, root, parent, scope, sig));
                    assert(c == i);
                    assert(self.patterns@[i as int].estimator.inv());
                }
                let ghost p0 = self.patterns@;
                let mut pattern = self.patterns.remove(i);
                assert(pattern == p0[i as int]);
                pattern.estimator.track(after_child_us);
                pattern.occurrence_count = pattern.occurrence_count + 1;
                self.patterns.insert(i, pattern);
                proof {
                    assert(self.patterns@ =~= p0.update(i as int, pattern));
                    let new_ps = self@;
                    let want = updated_patterns::<E>(ps, root, parent, scope, sig, after_child_us);
                    assert(new_ps =~= want) by {
                        assert forall|k: int| 0 <= k < new_ps.len() implies new_ps[k] == want[k] by {
                            if k != i {
                                assert(self.patterns@[k] == p0[k]);
                            }
                        }
                    }
                    assert forall|a: int| 0 <= a < self.patterns@.len() implies (#[trigger] self.patterns@[a]).estimator.inv() by {
                        if a != i {
                            assert(self.patterns@[a] == p0[a]);
                        }
                    }
                    assert forall|a: int, b: int|
                        #![trigger new_ps[a], new_ps[b]]
                        0 <= a < new_ps.len() && 0 <= b < new_ps.len() && a != b implies !keyed(
                            new_ps[a],
                            new_ps[b].root,
                            new_ps[b].parent,
                            new_ps[b].scope,
                            new_ps[b].signature,
                        ) by {
                        assert(!keyed(ps[a], ps[b].root, ps[b].parent, ps[b].scope, ps[b].signature));
                    }
                    assert forall|a: int| 0 <= a < new_ps.len() implies is_sorted((#[trigger] new_ps[a]).signature) by {
                        assert(is_sorted(ps[a].signature));
                    }
                    assert forall|a: int| 0 <= a < new_ps.len() implies (#[trigger] new_ps[a]).count >= 1 by {
                        assert(ps[a].count >= 1);
                    }
                }
                return;
            }
            i = i + 1;
        }
        let mut estimator = E::initial();
        estimator.track(after_child_us);
        proof {
            assert(!has_keyed(ps, root, parent, scope, sig));
        }
        let ghost p0 = self.patterns@;
        self.patterns.push(GroupPattern { root, parent, scope, signature, estimator, occurrence_count: 1 });
        proof {
            let new_ps = self@;
            let want = updated_patterns::<E>(ps, root, parent, scope, sig, after_child_us);
            assert(new_ps =~= want) by {
                assert forall|k: int| 0 <= k < new_ps.len() implies new_ps[k] == want[k] by {
                    if k < ps.len() {
                        assert(self.patterns@[k] == p0[k]);
                    }
                }
            }
            assert(new_ps.drop_last() =~= ps);
            assert forall|a: int| 0 <= a < self.patterns@.len() implies (#[trigger] self.patterns@[a]).estimator.inv() by {
                if a < ps.len() {
                    assert(self.patterns@[a] == p0[a]);
                }
            }
            assert forall|a: int, b: int|
                #![trigger new_ps[a], new_ps[b]]
                0 <= a < new_ps.len() && 0 <= b < new_ps.len() && a != b implies !keyed(
                    new_ps[a],
                    new_ps[b].root,
                    new_ps[b].parent,
                    new_ps[b].scope,
                    new_ps[b].signature,
                ) by {
                if a < ps.len() && b < ps.len() {
                    assert(!keyed(ps[a], ps[b].root, ps[b].parent, ps[b].scope, ps[b].signature));
                } else if a < ps.len() {
                    assert(!keyed(ps[a], root, parent, scope, sig));
                } else {
                    assert(!keyed(ps[b], root, parent, scope, sig));
                }
            }
            assert forall|a: int| 0 <= a < new_ps.len() implies is_sorted((#[trigger] new_ps[a]).signature) by {
                if a < ps.len() {
                    assert(is_sorted(ps[a].signature));
                }
            }
            assert forall|a: int| 0 <= a < new_ps.len() implies (#[trigger] new_ps[a]).count >= 1 by {
                if a < ps.len() {
                    assert(ps[a].count >= 1);
                }
            }
        }
    }
}


/// Law: every looked-up estimate is at most the cap.
pub proof fn law_lookup_is_capped<E: LatencyEstimator>(
    ps: Seq<PatternView<E::V>>,
    root: u64,
    parent: u64,
    prefix: PathPrefix,
    base: Seq<u64>,
    cap: u64,
)
    ensures
        lookup_estimate_of::<E>(ps, root, parent, prefix, base, cap).full <= cap,
        lookup_estimate_of::<E>(ps, root, parent, prefix, base, cap).mean <= cap,
        lookup_estimate_of::<E>(ps, root, parent, prefix, base, cap).floor <= cap,
{
    lemma_closest_capped::<E>(ps, root, parent, PatternScope::Path(prefix), base, cap);
    lemma_closest_capped::<E>(ps, root, parent, PatternScope::Aggregate, base, cap);
}

proof fn lemma_closest_capped<E: LatencyEstimator>(
    ps: Seq<PatternView<E::V>>,
    root: u64,
    parent: u64,
    scope: PatternScope,
    base: Seq<u64>,
    cap: u64,
)
    ensures
        closest_lookup::<E>(ps, root, parent, scope, base, cap) matches Some(e) ==> e.full <= cap && e.mean
            <= cap && e.floor <= cap,
{
    if !(exists|i: int| 0 <= i < ps.len() && keyed(#[trigger] ps[i], root, parent, scope, base) && E::estimable(ps[i].est)) {
        match min_compatible_len::<E>(ps, root, parent, scope, base) {
            Some(m) => {
                let w = total_weight::<E>(ps, root, parent, scope, base, m);
                if w != 0 {
                    lemma_weighted_sum_le::<E>(ps, root, parent, scope, base, m, cap, 0);
                    lemma_weighted_sum_le::<E>(ps, root, parent, scope, base, m, cap, 1);
                    lemma_weighted_sum_le::<E>(ps, root, parent, scope, base, m, cap, 2);
                    lemma_div_le(weighted_sum::<E>(ps, root, parent, scope, base, m, cap, 0), w, cap as nat);
                    lemma_div_le(weighted_sum::<E>(ps, root, parent, scope, base, m, cap, 1), w, cap as nat);
                    lemma_div_le(weighted_sum::<E>(ps, root, parent, scope, base, m, cap, 2), w, cap as nat);
                }
            },
            None => {},
        }
    }
}

} // verus!
