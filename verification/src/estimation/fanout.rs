//! Fanout-aware after-child estimation.
//!
//! Siblings issued in parallel form a fanout *group*: the maximal set of
//! children whose intervals overlap. At handler exit the groups are recovered
//! from the observed start/end times, and each group's post-join time (from
//! the group's last child end to the parent's end) is learned per sorted
//! signature of child ids, scoped by the observable path prefix of the groups
//! that completed before it.
use vstd::prelude::*;

use crate::registry::MethodId;
use crate::text::{append_decimal, append_hex16, decimal_text, hex16_text};
use crate::sorting::{is_sorted, lemma_sorted_len, lemma_sorted_values, sort_values, sorted_values};

verus! {

/// The offset basis of the FNV-1a hash, and the hash of the root prefix.
pub const ROOT_HASH: u64 = 0xcbf2_9ce4_8422_2325;

/// The FNV-1a prime.
pub const FNV_PRIME: u64 = 0x100_0000_01b3;

/// The tag mixed in before each appended signature.
pub const SIGNATURE_TAG: u64 = 0xff51_afd7_ed55_8ccd;

/// Byte `i` (0 = least significant) of `v`.
pub open spec fn le_byte(v: u64, i: u64) -> u64 {
    (v >> ((8 * i) as u64)) & 0xffu64
}

/// One FNV-1a step: xor in a byte, multiply by the prime modulo 2^64.
pub open spec fn fnv_step(h: u64, b: u64) -> u64 {
    vstd::wrapping::u64_specs::wrapping_mul(h ^ b, FNV_PRIME)
}

/// `h` after the FNV-1a steps for the first `n` little-endian bytes of `v`.
pub open spec fn fnv_bytes(h: u64, v: u64, n: nat) -> u64
    decreases n,
{
    if n == 0 {
        h
    } else {
        fnv_step(fnv_bytes(h, v, (n - 1) as nat), le_byte(v, (n - 1) as u64))
    }
}

/// `h` after mixing in the eight little-endian bytes of `v`.
pub open spec fn mixed(h: u64, v: u64) -> u64 {
    fnv_bytes(h, v, 8)
}

/// The stable hash of a method id: FNV-1a over its eight bytes in
/// little-endian order, from the offset basis.
pub open spec fn id_hash(id: u64) -> u64 {
    mixed(ROOT_HASH, id)
}

/// `h` after mixing in the hash of each id of `ids`, in order.
pub open spec fn mix_ids(h: u64, ids: Seq<u64>) -> u64
    decreases ids.len(),
{
    if ids.len() == 0 {
        h
    } else {
        mixed(mix_ids(h, ids.drop_last()), id_hash(ids.last()))
    }
}

/// Mixes the eight little-endian bytes of `value` into `hash`.
pub fn mix_u64(hash: &mut u64, value: u64)
    ensures
        *final(hash) == mixed(*old(hash), value),
{
    let ghost h0 = *hash;
    let mut i: u64 = 0;
    while i < 8
        invariant
            0 <= i <= 8,
            *hash == fnv_bytes(h0, value, i as nat),
        decreases 8 - i,
    {
        let byte = (value >> (8 * i)) & 0xffu64;
        *hash = (*hash ^ byte).wrapping_mul(FNV_PRIME);
        i = i + 1;
    }
}

/// The stable hash of a method id.
pub fn stable_hash(id: MethodId) -> (r: u64)
    ensures
        r == id_hash(id.0),
{
    let mut h = ROOT_HASH;
    mix_u64(&mut h, id.0);
    h
}

/// The prefix of fanout groups that completed before the current group: a
/// rolling hash of their sorted signatures, and their number (saturating).
#[derive(Debug, Clone, Copy, PartialEq, Eq, Hash, Structural)]
pub struct PathPrefix {
    pub hash: u64,
    pub depth: u16,
}

/// The empty prefix.
pub open spec fn root_prefix() -> PathPrefix {
    PathPrefix { hash: ROOT_HASH, depth: 0 }
}

/// The prefix `p` followed by one group with signature `sig`.
pub open spec fn prefix_after(p: PathPrefix, sig: Seq<u64>) -> PathPrefix {
    PathPrefix {
        hash: mix_ids(mixed(mixed(p.hash, SIGNATURE_TAG), sig.len() as u64), sig),
        depth: if p.depth == u16::MAX { u16::MAX } else { (p.depth + 1) as u16 },
    }
}

impl PathPrefix {
    /// The empty prefix.
    pub fn root() -> (p: PathPrefix)
        ensures
            p == root_prefix(),
    {
        PathPrefix { hash: ROOT_HASH, depth: 0 }
    }

    /// The hash of the prefix.
    pub fn hash_value(&self) -> (r: u64)
        ensures
            r == self.hash,
    {
        self.hash
    }

    /// The number of groups in the prefix (saturating at `u16::MAX`).
    pub fn depth(&self) -> (r: u16)
        ensures
            r == self.depth,
    {
        self.depth
    }

    /// A readable label: `root` for the empty prefix, otherwise the depth
    /// and the 16 hex digits of the hash, separated by a colon.
    pub fn label(self) -> (s: String)
        ensures
            s@ == if self.depth == 0 {
                "root"@
            } else {
                decimal_text(self.depth as u64) + ":"@ + hex16_text(self.hash)
            },
    {
        if self.depth == 0 {
            return String::from_str("root");
        }
        let mut s = String::new();
        append_decimal(&mut s, self.depth as u64);
        s.append(":");
        append_hex16(&mut s, self.hash);
        proof {
            assert(Seq::<char>::empty() + decimal_text(self.depth as u64) =~= decimal_text(self.depth as u64));
        }
        s
    }

    /// This prefix followed by one group with the sorted signature
    /// `signature`.
    pub fn append_signature(self, signature: &[u64]) -> (p: PathPrefix)
        ensures
            p == prefix_after(self, signature@),
    {
        let mut hash = self.hash;
        mix_u64(&mut hash, SIGNATURE_TAG);
        mix_u64(&mut hash, signature.len() as u64);
        let ghost h0 = hash;
        let mut i: usize = 0;
        while i < signature.len()
            invariant
                0 <= i <= signature@.len(),
                hash == mix_ids(h0, signature@.take(i as int)),
            decreases signature@.len() - i,
        {
            assert(signature@.take(i + 1).drop_last() =~= signature@.take(i as int));
            let h = stable_hash(MethodId(signature[i]));
            mix_u64(&mut hash, h);
            i = i + 1;
        }
        assert(signature@.take(signature@.len() as int) =~= signature@);
        PathPrefix { hash, depth: self.depth.saturating_add(1) }
    }
}

impl Default for PathPrefix {
    fn default() -> (p: PathPrefix)
        ensures
            p == root_prefix(),
    {
        PathPrefix::root()
    }
}

/// The number of times `x` occurs in `s`.
pub open spec fn count_of(s: Seq<u64>, x: u64) -> nat
    decreases s.len(),
{
    if s.len() == 0 {
        0
    } else {
        count_of(s.drop_first(), x) + if s[0] == x { 1nat } else { 0nat }
    }
}

/// Whether every id occurs in `needle` at most as often as in `hay`.
pub open spec fn is_sub_multiset(needle: Seq<u64>, hay: Seq<u64>) -> bool {
    forall|x: u64| #[trigger] count_of(needle, x) <= count_of(hay, x)
}

/// In an ascending sequence whose first item exceeds `x`, `x` does not occur.
proof fn lemma_count_absent_below(s: Seq<u64>, x: u64)
    requires
        is_sorted(s),
        s.len() > 0 ==> x < s[0],
    ensures
        count_of(s, x) == 0,
    decreases s.len(),
{
    if s.len() > 0 {
        let t = s.drop_first();
        if t.len() > 0 {
            assert(s[0] <= s[1]);
        }
        lemma_count_absent_below(t, x);
    }
}

/// Whether `needle` is a multiset-subset of `hay`, both sorted ascending.
pub fn is_multiset_subset(needle: &[u64], hay: &[u64]) -> (r: bool)
    requires
        is_sorted(needle@),
        is_sorted(hay@),
    ensures
        r == is_sub_multiset(needle@, hay@),
{
    if needle.len() > hay.len() {
        proof {
            lemma_longer_has_more(needle@, hay@);
            let x = choose|x: u64| count_of(needle@, x) > count_of(hay@, x);
            assert(count_of(needle@, x) > count_of(hay@, x));
        }
        return false;
    }
    let mut i: usize = 0;
    let mut j: usize = 0;
    assert(needle@.skip(0) =~= needle@);
    assert(hay@.skip(0) =~= hay@);
    while i < needle.len() && j < hay.len()
        invariant
            0 <= i <= needle@.len(),
            0 <= j <= hay@.len(),
            is_sorted(needle@),
            is_sorted(hay@),
            is_sub_multiset(needle@, hay@) == is_sub_multiset(needle@.skip(i as int), hay@.skip(j as int)),
        decreases needle@.len() - i + hay@.len() - j,
    {
        let a = needle[i];
        let b = hay[j];
        let ghost n = needle@.skip(i as int);
        let ghost h = hay@.skip(j as int);
        proof {
            assert(n[0] == a && h[0] == b);
            assert(n.drop_first() =~= needle@.skip(i + 1));
            assert(h.drop_first() =~= hay@.skip(j + 1));
        }
        if a == b {
            proof {
                lemma_sub_multiset_step_both(n, h);
            }
            i = i + 1;
            j = j + 1;
        } else if a > b {
            proof {
                lemma_sorted_skip(needle@, i as int);
                lemma_count_absent_below(n, b);
                lemma_sub_multiset_step_hay(n, h);
            }
            j = j + 1;
        } else {
            proof {
                lemma_sorted_skip(hay@, j as int);
                lemma_count_absent_below(h, a);
                assert(count_of(n, a) > count_of(h, a));
            }
            return false;
        }
    }
    if i == needle.len() {
        proof {
            assert(needle@.skip(i as int).len() == 0);
            assert forall|x: u64| #[trigger] count_of(needle@.skip(i as int), x) <= count_of(
                hay@.skip(j as int),
                x,
            ) by {
            }
        }
        true
    } else {
        proof {
            let n = needle@.skip(i as int);
            assert(n[0] == needle@[i as int]);
            assert(hay@.skip(j as int).len() == 0);
            assert(count_of(hay@.skip(j as int), n[0]) == 0);
            assert(count_of(n, n[0]) > 0);
        }
        false
    }
}

/// A suffix of an ascending sequence is ascending.
proof fn lemma_sorted_skip(s: Seq<u64>, k: int)
    requires
        is_sorted(s),
        0 <= k <= s.len(),
    ensures
        is_sorted(s.skip(k)),
{
    let t = s.skip(k);
    assert forall|a: int, b: int| 0 <= a <= b < t.len() implies t[a] <= t[b] by {
        assert(t[a] == s[k + a] && t[b] == s[k + b]);
    }
}

/// A sequence longer than another has an item that occurs in it more often.
proof fn lemma_longer_has_more(s: Seq<u64>, t: Seq<u64>)
    requires
        t.len() < s.len(),
    ensures
        exists|x: u64| count_of(s, x) > count_of(t, x),
    decreases s.len(),
{
    let x = s[0];
    let s1 = s.drop_first();
    if count_of(s, x) > count_of(t, x) {
    } else {
        // Remove one `x` from `t` and recurse on the shorter sequences.
        lemma_count_pos_has_index(t, x);
        let k = choose_index(t, x);
        let t1 = t.remove(k);
        lemma_remove_count(t, k);
        lemma_longer_has_more(s1, t1);
        let y = choose|y: u64| count_of(s1, y) > count_of(t1, y);
        assert(count_of(s, y) > count_of(t, y));
    }
}

/// An index of `x` in `t`, given that `x` occurs in `t`.
spec fn choose_index(t: Seq<u64>, x: u64) -> int {
    choose|k: int| 0 <= k < t.len() && t[k] == x
}

proof fn lemma_count_pos_has_index(t: Seq<u64>, x: u64)
    requires
        count_of(t, x) > 0,
    ensures
        exists|k: int| 0 <= k < t.len() && t[k] == x,
    decreases t.len(),
{
    if t[0] != x {
        lemma_count_pos_has_index(t.drop_first(), x);
        let k = choose|k: int| 0 <= k < t.drop_first().len() && t.drop_first()[k] == x;
        assert(t[k + 1] == x);
    }
}

proof fn lemma_remove_count(t: Seq<u64>, k: int)
    requires
        0 <= k < t.len(),
    ensures
        forall|y: u64| #[trigger] count_of(t.remove(k), y) + (if t[k] == y { 1nat } else { 0nat }) == count_of(t, y),
    decreases t.len(),
{
    if k == 0 {
        assert(t.remove(0) =~= t.drop_first());
    } else {
        let t1 = t.drop_first();
        lemma_remove_count(t1, k - 1);
        assert(t.remove(k).drop_first() =~= t1.remove(k - 1));
        assert(t.remove(k)[0] == t[0]);
        assert(t1[k - 1] == t[k]);
        assert forall|y: u64| #[trigger] count_of(t.remove(k), y) + (if t[k] == y { 1nat } else { 0nat }) == count_of(t, y) by {
            assert(count_of(t1.remove(k - 1), y) + (if t1[k - 1] == y { 1nat } else { 0nat }) == count_of(t1, y));
        }
    }
}

/// Dropping an equal first item from both sides keeps multiset inclusion.
proof fn lemma_sub_multiset_step_both(n: Seq<u64>, h: Seq<u64>)
    requires
        n.len() > 0,
        h.len() > 0,
        n[0] == h[0],
    ensures
        is_sub_multiset(n, h) == is_sub_multiset(n.drop_first(), h.drop_first()),
{
    let n1 = n.drop_first();
    let h1 = h.drop_first();
    if is_sub_multiset(n, h) {
        assert forall|x: u64| #[trigger] count_of(n1, x) <= count_of(h1, x) by {
            assert(count_of(n, x) <= count_of(h, x));
        }
    }
    if is_sub_multiset(n1, h1) {
        assert forall|x: u64| #[trigger] count_of(n, x) <= count_of(h, x) by {
            assert(count_of(n1, x) <= count_of(h1, x));
        }
    }
}

/// Dropping from `h` a first item that `n` lacks keeps multiset inclusion.
proof fn lemma_sub_multiset_step_hay(n: Seq<u64>, h: Seq<u64>)
    requires
        h.len() > 0,
        count_of(n, h[0]) == 0,
    ensures
        is_sub_multiset(n, h) == is_sub_multiset(n, h.drop_first()),
{
    let h1 = h.drop_first();
    if is_sub_multiset(n, h) {
        assert forall|x: u64| #[trigger] count_of(n, x) <= count_of(h1, x) by {
            assert(count_of(n, x) <= count_of(h, x));
        }
    }
    if is_sub_multiset(n, h1) {
        assert forall|x: u64| #[trigger] count_of(n, x) <= count_of(h, x) by {
            assert(count_of(n, x) <= count_of(h1, x));
        }
    }
}


/// One child call issued by a handler invocation. Times are in
/// microseconds on a monotonic clock.
#[derive(Debug, Clone, Copy, PartialEq, Eq, Structural)]
pub struct ChildRecord {
    pub child_id: MethodId,
    pub child_service_id: MethodId,
    pub start: u64,
    /// When the call returned, unless it returned early or has not returned.
    pub end: Option<u64>,
    /// True once the call has returned, early returns included.
    pub terminal: bool,
}

/// The end of a completed record.
pub open spec fn end_of(c: ChildRecord) -> u64 {
    match c.end {
        Some(e) => e,
        None => 0,
    }
}

/// The number of leading records of `s` that start no later than `t`.
pub open spec fn leading_not_after(s: Seq<ChildRecord>, t: u64) -> nat
    decreases s.len(),
{
    if s.len() == 0 || s[0].start > t {
        0
    } else {
        1 + leading_not_after(s.drop_first(), t)
    }
}

/// `s`, ordered by start time, with `c` inserted after every record that
/// starts no later than it.
pub open spec fn insert_by_start(s: Seq<ChildRecord>, c: ChildRecord) -> Seq<ChildRecord> {
    s.insert(leading_not_after(s, c.start) as int, c)
}

/// `s` sorted by start time, records with equal starts kept in their order
/// (a stable sort).
pub open spec fn sort_by_start(s: Seq<ChildRecord>) -> Seq<ChildRecord>
    decreases s.len(),
{
    if s.len() == 0 {
        s
    } else {
        insert_by_start(sort_by_start(s.drop_last()), s.last())
    }
}

/// The completed records of `s` (those with an end time), in order.
pub open spec fn completed_records(s: Seq<ChildRecord>) -> Seq<ChildRecord> {
    s.filter(|c: ChildRecord| c.end is Some)
}

/// A fanout group being recovered: its members' ids in start order, and
/// the latest end among them.
pub struct GroupAcc {
    pub ids: Seq<u64>,
    pub service_ids: Seq<u64>,
    pub max_end: u64,
}

/// The group made of the record `c` alone.
pub open spec fn group_of(c: ChildRecord) -> GroupAcc {
    GroupAcc { ids: seq![c.child_id.0], service_ids: seq![c.child_service_id.0], max_end: end_of(c) }
}

/// Groups by interval overlap of the first `n` (at least one) records of
/// `cs`, sorted by start: the groups closed so far, and the open one. A
/// record joins the open group when it starts no later than the group's
/// latest end, and starts a new group otherwise.
pub open spec fn group_fold(cs: Seq<ChildRecord>, n: nat) -> (Seq<GroupAcc>, GroupAcc)
    decreases n,
{
    if n <= 1 {
        (Seq::empty(), group_of(cs[0]))
    } else {
        let (closed, cur) = group_fold(cs, (n - 1) as nat);
        let c = cs[n - 1];
        if c.start <= cur.max_end {
            (closed, GroupAcc {
                ids: cur.ids.push(c.child_id.0),
                service_ids: cur.service_ids.push(c.child_service_id.0),
                max_end: if end_of(c) > cur.max_end { end_of(c) } else { cur.max_end },
            })
        } else {
            (closed.push(cur), group_of(c))
        }
    }
}

/// The groups of the records `cs` sorted by start, in start order.
pub open spec fn groups_of(cs: Seq<ChildRecord>) -> Seq<GroupAcc> {
    if cs.len() == 0 {
        Seq::empty()
    } else {
        let (closed, cur) = group_fold(cs, cs.len());
        closed.push(cur)
    }
}

/// One recovered fanout group: its sorted signatures and its post-join time.
#[derive(Debug, Clone, PartialEq, Eq)]
pub struct FanoutGroupObservation {
    pub signature: Vec<u64>,
    pub service_signature: Vec<u64>,
    pub post_join_us: u64,
}

/// The abstract content of a recovered group.
pub struct GroupObs {
    pub signature: Seq<u64>,
    pub service_signature: Seq<u64>,
    pub post_join_us: u64,
}

/// The observation of group `g` for a parent that ended at `parent_end`:
/// sorted signatures, and the time from the group's last end to the
/// parent's end (0 if the group ended later).
pub open spec fn observe_group(g: GroupAcc, parent_end: u64) -> GroupObs {
    GroupObs {
        signature: sorted_values(g.ids),
        service_signature: sorted_values(g.service_ids),
        post_join_us: if parent_end >= g.max_end { (parent_end - g.max_end) as u64 } else { 0 },
    }
}

/// The fanout groups recovered from `children` for a parent that ended at
/// `parent_end`: connected components by interval overlap of the completed
/// children, ordered by start time.
pub open spec fn recovered_groups(children: Seq<ChildRecord>, parent_end: u64) -> Seq<GroupObs> {
    groups_of(sort_by_start(completed_records(children))).map_values(
        |g: GroupAcc| observe_group(g, parent_end),
    )
}

/// Whether the observation `o` holds the content `g`.
pub open spec fn obs_matches(o: FanoutGroupObservation, g: GroupObs) -> bool {
    &&& o.signature@ == g.signature
    &&& o.service_signature@ == g.service_signature
    &&& o.post_join_us == g.post_join_us
}

/// Inserts `c` into `sorted` after every record that starts no later than
/// it.
fn insert_record_by_start(sorted: &mut Vec<ChildRecord>, c: ChildRecord)
    ensures
        final(sorted)@ == insert_by_start(old(sorted)@, c),
{
    let ghost s0 = sorted@;
    let mut k: usize = 0;
    assert(s0.skip(0) =~= s0);
    while k < sorted.len() && sorted[k].start <= c.start
        invariant
            0 <= k <= s0.len(),
            sorted@ == s0,
            leading_not_after(s0, c.start) == k + leading_not_after(s0.skip(k as int), c.start),
        decreases s0.len() - k,
    {
        assert(s0.skip(k as int).drop_first() =~= s0.skip(k + 1));
        k = k + 1;
    }
    proof {
        if k < s0.len() {
            assert(s0.skip(k as int)[0] == s0[k as int]);
        }
    }
    sorted.insert(k, c);
}

/// The completed children, sorted by start time (stable).
fn completed_by_start(children: &[ChildRecord]) -> (r: Vec<ChildRecord>)
    ensures
        r@ == sort_by_start(completed_records(children@)),
{
    let mut r: Vec<ChildRecord> = Vec::new();
    let mut i: usize = 0;
    assert(children@.take(0) =~= Seq::<ChildRecord>::empty());
    while i < children.len()
        invariant
            0 <= i <= children@.len(),
            r@ == sort_by_start(completed_records(children@.take(i as int))),
        decreases children@.len() - i,
    {
        let c = children[i];
        let ghost pre = children@.take(i as int);
        assert(children@.take(i + 1) =~= pre.push(c));
        proof {
            lemma_filter_push(pre, c);
        }
        if c.end.is_some() {
            insert_record_by_start(&mut r, c);
            proof {
                let f = completed_records(pre).push(c);
                assert(f.drop_last() =~= completed_records(pre));
            }
        }
        i = i + 1;
    }
    assert(children@.take(children@.len() as int) =~= children@);
    r
}

proof fn lemma_filter_push(s: Seq<ChildRecord>, c: ChildRecord)
    ensures
        completed_records(s.push(c)) == if c.end is Some {
            completed_records(s).push(c)
        } else {
            completed_records(s)
        },
{
    reveal(Seq::filter);
    assert(s.push(c).drop_last() =~= s);
    assert(s.push(c).last() == c);
}

/// Appends the observation of a group with the given members and latest end.
fn push_group_observation(
    out: &mut Vec<FanoutGroupObservation>,
    signature: Vec<u64>,
    service_signature: Vec<u64>,
    group_max_end: u64,
    parent_end: u64,
)
    ensures
        final(out)@.len() == old(out)@.len() + 1,
        forall|i: int| 0 <= i < old(out)@.len() ==> #[trigger] final(out)@[i] == old(out)@[i],
        obs_matches(
            final(out)@[old(out)@.len() as int],
            observe_group(
                GroupAcc {
                    ids: signature@,
                    service_ids: service_signature@,
                    max_end: group_max_end,
                },
                parent_end,
            ),
        ),
{
    let mut signature = signature;
    let mut service_signature = service_signature;
    sort_values(&mut signature);
    sort_values(&mut service_signature);
    let post_join_us = parent_end.saturating_sub(group_max_end);
    out.push(FanoutGroupObservation { signature, service_signature, post_join_us });
}

/// Recovers the fanout groups of `children` for a parent that ended at
/// `parent_end`, in start order.
pub fn recover_group_observations(children: &[ChildRecord], parent_end: u64) -> (r: Vec<
    FanoutGroupObservation,
>)
    ensures
        r@.len() == recovered_groups(children@, parent_end).len(),
        forall|i: int|
            0 <= i < r@.len() ==> obs_matches(
                #[trigger] r@[i],
                recovered_groups(children@, parent_end)[i],
            ),
{
    let completed = completed_by_start(children);
    let ghost cs = completed@;
    let mut out: Vec<FanoutGroupObservation> = Vec::new();
    if completed.len() == 0 {
        return out;
    }
    let first = completed[0];
    let mut group_max_end: u64 = match first.end {
        Some(e) => e,
        None => 0,
    };
    let mut signature: Vec<u64> = Vec::new();
    signature.push(first.child_id.0);
    let mut service_signature: Vec<u64> = Vec::new();
    service_signature.push(first.child_service_id.0);
    let mut i: usize = 1;
    while i < completed.len()
        invariant
            1 <= i <= cs.len(),
            completed@ == cs,
            ({
                let (closed, cur) = group_fold(cs, i as nat);
                &&& out@.len() == closed.len()
                &&& forall|k: int| 0 <= k < out@.len() ==> obs_matches(
                    #[trigger] out@[k],
                    observe_group(closed[k], parent_end),
                )
                &&& signature@ == cur.ids
                &&& service_signature@ == cur.service_ids
                &&& group_max_end == cur.max_end
            }),
        decreases cs.len() - i,
    {
        let c = completed[i];
        let end = match c.end {
            Some(e) => e,
            None => 0,
        };
        if c.start <= group_max_end {
            signature.push(c.child_id.0);
            service_signature.push(c.child_service_id.0);
            if end > group_max_end {
                group_max_end = end;
            }
        } else {
            let sig = signature;
            let ssig = service_signature;
            signature = Vec::new();
            service_signature = Vec::new();
            push_group_observation(&mut out, sig, ssig, group_max_end, parent_end);
            group_max_end = end;
            signature.push(c.child_id.0);
            service_signature.push(c.child_service_id.0);
        }
        i = i + 1;
    }
    push_group_observation(&mut out, signature, service_signature, group_max_end, parent_end);
    out
}

/// Recovers the fanout groups of `children` as (sorted signature,
/// post-join time) pairs, in start order.
pub fn recover_groups(children: &[ChildRecord], parent_end: u64) -> (r: Vec<(Vec<u64>, u64)>)
    ensures
        r@.len() == recovered_groups(children@, parent_end).len(),
        forall|i: int|
            0 <= i < r@.len() ==> (#[trigger] r@[i]).0@ == recovered_groups(children@, parent_end)[i].signature
                && r@[i].1 == recovered_groups(children@, parent_end)[i].post_join_us,
{
    let groups = recover_group_observations(children, parent_end);
    let mut r: Vec<(Vec<u64>, u64)> = Vec::new();
    let mut i: usize = 0;
    while i < groups.len()
        invariant
            0 <= i <= groups@.len(),
            r@.len() == i,
            forall|k: int| 0 <= k < i ==> (#[trigger] r@[k]).0@ == groups@[k].signature@ && r@[k].1
                == groups@[k].post_join_us,
        decreases groups@.len() - i,
    {
        let g = &groups[i];
        r.push((g.signature.clone(), g.post_join_us));
        i = i + 1;
    }
    r
}

/// The prefix formed by the first `n` groups of `obs`, by their
/// signatures (`service` false) or service signatures (`service` true).
pub open spec fn prefix_through(obs: Seq<GroupObs>, n: nat, service: bool) -> PathPrefix
    decreases n,
{
    if n == 0 {
        root_prefix()
    } else {
        prefix_after(
            prefix_through(obs, (n - 1) as nat, service),
            if service { obs[n - 1].service_signature } else { obs[n - 1].signature },
        )
    }
}

/// One recovered fanout group with the path prefixes of the groups that
/// precede it in the same invocation.
#[derive(Debug, Clone, PartialEq, Eq)]
pub struct PathFanoutObservation {
    pub path_prefix: PathPrefix,
    pub signature: Vec<u64>,
    pub service_path_prefix: PathPrefix,
    pub service_signature: Vec<u64>,
    pub post_join_us: u64,
}

/// Whether `o` is the `i`-th group of `obs` with its prefixes.
pub open spec fn path_obs_matches(o: PathFanoutObservation, obs: Seq<GroupObs>, i: int) -> bool {
    &&& o.path_prefix == prefix_through(obs, i as nat, false)
    &&& o.service_path_prefix == prefix_through(obs, i as nat, true)
    &&& o.signature@ == obs[i].signature
    &&& o.service_signature@ == obs[i].service_signature
    &&& o.post_join_us == obs[i].post_join_us
}

/// Recovers the fanout groups of `children`, each with the path prefixes
/// built from the groups before it.
pub fn recover_path_groups(children: &[ChildRecord], parent_end: u64) -> (r: Vec<
    PathFanoutObservation,
>)
    ensures
        r@.len() == recovered_groups(children@, parent_end).len(),
        forall|i: int|
            0 <= i < r@.len() ==> path_obs_matches(
                #[trigger] r@[i],
                recovered_groups(children@, parent_end),
                i,
            ),
{
    let groups = recover_group_observations(children, parent_end);
    let ghost obs = recovered_groups(children@, parent_end);
    let mut prefix = PathPrefix::root();
    let mut service_prefix = PathPrefix::root();
    let mut out: Vec<PathFanoutObservation> = Vec::new();
    let mut i: usize = 0;
    while i < groups.len()
        invariant
            0 <= i <= groups@.len(),
            groups@.len() == obs.len(),
            forall|k: int| 0 <= k < groups@.len() ==> obs_matches(#[trigger] groups@[k], obs[k]),
            out@.len() == i,
            prefix == prefix_through(obs, i as nat, false),
            service_prefix == prefix_through(obs, i as nat, true),
            forall|k: int| 0 <= k < i ==> path_obs_matches(#[trigger] out@[k], obs, k),
        decreases groups@.len() - i,
    {
        let g = &groups[i];
        proof {
            assert(obs_matches(groups@[i as int], obs[i as int]));
        }
        out.push(
            PathFanoutObservation {
                path_prefix: prefix,
                signature: g.signature.clone(),
                service_path_prefix: service_prefix,
                service_signature: g.service_signature.clone(),
                post_join_us: g.post_join_us,
            },
        );
        prefix = prefix.append_signature(g.signature.as_slice());
        service_prefix = service_prefix.append_signature(g.service_signature.as_slice());
        i = i + 1;
    }
    out
}

/// The number of children in the observed groups `gs`.
pub open spec fn total_ids(gs: Seq<GroupObs>) -> nat
    decreases gs.len(),
{
    if gs.len() == 0 {
        0
    } else {
        total_ids(gs.drop_last()) + gs.last().signature.len()
    }
}

/// The number of children in the groups `gs`.
pub open spec fn total_members(gs: Seq<GroupAcc>) -> nat
    decreases gs.len(),
{
    if gs.len() == 0 {
        0
    } else {
        total_members(gs.drop_last()) + gs.last().ids.len()
    }
}

proof fn lemma_leading_not_after_le(s: Seq<ChildRecord>, t: u64)
    ensures
        leading_not_after(s, t) <= s.len(),
    decreases s.len(),
{
    if s.len() > 0 && s[0].start <= t {
        lemma_leading_not_after_le(s.drop_first(), t);
    }
}

proof fn lemma_sort_by_start_len(s: Seq<ChildRecord>)
    ensures
        sort_by_start(s).len() == s.len(),
    decreases s.len(),
{
    if s.len() > 0 {
        lemma_sort_by_start_len(s.drop_last());
        lemma_leading_not_after_le(sort_by_start(s.drop_last()), s.last().start);
    }
}

proof fn lemma_group_fold_sizes(cs: Seq<ChildRecord>, n: nat)
    requires
        1 <= n <= cs.len(),
    ensures
        total_members(group_fold(cs, n).0) + group_fold(cs, n).1.ids.len() == n,
    decreases n,
{
    if n > 1 {
        lemma_group_fold_sizes(cs, (n - 1) as nat);
        let (closed, cur) = group_fold(cs, (n - 1) as nat);
        assert(closed.push(cur).drop_last() =~= closed);
    }
}

proof fn lemma_observed_sizes(gs: Seq<GroupAcc>, parent_end: u64)
    ensures
        total_ids(gs.map_values(|g: GroupAcc| observe_group(g, parent_end))) == total_members(gs),
    decreases gs.len(),
{
    let f = |g: GroupAcc| observe_group(g, parent_end);
    if gs.len() > 0 {
        lemma_observed_sizes(gs.drop_last(), parent_end);
        assert(gs.map_values(f).drop_last() =~= gs.drop_last().map_values(f));
        lemma_sorted_len(gs.last().ids);
    }
}

/// Law: the recovered groups partition the completed children: together
/// they hold as many children as completed.
pub proof fn law_groups_cover_completed_children(children: Seq<ChildRecord>, parent_end: u64)
    ensures
        total_ids(recovered_groups(children, parent_end)) == completed_records(children).len(),
{
    let cs = sort_by_start(completed_records(children));
    lemma_sort_by_start_len(completed_records(children));
    let gs = groups_of(cs);
    if cs.len() > 0 {
        lemma_group_fold_sizes(cs, cs.len());
        let (closed, cur) = group_fold(cs, cs.len());
        assert(closed.push(cur).drop_last() =~= closed);
    }
    lemma_observed_sizes(gs, parent_end);
}

} // verus!
