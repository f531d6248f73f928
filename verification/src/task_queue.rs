//! The executor's run queue: tasks keyed by priority, the highest key
//! first. The queue is a binary max-heap laid out in a vector.
use vstd::multiset::Multiset;
use vstd::prelude::*;

verus! {

broadcast use {
    vstd::seq_lib::group_to_multiset_ensures,
    vstd::multiset::group_multiset_axioms,
    vstd::multiset::group_multiset_properties,
};

/// `<[T]>::swap`: exchanges the elements at `a` and `b` (which may be
/// equal); it panics when either is out of bounds, which `requires` rules
/// out.
#[verifier::external_body]
fn swap_entries<T>(v: &mut Vec<(u64, T)>, a: usize, b: usize)
    requires
        a < old(v)@.len(),
        b < old(v)@.len(),
    ensures
        final(v)@ == old(v)@.update(a as int, old(v)@[b as int]).update(b as int, old(v)@[a as int]),
{
    v.as_mut_slice().swap(a, b);
}

/// The index of the parent of heap slot `i`.
pub open spec fn parent(i: int) -> int {
    (i - 1) / 2
}

/// No entry has a higher key than its parent.
pub open spec fn heap_ordered<T>(s: Seq<(u64, T)>) -> bool {
    forall|k: int| 0 < k < s.len() ==> #[trigger] s[k].0 <= s[parent(k)].0
}

/// Heap order holds everywhere but possibly between slot `i` and its
/// parent, and `i`'s children are bounded by `i`'s parent.
spec fn ordered_except_up<T>(s: Seq<(u64, T)>, i: int) -> bool {
    &&& forall|k: int| 0 < k < s.len() && k != i ==> #[trigger] s[k].0 <= s[parent(k)].0
    &&& forall|k: int| 0 < k < s.len() && parent(k) == i && i > 0 ==> #[trigger] s[k].0 <= s[parent(i)].0
}

/// Heap order holds everywhere but possibly between slot `i` and its
/// children, and `i`'s children are bounded by `i`'s parent.
spec fn ordered_except_down<T>(s: Seq<(u64, T)>, i: int) -> bool {
    &&& forall|k: int| 0 < k < s.len() && parent(k) != i ==> #[trigger] s[k].0 <= s[parent(k)].0
    &&& forall|k: int| 0 < k < s.len() && parent(k) == i && i > 0 ==> #[trigger] s[k].0 <= s[parent(i)].0
}

/// In a heap-ordered sequence, the root's key is the largest.
proof fn lemma_root_is_max<T>(s: Seq<(u64, T)>, j: int)
    requires
        heap_ordered(s),
        0 <= j < s.len(),
    ensures
        s[j].0 <= s[0].0,
    decreases j,
{
    if j > 0 {
        assert(s[j].0 <= s[parent(j)].0);
        lemma_root_is_max(s, parent(j));
    }
}

/// Exchanging two entries keeps the multiset of entries.
proof fn lemma_swap_keeps_multiset<T>(s: Seq<(u64, T)>, a: int, b: int)
    requires
        0 <= a < s.len(),
        0 <= b < s.len(),
    ensures
        s.update(a, s[b]).update(b, s[a]).to_multiset() == s.to_multiset(),
{
    let s1 = s.update(a, s[b]);
    assert(s1.to_multiset() == s.to_multiset().insert(s[b]).remove(s[a]));
    assert(s1.update(b, s[a]).to_multiset() == s1.to_multiset().insert(s[a]).remove(s1[b]));
    if a == b {
        assert(s.update(a, s[b]).update(b, s[a]) =~= s);
    } else {
        assert(s1[b] == s[b]);
        assert(s1.update(b, s[a]).to_multiset() =~= s.to_multiset());
    }
}

/// Moves the entry at `i` up until its parent's key is at least its own.
fn sift_up<T>(v: &mut Vec<(u64, T)>, i: usize)
    requires
        i < old(v)@.len(),
        ordered_except_up(old(v)@, i as int),
    ensures
        heap_ordered(final(v)@),
        final(v)@.to_multiset() == old(v)@.to_multiset(),
        final(v)@.len() == old(v)@.len(),
{
    let mut i = i;
    while i > 0
        invariant
            i < v@.len(),
            v@.len() == old(v)@.len(),
            ordered_except_up(v@, i as int),
            v@.to_multiset() == old(v)@.to_multiset(),
        decreases i,
    {
        let p = (i - 1) / 2;
        if v[p].0 >= v[i].0 {
            assert(heap_ordered(v@));
            return;
        }
        let ghost s = v@;
        proof {
            lemma_swap_keeps_multiset(s, i as int, p as int);
        }
        swap_entries(v, i, p);
        let ghost t = v@;
        assert(t =~= s.update(i as int, s[p as int]).update(p as int, s[i as int]));
        assert forall|k: int| 0 < k < t.len() && k != p ==> #[trigger] t[k].0 <= t[parent(k)].0 by {
            if 0 < k < t.len() && k != p {
                if k == i as int {
                } else if parent(k) == i as int {
                    assert(s[k].0 <= s[parent(i as int)].0);
                } else if parent(k) == p as int {
                    assert(s[k].0 <= s[p as int].0);
                } else {
                    assert(s[k].0 <= s[parent(k)].0);
                }
            }
        }
        assert forall|k: int| 0 < k < t.len() && parent(k) == p && p > 0 implies #[trigger] t[k].0 <= t[parent(p as int)].0 by {
            assert(s[p as int].0 <= s[parent(p as int)].0);
            if k != i as int {
                assert(s[k].0 <= s[p as int].0);
            }
        }
        i = p;
    }
    assert(heap_ordered(v@));
}

/// Moves the entry at `i` down until no child's key exceeds its own.
fn sift_down<T>(v: &mut Vec<(u64, T)>, i: usize)
    requires
        i < old(v)@.len(),
        ordered_except_down(old(v)@, i as int),
    ensures
        heap_ordered(final(v)@),
        final(v)@.to_multiset() == old(v)@.to_multiset(),
        final(v)@.len() == old(v)@.len(),
{
    let len = v.len();
    let mut i = i;
    loop
        invariant
            i < len,
            v@.len() == len,
            len == old(v)@.len(),
            ordered_except_down(v@, i as int),
            v@.to_multiset() == old(v)@.to_multiset(),
        decreases len - i,
    {
        let ghost s = v@;
        if i >= len / 2 {
            assert forall|k: int| 0 < k < s.len() implies #[trigger] s[k].0 <= s[parent(k)].0 by {
                if parent(k) == i as int {
                    assert(k >= 2 * i + 1);
                }
            }
            return;
        }
        let l = 2 * i + 1;
        let r = l + 1;
        let c = if r < len && v[r].0 > v[l].0 { r } else { l };
        if v[c].0 <= v[i].0 {
            assert forall|k: int| 0 < k < s.len() implies #[trigger] s[k].0 <= s[parent(k)].0 by {
                if parent(k) == i as int {
                    assert(k == l || k == r);
                }
            }
            return;
        }
        proof {
            lemma_swap_keeps_multiset(s, i as int, c as int);
        }
        swap_entries(v, i, c);
        let ghost t = v@;
        assert(t =~= s.update(i as int, s[c as int]).update(c as int, s[i as int]));
        assert(parent(c as int) == i);
        assert forall|k: int| 0 < k < t.len() && parent(k) != c ==> #[trigger] t[k].0 <= t[parent(k)].0 by {
            if 0 < k < t.len() && parent(k) != c {
                if k == c as int {
                } else if parent(k) == i as int {
                    assert(k == l || k == r);
                } else if k == i as int {
                    assert(s[c as int].0 <= s[parent(i as int)].0);
                } else {
                    assert(s[k].0 <= s[parent(k)].0);
                }
            }
        }
        assert forall|k: int| 0 < k < t.len() && parent(k) == c && c > 0 implies #[trigger] t[k].0 <= t[parent(c as int)].0 by {
            assert(s[k].0 <= s[c as int].0);
        }
        i = c;
    }
}

/// The run queue: entries (priority key, task), the highest key popped
/// first; among equal keys the order is left open.
#[derive(Debug)]
pub struct PriorityQueue<T> {
    heap: Vec<(u64, T)>,
}

impl<T> View for PriorityQueue<T> {
    type V = Multiset<(u64, T)>;

    closed spec fn view(&self) -> Multiset<(u64, T)> {
        self.heap@.to_multiset()
    }
}

impl<T> PriorityQueue<T> {
    /// The queue's layout is a max-heap.
    pub closed spec fn wf(&self) -> bool {
        heap_ordered(self.heap@)
    }

    /// An empty queue.
    pub fn new() -> (q: Self)
        ensures
            q.wf(),
            q@ == Multiset::<(u64, T)>::empty(),
    {
        let q = PriorityQueue { heap: Vec::new() };
        assert(q.heap@ =~= Seq::<(u64, T)>::empty());
        q
    }

    /// The number of queued tasks.
    pub fn len(&self) -> (r: usize)
        ensures
            r == self@.len(),
    {
        self.heap.len()
    }

    /// The queue has no bound: it is never full.
    pub fn is_full(&self) -> (r: bool)
        ensures
            !r,
    {
        false
    }

    /// Queues `task` with priority `key`.
    pub fn push(&mut self, key: u64, task: T)
        requires
            old(self).wf(),
        ensures
            final(self).wf(),
            final(self)@ == old(self)@.insert((key, task)),
    {
        let ghost s = self.heap@;
        self.heap.push((key, task));
        let n = self.heap.len() - 1;
        assert(self.heap@ == s.push((key, task)));
        assert forall|k: int| 0 < k < self.heap@.len() && parent(k) == n && n > 0 implies #[trigger] self.heap@[k].0
            <= self.heap@[parent(n as int)].0 by {
            assert(2 * k >= 2 * n + 1);
        }
        sift_up(&mut self.heap, n);
    }

    /// Takes a task with the highest key, if any is queued.
    pub fn pop(&mut self) -> (r: Option<(u64, T)>)
        requires
            old(self).wf(),
        ensures
            final(self).wf(),
            old(self)@.len() == 0 ==> r is None && final(self)@ == old(self)@,
            old(self)@.len() > 0 ==> (r matches Some(e) && {
                &&& old(self)@.count(e) > 0
                &&& forall|x: (u64, T)| old(self)@.count(x) > 0 ==> x.0 <= e.0
                &&& final(self)@ == old(self)@.remove(e)
            }),
    {
        let len = self.heap.len();
        if len == 0 {
            return None;
        }
        let ghost s = self.heap@;
        proof {
            lemma_swap_keeps_multiset(s, 0, len - 1);
            assert forall|x: (u64, T)| s.to_multiset().count(x) > 0 implies x.0 <= s[0].0 by {
                assert(s.contains(x));
                let j = choose|j: int| 0 <= j < s.len() && s[j] == x;
                lemma_root_is_max(s, j);
            }
        }
        swap_entries(&mut self.heap, 0, len - 1);
        let ghost t = self.heap@;
        let top = self.heap.pop();
        let ghost rest = self.heap@;
        assert(t =~= rest.push(t[len - 1]));
        assert(rest.to_multiset() =~= s.to_multiset().remove(s[0]));
        if len > 1 {
            assert forall|k: int| 0 < k < rest.len() && parent(k) != 0 implies #[trigger] rest[k].0 <= rest[parent(k)].0 by {
                assert(s[k].0 <= s[parent(k)].0);
            }
            sift_down(&mut self.heap, 0);
        } else {
            assert(rest.len() == 0);
        }
        top
    }
}

/// Law: successive pops come out in non-increasing key order: what a
/// second pop takes from the queue left by a first pop has a key no higher
/// than the first's.
pub proof fn law_pops_in_priority_order<T>(m: Multiset<(u64, T)>, first: (u64, T), second: (u64, T))
    requires
        m.count(first) > 0,
        forall|x: (u64, T)| m.count(x) > 0 ==> x.0 <= first.0,
        m.remove(first).count(second) > 0,
    ensures
        second.0 <= first.0,
{
    assert(m.count(second) > 0);
}

} // verus!
