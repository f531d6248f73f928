//! Fixed-list round-robin load balancing.
use vstd::prelude::*;

verus! {

/// A fixed list of services, called in round-robin order.
#[derive(Debug)]
pub struct Balance<S> {
    services: Vec<S>,
    next: usize,
}

impl<S> Balance<S> {
    /// The balancer is well formed: it calls a service of its list.
    pub closed spec fn wf(&self) -> bool {
        self.next < self.services@.len() || (self.services@.len() == 0 && self.next == 0)
    }

    /// The services, in order.
    pub closed spec fn services_view(&self) -> Seq<S> {
        self.services@
    }

    /// The index of the service that the next call goes to.
    pub closed spec fn next_view(&self) -> nat {
        self.next as nat
    }

    /// A balancer over `list`, starting with its first service.
    pub fn new(list: Vec<S>) -> (b: Balance<S>)
        ensures
            b.wf(),
            b.services_view() == list@,
            b.next_view() == 0,
    {
        Balance { services: list, next: 0 }
    }

    /// The number of services.
    pub fn len(&self) -> (r: usize)
        ensures
            r == self.services_view().len(),
    {
        self.services.len()
    }

    /// The index of the service that the next call goes to.
    pub fn next_index(&self) -> (r: usize)
        ensures
            r == self.next_view(),
    {
        self.next
    }

    /// The service that the next call goes to.
    pub fn current(&self) -> (r: &S)
        requires
            self.wf(),
            self.services_view().len() > 0,
        ensures
            *r == self.services_view()[self.next_view() as int],
    {
        &self.services[self.next]
    }

    /// After a call: the next call goes to the following service, wrapping
    /// around at the end of the list.
    pub fn advance(&mut self)
        requires
            old(self).wf(),
            old(self).services_view().len() > 0,
        ensures
            final(self).wf(),
            final(self).services_view() == old(self).services_view(),
            final(self).next_view() == (old(self).next_view() + 1) % (old(self).services_view().len() as nat),
    {
        let len = self.services.len();
        let n = self.next;
        assert(n < len);
        self.next = (n + 1) % len;
    }

    /// The service that the next call goes to, to poll or call it in place.
    pub fn current_mut(&mut self) -> (r: &mut S)
        requires
            old(self).wf(),
            old(self).services_view().len() > 0,
        ensures
            *r == old(self).services_view()[old(self).next_view() as int],
            final(self).services_view() == old(self).services_view().update(
                old(self).next_view() as int,
                *final(r),
            ),
            final(self).next_view() == old(self).next_view(),
            final(self).wf(),
    {
        &mut self.services[self.next]
    }
}

/// Law: calls go round the list in order: after `k` calls from index `i`
/// the next call goes to index `(i + k) % n`.
pub proof fn law_round_robin_order(i: int, k: nat, n: int)
    requires
        n > 0,
        0 <= i < n,
    ensures
        round_robin_after(i, k, n) == (i + k) % n,
    decreases k,
{
    if k > 0 {
        law_round_robin_order(i, (k - 1) as nat, n);
        let m = i + (k - 1);
        assert(((m % n) + 1) % n == (m + 1) % n) by {
            vstd::arithmetic::div_mod::lemma_add_mod_noop(m, 1, n);
            if n > 1 {
                vstd::arithmetic::div_mod::lemma_small_mod(1, n as nat);
            } else {
                assert(((m % n) + 1) % n == 0 && (m + 1) % n == 0);
            }
        }
    } else {
        vstd::arithmetic::div_mod::lemma_small_mod(i as nat, n as nat);
    }
}

/// The index reached from `i` after `k` calls over `n` services.
pub open spec fn round_robin_after(i: int, k: nat, n: int) -> int
    decreases k,
{
    if k == 0 {
        i
    } else {
        (round_robin_after(i, (k - 1) as nat, n) + 1) % n
    }
}

} // verus!
