//! Client-side token bucket: the tokens a client attaches to its requests.
use dashmap::DashMap;
use vstd::prelude::*;

use super::draw::random_at_most;
use super::tables::{id_table, id_table_entries, id_table_get, id_table_insert, id_table_new, lists_id_entries};
use super::RajomonParams;
use crate::registry::MethodId;

verus! {

/// The abstract bucket: its token balance and the last price seen per method.
pub struct BucketView {
    pub tokens_left: u64,
    pub cached_prices: Map<u64, u64>,
}

/// The price cached for `method` (0 if none is).
pub open spec fn cached_price(prices: Map<u64, u64>, method: u64) -> u64 {
    if prices.dom().contains(method) { prices[method] } else { 0 }
}

/// Client-side token bucket: one token balance, and the price each method
/// last published.
#[derive(Debug)]
pub struct ClientTokenBucket {
    tokens_left: u64,
    cached_prices: DashMap<u64, u64>,
}

impl View for ClientTokenBucket {
    type V = BucketView;

    closed spec fn view(&self) -> BucketView {
        BucketView { tokens_left: self.tokens_left, cached_prices: id_table(self.cached_prices) }
    }
}

impl ClientTokenBucket {
    /// A bucket holding the initial tokens, with no cached prices.
    pub fn new(params: &RajomonParams) -> (b: ClientTokenBucket)
        ensures
            b@.tokens_left == params.tokens_left_init,
            b@.cached_prices == Map::<u64, u64>::empty(),
    {
        let cached_prices = id_table_new();
        assert(id_table(cached_prices) =~= Map::empty());
        ClientTokenBucket { tokens_left: params.tokens_left_init, cached_prices }
    }

    /// Spends tokens for a request to `method`, given `draw`, the uniformly
    /// random share of the balance (at most the balance) that the request
    /// would carry. Refuses when the balance or the draw is below the cached
    /// price; otherwise deducts the draw and returns it.
    pub fn acquire_with_draw(&mut self, method: MethodId, draw: u64) -> (r: Option<u64>)
        requires
            draw <= old(self)@.tokens_left,
        ensures
            final(self)@.cached_prices == old(self)@.cached_prices,
            ({
                let price = cached_price(old(self)@.cached_prices, method.0);
                if old(self)@.tokens_left < price || draw < price {
                    r == None::<u64> && final(self)@.tokens_left == old(self)@.tokens_left
                } else {
                    r == Some(draw) && final(self)@.tokens_left == old(self)@.tokens_left - draw
                }
            }),
    {
        let price = match id_table_get(&self.cached_prices, method.0) {
            Some(p) => p,
            None => 0,
        };
        let current = self.tokens_left;
        if current < price || draw < price {
            return None;
        }
        self.tokens_left = current - draw;
        Some(draw)
    }

    /// Tries to acquire tokens for a request to `method`: draws a uniformly
    /// random amount between 0 and the balance and spends it as
    /// [`Self::acquire_with_draw`] does. Returns `None` (rate limited) when
    /// the balance or the draw is below the cached price; with no price
    /// cached (or a cached price of 0) it always succeeds.
    pub fn try_acquire(&mut self, method: MethodId) -> (r: Option<u64>)
        ensures
            final(self)@.cached_prices == old(self)@.cached_prices,
            old(self)@.tokens_left < cached_price(old(self)@.cached_prices, method.0) ==> r
                == None::<u64>,
            cached_price(old(self)@.cached_prices, method.0) == 0 ==> r is Some,
            r == None::<u64> ==> final(self)@.tokens_left == old(self)@.tokens_left,
            forall|tok: u64|
                r == Some(tok) ==> cached_price(old(self)@.cached_prices, method.0) <= tok
                    && tok <= old(self)@.tokens_left && final(self)@.tokens_left
                    == old(self)@.tokens_left - tok,
    {
        let current = self.tokens_left;
        let draw = if current == 0 {
            0
        } else {
            random_at_most(current)
        };
        self.acquire_with_draw(method, draw)
    }

    /// The current token balance.
    pub fn tokens_left(&self) -> (r: u64)
        ensures
            r == self@.tokens_left,
    {
        self.tokens_left
    }

    /// Deducts `n` tokens, saturating at 0.
    pub fn deduct(&mut self, n: u64)
        ensures
            final(self)@.tokens_left == (if old(self)@.tokens_left >= n {
                old(self)@.tokens_left - n
            } else {
                0
            }),
            final(self)@.cached_prices == old(self)@.cached_prices,
    {
        self.tokens_left = self.tokens_left.saturating_sub(n);
    }

    /// Caches the price that `method` published.
    pub fn update_price(&mut self, method: MethodId, price: u64)
        ensures
            final(self)@.cached_prices == old(self)@.cached_prices.insert(method.0, price),
            final(self)@.tokens_left == old(self)@.tokens_left,
    {
        id_table_insert(&mut self.cached_prices, method.0, price);
    }

    /// The price cached for `method` (0 if none is).
    pub fn cached_price_of(&self, method: MethodId) -> (r: u64)
        ensures
            r == cached_price(self@.cached_prices, method.0),
    {
        match id_table_get(&self.cached_prices, method.0) {
            Some(p) => p,
            None => 0,
        }
    }

    /// The cached prices, as (method id, price) entries in the table's
    /// order.
    pub fn cached_entries(&self) -> (r: Vec<(u64, u64)>)
        ensures
            lists_id_entries(r@, self@.cached_prices),
    {
        id_table_entries(&self.cached_prices)
    }

    /// Adds one replenishment step of tokens, saturating.
    pub fn replenish(&mut self, params: &RajomonParams)
        ensures
            final(self)@.tokens_left == (if old(self)@.tokens_left + params.token_update_step
                > u64::MAX {
                u64::MAX
            } else {
                (old(self)@.tokens_left + params.token_update_step) as u64
            }),
            final(self)@.cached_prices == old(self)@.cached_prices,
    {
        self.tokens_left = self.tokens_left.saturating_add(params.token_update_step);
    }
}

} // verus!
