//! Token-based overload control with price propagation.
//!
//! Each server charges a price for admitting a request; a request carries
//! tokens and is admitted only if it holds at least the server's total price
//! (its own price plus the largest price its downstream services publish).
//! Prices rise with queueing delay and decay when the queue drains.
use vstd::prelude::*;

pub mod client;
pub mod draw;
pub mod layer;
pub mod shared;
pub mod tables;

verus! {

/// Tunable parameters of the token-based admission policy.
#[derive(Debug, Clone, Copy, PartialEq, Eq, Structural)]
pub struct RajomonParams {
    /// Server-side price-update tick interval in milliseconds.
    pub price_update_rate_ms: u64,
    /// Queueing-delay threshold in microseconds. The price climbs when the
    /// observed queue latency exceeds it and decays below half of it.
    pub latency_threshold_us: u64,
    /// Tokens added per millisecond of queueing-delay excess.
    pub price_step_up: u64,
    /// Initial server price.
    pub init_price: u64,
    /// Inverse propagation probability of the price on responses
    /// (0: never, 1: always, n: with probability 1/n).
    pub price_freq: u64,
    /// Initial value of the client-side token bucket.
    pub tokens_left_init: u64,
    /// Mean interval between client bucket replenishments, in milliseconds.
    pub token_update_rate_ms: u64,
    /// Tokens added on each client bucket replenishment.
    pub token_update_step: u64,
}

impl Default for RajomonParams {
    fn default() -> (p: Self)
        ensures
            p == (RajomonParams {
                price_update_rate_ms: 10,
                latency_threshold_us: 5_000,
                price_step_up: 8,
                init_price: 0,
                price_freq: 5,
                tokens_left_init: 10,
                token_update_rate_ms: 10,
                token_update_step: 5,
            }),
    {
        RajomonParams {
            price_update_rate_ms: 10,
            latency_threshold_us: 5_000,
            price_step_up: 8,
            init_price: 0,
            price_freq: 5,
            tokens_left_init: 10,
            token_update_rate_ms: 10,
            token_update_step: 5,
        }
    }
}

} // verus!
