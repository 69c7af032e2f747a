use vstd::prelude::*;
use std::sync::atomic::{AtomicU64, Ordering};
use std::time::UNIX_EPOCH;

verus! {

/// The nonce made of a clock reading in milliseconds and a counter value:
/// the reading plus the counter modulo 1000, saturating at `u64::MAX`.
pub open spec fn nonce_value(timestamp: u64, counter: u64) -> u64 {
    if timestamp + counter % 1000 > u64::MAX {
        u64::MAX
    } else {
        (timestamp + counter % 1000) as u64
    }
}

/// The nonce made of a clock reading in milliseconds and a counter value.
pub fn nonce_from(timestamp: u64, counter: u64) -> (r: u64)
    ensures
        r == nonce_value(timestamp, counter),
{
    timestamp.saturating_add(counter % 1000)
}

/// Relies on `std::time::SystemTime::elapsed` on `UNIX_EPOCH`: the wall clock
/// in milliseconds since the epoch (0 for a clock set before it). Nothing is
/// promised of the reading.
#[verifier::external_body]
fn now_millis() -> u64 {
    UNIX_EPOCH.elapsed().map_or(0, |d| d.as_millis() as u64)
}

/// Hands out request nonces: the wall clock in milliseconds, plus a counter
/// that every call advances, modulo 1000.
pub struct NonceManager {
    counter: AtomicU64,
}

impl NonceManager {
    /// A manager whose counter starts at zero.
    pub fn new() -> (r: NonceManager) {
        NonceManager { counter: AtomicU64::new(0) }
    }

    /// The next nonce; safe to call from any number of threads at once. It is
    /// `nonce_from` of the clock reading and the counter's previous value; no
    /// contract is stated, since neither value can be known to a caller.
    pub fn get_next_nonce(&self) -> u64 {
        let timestamp = now_millis();
        let counter = self.counter.fetch_add(1, Ordering::Relaxed);
        nonce_from(timestamp, counter)
    }
}

/// Within one clock reading, counter values less than 1000 apart give
/// different nonces, unless the sum would pass `u64::MAX`.
pub proof fn lemma_nonces_distinct_within_millisecond(t: u64, c1: u64, c2: u64)
    requires
        c1 < c2,
        c2 - c1 < 1000,
        t + 1000 <= u64::MAX,
    ensures
        nonce_value(t, c1) != nonce_value(t, c2),
{
}

} // verus!
