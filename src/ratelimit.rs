use std::collections::HashMap;
use vstd::arithmetic::power2::{lemma_pow2_pos, lemma_pow2_unfold, pow2};
use vstd::prelude::*;
use vstd::std_specs::hash::obeys_key_model;

verus! {

broadcast use vstd::std_specs::hash::group_hash_axioms;

/// Length of the first block an address gets, in seconds.
pub const INITIAL_RATE_LIMIT_PERIOD: u64 = 300;

/// Factor by which the block grows on each further failure.
pub const RATE_LIMIT_PERIOD_FACTOR: u64 = 2;

/// A client's network address, without its port.
#[derive(Debug, Clone, Copy, PartialEq, Eq, Structural)]
pub enum ClientAddr {
    /// An IPv4 address, most significant octet first.
    V4(u32),
    /// An IPv6 address, most significant segment first.
    V6(u128),
}

/// The block an address is under after failed authentications.
#[derive(Debug, Clone, Copy, PartialEq, Eq, Structural)]
pub struct RateLimit {
    /// How long the block lasts, in seconds.
    pub period: u64,
    /// Unix time (seconds) at which the block lifts.
    pub timestamp: u64,
}

/// The block that a failure at time `now` leaves behind, given the entry the
/// address had before: the first lasts the initial period, each further one
/// twice the previous (held at `u64::MAX` rather than overflowing).
pub open spec fn backoff_after_failure(prev: Option<RateLimit>, now: u64) -> RateLimit {
    let period = match prev {
        Some(p) => sat(p.period * RATE_LIMIT_PERIOD_FACTOR),
        None => INITIAL_RATE_LIMIT_PERIOD as int,
    };
    RateLimit { period: period as u64, timestamp: sat(now + period) as u64 }
}

/// `x`, or `u64::MAX` where `x` is larger.
pub open spec fn sat(x: int) -> int {
    if x > u64::MAX {
        u64::MAX as int
    } else {
        x
    }
}

/// Whether an entry blocks its address at time `now`.
pub open spec fn blocks(entry: Option<RateLimit>, now: u64) -> bool {
    match entry {
        Some(e) => now < e.timestamp,
        None => false,
    }
}

/// The entry an address holds after consecutive failures at the given
/// times, starting from `entry`.
pub open spec fn after_failures(entry: Option<RateLimit>, times: Seq<u64>) -> Option<RateLimit>
    decreases times.len(),
{
    if times.len() == 0 {
        entry
    } else {
        Some(
            backoff_after_failure(after_failures(entry, times.drop_last()), times.last()),
        )
    }
}

/// Consecutive failures of an address with no entry give blocks of 300 s,
/// 600 s, 1200 s, ...: the `n`-th lasts `300 * 2^(n-1)` seconds, for as long
/// as that fits in a `u64`.
pub proof fn lemma_consecutive_failures_double(times: Seq<u64>)
    requires
        times.len() >= 1,
        INITIAL_RATE_LIMIT_PERIOD * pow2((times.len() - 1) as nat) <= u64::MAX,
    ensures
        after_failures(None, times) == Some(
            RateLimit {
                period: (INITIAL_RATE_LIMIT_PERIOD * pow2((times.len() - 1) as nat)) as u64,
                timestamp: sat(times.last() + INITIAL_RATE_LIMIT_PERIOD * pow2(
                    (times.len() - 1) as nat,
                )) as u64,
            },
        ),
    decreases times.len(),
{
    let n = (times.len() - 1) as nat;
    lemma_pow2_pos(n);
    if times.len() > 1 {
        lemma_pow2_unfold(n);
        let prefix = times.drop_last();
        let m = (prefix.len() - 1) as nat;
        assert(pow2(n) == 2 * pow2(m));
        lemma_pow2_pos(m);
        assert(INITIAL_RATE_LIMIT_PERIOD * pow2(m) <= INITIAL_RATE_LIMIT_PERIOD * pow2(n))
            by (nonlinear_arith)
            requires
                pow2(m) <= pow2(n),
        ;
        lemma_consecutive_failures_double(prefix);
        assert(INITIAL_RATE_LIMIT_PERIOD * pow2(n) == 2 * (INITIAL_RATE_LIMIT_PERIOD * pow2(m)))
            by (nonlinear_arith)
            requires
                pow2(n) == 2 * pow2(m),
        ;
        assert(after_failures(None, times) == Some(
            backoff_after_failure(after_failures(None, prefix), times.last()),
        ));
    } else {
        assert(times.drop_last().len() == 0);
        assert(after_failures(None, times.drop_last()) == None::<RateLimit>);
        assert(pow2(0) == 1) by {
            vstd::arithmetic::power2::lemma2_to64();
        }
    }
}

/// After a success has cleared its entry, the next failure of an address
/// starts over with the initial 300 s block.
pub proof fn lemma_failure_after_success_restarts(now: u64)
    ensures
        backoff_after_failure(None, now).period == INITIAL_RATE_LIMIT_PERIOD,
        backoff_after_failure(None, now).timestamp == sat(now + INITIAL_RATE_LIMIT_PERIOD),
{
}

/// The per-address table of blocks.
pub struct RateLimiter {
    v4: HashMap<u32, RateLimit>,
    v6: HashMap<u128, RateLimit>,
}

impl RateLimiter {
    /// The entry held for an address.
    pub closed spec fn entry(&self, addr: ClientAddr) -> Option<RateLimit> {
        match addr {
            ClientAddr::V4(a) => if self.v4@.contains_key(a) {
                Some(self.v4@[a])
            } else {
                None
            },
            ClientAddr::V6(a) => if self.v6@.contains_key(a) {
                Some(self.v6@[a])
            } else {
                None
            },
        }
    }

    /// A table with no entries.
    pub fn new() -> (r: Self)
        ensures
            forall|a: ClientAddr| r.entry(a) == None::<RateLimit>,
    {
        RateLimiter { v4: HashMap::new(), v6: HashMap::new() }
    }

    /// The entry held for `addr`, if any.
    pub fn get(&self, addr: ClientAddr) -> (r: Option<RateLimit>)
        ensures
            r == self.entry(addr),
    {
        assert(obeys_key_model::<u32>() && obeys_key_model::<u128>());
        match addr {
            ClientAddr::V4(a) => match self.v4.get(&a) {
                Some(e) => Some(*e),
                None => None,
            },
            ClientAddr::V6(a) => match self.v6.get(&a) {
                Some(e) => Some(*e),
                None => None,
            },
        }
    }

    /// Seconds until `addr` may try again, when it is blocked at time `now`.
    pub fn retry_after(&self, addr: ClientAddr, now: u64) -> (r: Option<u64>)
        ensures
            match self.entry(addr) {
                Some(e) if now < e.timestamp => r == Some((e.timestamp - now) as u64),
                _ => r == None::<u64>,
            },
    {
        match self.get(addr) {
            Some(e) => if now < e.timestamp {
                Some(e.timestamp - now)
            } else {
                None
            },
            None => None,
        }
    }

    /// Records a failed authentication of `addr` at time `now`, and returns
    /// the new block's period.
    pub fn record_failure(&mut self, addr: ClientAddr, now: u64) -> (r: u64)
        ensures
            final(self).entry(addr) == Some(backoff_after_failure(old(self).entry(addr), now)),
            r == backoff_after_failure(old(self).entry(addr), now).period,
            forall|b: ClientAddr| b != addr ==> final(self).entry(b) == old(self).entry(b),
    {
        let period: u64 = match self.get(addr) {
            Some(e) => if e.period > u64::MAX / RATE_LIMIT_PERIOD_FACTOR {
                u64::MAX
            } else {
                e.period * RATE_LIMIT_PERIOD_FACTOR
            },
            None => INITIAL_RATE_LIMIT_PERIOD,
        };
        let block = RateLimit { period, timestamp: now.saturating_add(period) };
        assert(obeys_key_model::<u32>() && obeys_key_model::<u128>());
        match addr {
            ClientAddr::V4(a) => {
                self.v4.insert(a, block);
            },
            ClientAddr::V6(a) => {
                self.v6.insert(a, block);
            },
        }
        period
    }

    /// Forgets any block of `addr`, after it authenticated successfully.
    pub fn record_success(&mut self, addr: ClientAddr)
        ensures
            final(self).entry(addr) == None::<RateLimit>,
            forall|b: ClientAddr| b != addr ==> final(self).entry(b) == old(self).entry(b),
    {
        assert(obeys_key_model::<u32>() && obeys_key_model::<u128>());
        match addr {
            ClientAddr::V4(a) => {
                self.v4.remove(&a);
            },
            ClientAddr::V6(a) => {
                self.v6.remove(&a);
            },
        }
    }
}

} // verus!
