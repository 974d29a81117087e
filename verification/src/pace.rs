//! The pacer: a token bucket that spreads packets across a round trip at the
//! rate the congestion window allows, with a burst of two packets.

use vstd::prelude::*;

use crate::rtt::GRANULARITY_MICROS;
use crate::time::{Duration, Instant};

verus! {

/// How many full-size packets may leave back to back.
pub const PACING_BURST_SIZE: usize = 2;

/// Divides `a * b` by `c`, saturating at `u64::MAX`; `c` must not be zero.
pub open spec fn spec_mul_div(a: u64, b: u64, c: u64) -> u64
    recommends
        c > 0,
{
    if c > 0 && (a * b) / (c as int) <= u64::MAX {
        ((a * b) / (c as int)) as u64
    } else {
        u64::MAX
    }
}

/// Executable `a * b / c` without overflow, saturating.
pub fn mul_div(a: u64, b: u64, c: u64) -> (r: u64)
    requires
        c > 0,
    ensures
        r == spec_mul_div(a, b, c),
{
    proof {
        assert((a as int) * (b as int) <= u64::MAX * u64::MAX) by (nonlinear_arith)
            requires
                a <= u64::MAX && b <= u64::MAX,
        ;
        assert(u64::MAX * u64::MAX < u128::MAX);
    }
    let wide: u128 = (a as u128) * (b as u128) / (c as u128);
    if wide > u64::MAX as u128 {
        u64::MAX
    } else {
        wide as u64
    }
}

/// The pacing state of one path.
#[derive(Debug, Clone)]
pub struct Pacer {
    /// When pacing is off, the pacer never delays a packet.
    pub enabled: bool,
    /// When the bucket was last refilled.
    pub last: Instant,
    /// Bytes that may be sent immediately.
    pub tokens: u64,
    /// The most bytes the bucket ever holds: the burst.
    pub burst: u64,
    /// The packet size the pacer assumes.
    pub mtu: u64,
}

impl Pacer {
    /// A full bucket: the first burst goes out unpaced.
    pub fn new(enabled: bool, now: Instant, burst: u64, mtu: u64) -> (r: Pacer)
        ensures
            r == (Pacer { enabled, last: now, tokens: burst, burst, mtu }),
    {
        Pacer { enabled, last: now, tokens: burst, burst, mtu }
    }

    pub fn mtu(&self) -> (r: u64)
        ensures
            r == self.mtu,
    {
        self.mtu
    }

    /// Takes a new packet size; the burst scales with it.
    pub fn set_mtu(&mut self, mtu: u64)
        ensures
            final(self).mtu == mtu,
            final(self).burst == crate::time::sat_mul(mtu, PACING_BURST_SIZE as nat),
            final(self).enabled == old(self).enabled,
            final(self).last == old(self).last,
            final(self).tokens == old(self).tokens,
    {
        self.mtu = mtu;
        self.burst = crate::time::sat_mul_u64(mtu, PACING_BURST_SIZE as u64);
    }

    /// The earliest instant at which a full-size packet may leave: now when
    /// the bucket holds one, else when the missing bytes have dripped in at
    /// the rate of one congestion window per round trip.
    pub fn next(&self, rtt: Duration, cwnd: u64) -> (r: Instant)
        ensures
            r == self.spec_next(rtt, cwnd),
    {
        if !self.enabled || self.tokens >= self.mtu {
            self.last
        } else {
            let needed = self.mtu - self.tokens;
            let wait = mul_div(needed, rtt.micros, if cwnd > 0 {
                cwnd
            } else {
                1
            });
            self.last.plus(Duration::from_micros(wait))
        }
    }

    pub open spec fn spec_next(self, rtt: Duration, cwnd: u64) -> Instant {
        if !self.enabled || self.tokens >= self.mtu {
            self.last
        } else {
            let needed = (self.mtu - self.tokens) as u64;
            let wait = spec_mul_div(
                needed,
                rtt.micros,
                if cwnd > 0 {
                    cwnd
                } else {
                    1u64
                },
            );
            self.last.spec_plus(Duration { micros: wait })
        }
    }

    /// What spending does to the whole pacer state: the elapsed time drips
    /// tokens in at the window-per-round-trip rate, capped at the burst,
    /// then the sent bytes are taken out, to zero at the lowest.
    pub open spec fn spec_spent(self, now: Instant, rtt: Duration, cwnd: u64, count: u64) -> Pacer {
        let elapsed = now.spec_duration_since(self.last);
        let rate_denom: u64 = if rtt.micros > GRANULARITY_MICROS {
            rtt.micros
        } else {
            GRANULARITY_MICROS
        };
        let refill = spec_mul_div(elapsed.micros, cwnd, rate_denom);
        let filled: u64 = if self.tokens + refill >= self.burst {
            self.burst
        } else {
            (self.tokens + refill) as u64
        };
        let left: u64 = if filled >= count {
            (filled - count) as u64
        } else {
            0u64
        };
        Pacer { last: now, tokens: left, ..self }
    }

    /// Spends `count` bytes at `now`, exactly as `spec_spent` says.
    pub fn spend(&mut self, now: Instant, rtt: Duration, cwnd: u64, count: u64)
        ensures
            *final(self) == old(self).spec_spent(now, rtt, cwnd, count),
    {
        let elapsed = now.duration_since(self.last);
        let rate_denom: u64 = if rtt.micros > GRANULARITY_MICROS {
            rtt.micros
        } else {
            GRANULARITY_MICROS
        };
        let refill = mul_div(elapsed.micros, cwnd, rate_denom);
        let filled = if self.tokens.saturating_add(refill) >= self.burst {
            self.burst
        } else {
            self.tokens + refill
        };
        self.tokens = filled.saturating_sub(count);
        self.last = now;
    }
}

} // verus!
