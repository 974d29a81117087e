//! Round-trip-time estimation: smoothed RTT, variation, minimum, and the
//! probe timeout derived from them.

use vstd::prelude::*;

use crate::time::{sat_add, Duration};

verus! {

/// The assumed round trip before any sample, in microseconds.
pub const INITIAL_RTT_MICROS: u64 = 100_000;

/// The clock's granularity, in microseconds: no timer is shorter.
pub const GRANULARITY_MICROS: u64 = 1_000;

/// The RTT estimate of one path.
#[derive(Debug, Clone, Copy)]
pub struct RttEstimate {
    /// Whether any sample arrived yet.
    pub has_sample: bool,
    pub latest: Duration,
    pub smoothed: Duration,
    pub rttvar: Duration,
    pub min: Duration,
}

impl RttEstimate {
    /// The estimate before any sample: the assumed initial round trip.
    pub fn initial() -> (r: RttEstimate)
        ensures
            !r.has_sample,
            r.smoothed.micros == INITIAL_RTT_MICROS,
            r.latest.micros == INITIAL_RTT_MICROS,
            r.min.micros == INITIAL_RTT_MICROS,
            r.rttvar.micros == INITIAL_RTT_MICROS / 2,
    {
        RttEstimate {
            has_sample: false,
            latest: Duration::from_micros(INITIAL_RTT_MICROS),
            smoothed: Duration::from_micros(INITIAL_RTT_MICROS),
            rttvar: Duration::from_micros(INITIAL_RTT_MICROS / 2),
            min: Duration::from_micros(INITIAL_RTT_MICROS),
        }
    }

    /// Seeds a fresh path's estimate from a known value, as after migration.
    pub fn seeded(guess: Duration) -> (r: RttEstimate)
        ensures
            !r.has_sample,
            r.smoothed == guess,
            r.latest == guess,
            r.min == guess,
            r.rttvar.micros == guess.micros / 2,
    {
        RttEstimate {
            has_sample: false,
            latest: guess,
            smoothed: guess,
            rttvar: Duration::from_micros(guess.micros / 2),
            min: guess,
        }
    }

    /// The current smoothed estimate.
    pub fn estimate(&self) -> (r: Duration)
        ensures
            r == self.smoothed,
    {
        self.smoothed
    }

    pub fn latest(&self) -> (r: Duration)
        ensures
            r == self.latest,
    {
        self.latest
    }

    pub fn minimum(&self) -> (r: Duration)
        ensures
            r == self.min,
    {
        self.min
    }

    /// Takes one sample.  The first sample seeds the estimate; later ones
    /// blend in with the usual one-eighth weight, after subtracting the
    /// peer's acknowledgement delay when that leaves at least the minimum.
    pub fn update(&mut self, sample: Duration, ack_delay: Duration)
        ensures
            final(self).has_sample,
            final(self).latest == sample,
            old(self).has_sample ==> final(self).min.micros == if sample.micros < old(
                self,
            ).min.micros {
                sample.micros
            } else {
                old(self).min.micros
            },
            !old(self).has_sample ==> final(self).smoothed == sample && final(self).min == sample
                && final(self).rttvar.micros == sample.micros / 2,
            old(self).has_sample ==> ({
                let min = final(self).min.micros;
                let adjusted = if sample.micros >= sat_add(min, ack_delay.micros as nat) {
                    (sample.micros - ack_delay.micros) as u64
                } else {
                    sample.micros
                };
                let diff = if old(self).smoothed.micros >= adjusted {
                    (old(self).smoothed.micros - adjusted) as u64
                } else {
                    (adjusted - old(self).smoothed.micros) as u64
                };
                final(self).rttvar.micros == sat_add(
                    crate::time::sat_mul(old(self).rttvar.micros / 4, 3),
                    (diff / 4) as nat,
                ) && final(self).smoothed.micros == sat_add(
                    crate::time::sat_mul(old(self).smoothed.micros / 8, 7),
                    (adjusted / 8) as nat,
                )
            }),
    {
        self.latest = sample;
        if !self.has_sample {
            self.has_sample = true;
            self.smoothed = sample;
            self.rttvar = Duration::from_micros(sample.micros / 2);
            self.min = sample;
            return ;
        }
        if sample.micros < self.min.micros {
            self.min = sample;
        }
        // Use the peer-reported delay only when it leaves a plausible value.
        let adjusted: u64 = if sample.micros >= self.min.micros.saturating_add(ack_delay.micros) {
            sample.micros - ack_delay.micros
        } else {
            sample.micros
        };
        let diff: u64 = if self.smoothed.micros >= adjusted {
            self.smoothed.micros - adjusted
        } else {
            adjusted - self.smoothed.micros
        };
        self.rttvar = Duration::from_micros(
            crate::time::sat_mul_u64(self.rttvar.micros / 4, 3).saturating_add(diff / 4),
        );
        self.smoothed = Duration::from_micros(
            crate::time::sat_mul_u64(self.smoothed.micros / 8, 7).saturating_add(adjusted / 8),
        );
    }

    /// The probe timeout as a mathematical function: the smoothed estimate
    /// plus four times the variation, but never less than the granularity
    /// above the estimate.
    pub open spec fn spec_pto(&self) -> Duration {
        Duration {
            micros: sat_add(
                self.smoothed.micros,
                (if 4 * self.rttvar.micros > GRANULARITY_MICROS {
                    if 4 * self.rttvar.micros > u64::MAX {
                        u64::MAX as nat
                    } else {
                        (4 * self.rttvar.micros) as nat
                    }
                } else {
                    GRANULARITY_MICROS as nat
                }),
            ),
        }
    }

    /// The probe timeout.
    #[verifier::when_used_as_spec(spec_pto)]
    pub fn pto(&self) -> (r: Duration)
        ensures
            r == self.spec_pto(),
    {
        let var4 = crate::time::sat_mul_u64(self.rttvar.micros, 4);
        let extra = if var4 > GRANULARITY_MICROS {
            var4
        } else {
            GRANULARITY_MICROS
        };
        Duration::from_micros(self.smoothed.micros.saturating_add(extra))
    }
}

} // verus!
