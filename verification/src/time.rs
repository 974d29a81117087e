//! Deterministic time for the engine: instants and durations in microseconds.
//!
//! The engine is pure computation driven by a caller-supplied clock, so time is
//! modelled as plain integers rather than the operating system's clock types.

use vstd::prelude::*;

verus! {

pub const MICROS_PER_MILLI: u64 = 1_000;

pub const MICROS_PER_SEC: u64 = 1_000_000;

/// A span of time, in whole microseconds.
#[derive(Debug, Clone, Copy, PartialEq, Eq, Structural)]
pub struct Duration {
    pub micros: u64,
}

/// Saturating addition on the mathematical integers, clamped to `u64`.
pub open spec fn sat_add(a: u64, b: nat) -> u64 {
    if a + b > u64::MAX {
        u64::MAX
    } else {
        (a + b) as u64
    }
}

/// Saturating multiplication on the mathematical integers, clamped to `u64`.
pub open spec fn sat_mul(a: u64, b: nat) -> u64 {
    if a * b > u64::MAX {
        u64::MAX
    } else {
        (a * b) as u64
    }
}

/// Saturating multiplication as an executable operation.
pub fn sat_mul_u64(a: u64, b: u64) -> (r: u64)
    ensures
        r == sat_mul(a, b as nat),
{
    match a.checked_mul(b) {
        Some(v) => v,
        None => u64::MAX,
    }
}

impl Duration {
    /// The zero-length span.
    pub open spec fn spec_zero() -> Duration {
        Duration { micros: 0 }
    }

    #[verifier::when_used_as_spec(spec_zero)]
    pub fn zero() -> (r: Duration)
        ensures
            r.micros == 0,
    {
        Duration { micros: 0 }
    }

    /// Builds a duration from seconds and a nanosecond remainder, rounding the
    /// nanoseconds down to whole microseconds and saturating on overflow.
    pub fn new(secs: u64, nanos: u32) -> (r: Duration)
        ensures
            r.micros == sat_add(sat_mul(secs, MICROS_PER_SEC as nat), (nanos / 1000) as nat),
    {
        Duration { micros: sat_mul_u64(secs, MICROS_PER_SEC).saturating_add((nanos / 1000) as u64) }
    }

    pub open spec fn spec_from_micros(micros: u64) -> Duration {
        Duration { micros }
    }

    #[verifier::when_used_as_spec(spec_from_micros)]
    pub fn from_micros(micros: u64) -> (r: Duration)
        ensures
            r.micros == micros,
    {
        Duration { micros }
    }

    pub open spec fn spec_from_millis(millis: u64) -> Duration {
        Duration { micros: sat_mul(millis, MICROS_PER_MILLI as nat) }
    }

    #[verifier::when_used_as_spec(spec_from_millis)]
    pub fn from_millis(millis: u64) -> (r: Duration)
        ensures
            r == Duration::spec_from_millis(millis),
    {
        Duration { micros: sat_mul_u64(millis, MICROS_PER_MILLI) }
    }

    pub open spec fn spec_from_secs(secs: u64) -> Duration {
        Duration { micros: sat_mul(secs, MICROS_PER_SEC as nat) }
    }

    #[verifier::when_used_as_spec(spec_from_secs)]
    pub fn from_secs(secs: u64) -> (r: Duration)
        ensures
            r == Duration::spec_from_secs(secs),
    {
        Duration { micros: sat_mul_u64(secs, MICROS_PER_SEC) }
    }

    pub fn as_micros(&self) -> (r: u64)
        ensures
            r == self.micros,
    {
        self.micros
    }

    pub fn as_millis(&self) -> (r: u64)
        ensures
            r == self.micros / (MICROS_PER_MILLI as u64),
    {
        self.micros / MICROS_PER_MILLI
    }

    pub fn is_zero(&self) -> (r: bool)
        ensures
            r == (self.micros == 0),
    {
        self.micros == 0
    }

    pub open spec fn spec_plus(self, other: Duration) -> Duration {
        Duration { micros: sat_add(self.micros, other.micros as nat) }
    }

    /// Sum of two durations, saturating at the largest representable span.
    #[verifier::when_used_as_spec(spec_plus)]
    pub fn plus(self, other: Duration) -> (r: Duration)
        ensures
            r == self.spec_plus(other),
    {
        Duration { micros: self.micros.saturating_add(other.micros) }
    }

    pub open spec fn spec_doubled(self) -> Duration {
        Duration { micros: sat_mul(self.micros, 2) }
    }

    /// Twice this duration, saturating; used for exponential timer back-off.
    #[verifier::when_used_as_spec(spec_doubled)]
    pub fn doubled(self) -> (r: Duration)
        ensures
            r == self.spec_doubled(),
    {
        Duration { micros: sat_mul_u64(self.micros, 2) }
    }

    pub open spec fn spec_max_with(self, other: Duration) -> Duration {
        if self.micros >= other.micros {
            self
        } else {
            other
        }
    }

    /// The larger of two durations.
    #[verifier::when_used_as_spec(spec_max_with)]
    pub fn max_with(self, other: Duration) -> (r: Duration)
        ensures
            r == self.spec_max_with(other),
    {
        if self.micros >= other.micros {
            self
        } else {
            other
        }
    }

    pub fn lt(&self, other: &Duration) -> (r: bool)
        ensures
            r == (self.micros < other.micros),
    {
        self.micros < other.micros
    }
}

/// A point in time, measured in microseconds from an arbitrary epoch.
#[derive(Debug, Clone, Copy, PartialEq, Eq, Structural)]
pub struct Instant {
    pub micros: u64,
}

impl Instant {
    pub open spec fn spec_from_micros(micros: u64) -> Instant {
        Instant { micros }
    }

    #[verifier::when_used_as_spec(spec_from_micros)]
    pub fn from_micros(micros: u64) -> (r: Instant)
        ensures
            r.micros == micros,
    {
        Instant { micros }
    }

    pub open spec fn spec_plus(self, d: Duration) -> Instant {
        Instant { micros: sat_add(self.micros, d.micros as nat) }
    }

    /// This instant moved forward by `d`, saturating at the end of time.
    #[verifier::when_used_as_spec(spec_plus)]
    pub fn plus(self, d: Duration) -> (r: Instant)
        ensures
            r == self.spec_plus(d),
    {
        Instant { micros: self.micros.saturating_add(d.micros) }
    }

    pub open spec fn spec_duration_since(self, earlier: Instant) -> Duration {
        if self.micros >= earlier.micros {
            Duration { micros: (self.micros - earlier.micros) as u64 }
        } else {
            Duration { micros: 0 }
        }
    }

    /// Time elapsed since `earlier`; zero when `earlier` is not in the past.
    #[verifier::when_used_as_spec(spec_duration_since)]
    pub fn duration_since(self, earlier: Instant) -> (r: Duration)
        ensures
            r == self.spec_duration_since(earlier),
    {
        Duration { micros: self.micros.saturating_sub(earlier.micros) }
    }

    pub fn le(&self, other: &Instant) -> (r: bool)
        ensures
            r == (self.micros <= other.micros),
    {
        self.micros <= other.micros
    }

    pub fn lt(&self, other: &Instant) -> (r: bool)
        ensures
            r == (self.micros < other.micros),
    {
        self.micros < other.micros
    }

    pub open spec fn spec_min_with(self, other: Instant) -> Instant {
        if self.micros <= other.micros {
            self
        } else {
            other
        }
    }

    #[verifier::when_used_as_spec(spec_min_with)]
    pub fn min_with(self, other: Instant) -> (r: Instant)
        ensures
            r == self.spec_min_with(other),
    {
        if self.micros <= other.micros {
            self
        } else {
            other
        }
    }
}

} // verus!
