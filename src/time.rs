//! Tick-based time values: positions, durations, exact second and beat quantities.
use vstd::arithmetic::div_mod::{lemma_div_by_multiple, lemma_mod_multiples_basic};
use vstd::prelude::*;

verus! {

/// Largest value a tick count can hold.
pub const MAX_TICKS: u64 = 0xFFFF_FFFF_FFFF_FFFF;

/// Ticks that one beat lasts where no tempo map is at hand (half a second at 44.1 kHz).
pub const DEFAULT_TICKS_PER_BEAT: u64 = 22050;

/// `a / b` rounded to the nearest integer, halves rounding up.
pub open spec fn round_div(a: int, b: int) -> int
    recommends
        b > 0,
{
    a / b + if 2 * (a % b) >= b {
        1int
    } else {
        0int
    }
}

/// `v` clamped to what a tick count can hold.
pub open spec fn clamp_ticks(v: int) -> int {
    if v > MAX_TICKS {
        MAX_TICKS as int
    } else {
        v
    }
}

/// Ticks that `numer / denom` seconds last at `rate` ticks per second, rounded, clamped.
pub open spec fn ticks_from_seconds(numer: int, denom: int, rate: int) -> int {
    clamp_ticks(round_div(numer * rate, denom))
}

/// Divides with rounding to nearest, halves up.
pub fn div_round(a: u128, b: u128) -> (r: u128)
    requires
        b > 0,
    ensures
        r == round_div(a as int, b as int),
{
    let q = a / b;
    let m = a % b;
    if m >= b - m {
        proof {
            vstd::arithmetic::div_mod::lemma_fundamental_div_mod(a as int, b as int);
            assert(q + 1 <= u128::MAX) by (nonlinear_arith)
                requires
                    a == b * q + m,
                    b >= 2,
                    m >= 0,
                    a <= u128::MAX,
            ;
        }
        q + 1
    } else {
        q
    }
}

/// Clamps a wide tick count into `u64`, saturating at the largest value.
pub fn saturate_ticks(v: u128) -> (r: u64)
    ensures
        r == clamp_ticks(v as int),
{
    if v > MAX_TICKS as u128 {
        MAX_TICKS
    } else {
        v as u64
    }
}

/// An exact number of seconds: `numer / denom`.
#[derive(Clone, Copy, Debug)]
pub struct Seconds {
    pub numer: u128,
    pub denom: u64,
}

impl Seconds {
    /// `numer / denom` seconds.
    pub fn new(numer: u128, denom: u64) -> (r: Seconds)
        requires
            denom > 0,
        ensures
            r.numer == numer,
            r.denom == denom,
    {
        Seconds { numer, denom }
    }

    /// A whole number of nanoseconds.
    pub fn from_nanos(nanos: u128) -> (r: Seconds)
        ensures
            r.numer == nanos,
            r.denom == 1_000_000_000,
    {
        Seconds { numer: nanos, denom: 1_000_000_000 }
    }
}

/// An exact number of beats: `numer / denom`.
#[derive(Clone, Copy, Debug)]
pub struct Beats {
    pub numer: u128,
    pub denom: u64,
}

impl Beats {
    /// `numer / denom` beats.
    pub fn new(numer: u128, denom: u64) -> (r: Beats)
        requires
            denom > 0,
        ensures
            r.numer == numer,
            r.denom == denom,
    {
        Beats { numer, denom }
    }

    /// The number of whole beats (the value rounded down).
    pub fn whole(&self) -> (r: u128)
        requires
            self.denom > 0,
        ensures
            r == (self.numer as int) / (self.denom as int),
    {
        self.numer / (self.denom as u128)
    }
}

/// A playback-rate ratio `numer / denom` (1/1 is normal speed).
#[derive(Clone, Copy, Debug, PartialEq, Eq, Structural)]
pub struct TimeScale {
    pub numer: u32,
    pub denom: u32,
}

impl TimeScale {
    /// Normal speed.
    pub fn normal() -> (r: TimeScale)
        ensures
            r.numer == 1,
            r.denom == 1,
    {
        TimeScale { numer: 1, denom: 1 }
    }
}

/// A point in time as a tick count at the reference rate.
#[derive(Clone, Copy, Debug, PartialEq, Eq, Structural, PartialOrd, Ord, Hash)]
pub struct TimePosition {
    pub position_ticks: u64,
}

impl TimePosition {
    /// The position at `position_ticks` ticks.
    pub fn new(position_ticks: u64) -> (r: TimePosition)
        ensures
            r.position_ticks == position_ticks,
    {
        TimePosition { position_ticks }
    }

    /// Time zero.
    pub fn zero() -> (r: TimePosition)
        ensures
            r.position_ticks == 0,
    {
        TimePosition { position_ticks: 0 }
    }

    /// The position `seconds` after zero at `reference_sample_rate` ticks per second,
    /// rounded to the nearest tick and clamped to the largest position.
    pub fn from_seconds(seconds: Seconds, reference_sample_rate: u32) -> (r: TimePosition)
        requires
            seconds.denom > 0,
            seconds.numer * reference_sample_rate <= u128::MAX,
        ensures
            r.position_ticks == ticks_from_seconds(
                seconds.numer as int,
                seconds.denom as int,
                reference_sample_rate as int,
            ),
    {
        let scaled = seconds.numer * (reference_sample_rate as u128);
        let t = div_round(scaled, seconds.denom as u128);
        TimePosition { position_ticks: saturate_ticks(t) }
    }

    /// The exact number of seconds from zero to this position.
    pub fn to_seconds(&self, reference_sample_rate: u32) -> (r: Seconds)
        requires
            reference_sample_rate > 0,
        ensures
            r.numer == self.position_ticks,
            r.denom == reference_sample_rate,
    {
        Seconds { numer: self.position_ticks as u128, denom: reference_sample_rate as u64 }
    }

    /// The position `other.position_ticks` ticks later.
    pub fn add(self, other: TimePosition) -> (r: TimePosition)
        requires
            self.position_ticks + other.position_ticks <= MAX_TICKS,
        ensures
            r.position_ticks == self.position_ticks + other.position_ticks,
    {
        TimePosition { position_ticks: self.position_ticks + other.position_ticks }
    }

    /// The tick difference, never below zero.
    pub fn sub(self, other: TimePosition) -> (r: TimePosition)
        ensures
            r.position_ticks == if self.position_ticks >= other.position_ticks {
                self.position_ticks - other.position_ticks
            } else {
                0
            },
    {
        TimePosition { position_ticks: self.position_ticks.saturating_sub(other.position_ticks) }
    }

    /// The position `d` later.
    pub fn add_duration(self, d: Duration) -> (r: TimePosition)
        requires
            self.position_ticks + d.ticks <= MAX_TICKS,
        ensures
            r.position_ticks == self.position_ticks + d.ticks,
    {
        TimePosition { position_ticks: self.position_ticks + d.ticks }
    }
}

/// A span of time as a tick count at the reference rate.
#[derive(Clone, Copy, Debug, PartialEq, Eq, Structural)]
pub struct Duration {
    pub ticks: u64,
}

impl Duration {
    /// A span of `ticks` ticks.
    pub fn new(ticks: u64) -> (r: Duration)
        ensures
            r.ticks == ticks,
    {
        Duration { ticks }
    }

    /// The empty span.
    pub fn zero() -> (r: Duration)
        ensures
            r.ticks == 0,
    {
        Duration { ticks: 0 }
    }

    /// The span of `seconds` at `reference_sample_rate` ticks per second, rounded, clamped.
    pub fn from_seconds(seconds: Seconds, reference_sample_rate: u32) -> (r: Duration)
        requires
            seconds.denom > 0,
            seconds.numer * reference_sample_rate <= u128::MAX,
        ensures
            r.ticks == ticks_from_seconds(
                seconds.numer as int,
                seconds.denom as int,
                reference_sample_rate as int,
            ),
    {
        let scaled = seconds.numer * (reference_sample_rate as u128);
        let t = div_round(scaled, seconds.denom as u128);
        Duration { ticks: saturate_ticks(t) }
    }

    /// The span of `beats` at the fixed default of ticks per beat, rounded, clamped.
    pub fn from_beats(beats: Beats) -> (r: Duration)
        requires
            beats.denom > 0,
            beats.numer * DEFAULT_TICKS_PER_BEAT <= u128::MAX,
        ensures
            r.ticks == clamp_ticks(
                round_div(beats.numer * DEFAULT_TICKS_PER_BEAT, beats.denom as int),
            ),
    {
        let scaled = beats.numer * (DEFAULT_TICKS_PER_BEAT as u128);
        let t = div_round(scaled, beats.denom as u128);
        Duration { ticks: saturate_ticks(t) }
    }

    /// The exact number of seconds this span lasts.
    pub fn to_seconds(&self, reference_sample_rate: u32) -> (r: Seconds)
        requires
            reference_sample_rate > 0,
        ensures
            r.numer == self.ticks,
            r.denom == reference_sample_rate,
    {
        Seconds { numer: self.ticks as u128, denom: reference_sample_rate as u64 }
    }

    /// The raw tick count.
    pub fn ticks(&self) -> (r: u64)
        ensures
            r == self.ticks,
    {
        self.ticks
    }

    /// The sum of two spans.
    pub fn add(self, other: Duration) -> (r: Duration)
        requires
            self.ticks + other.ticks <= MAX_TICKS,
        ensures
            r.ticks == self.ticks + other.ticks,
    {
        Duration { ticks: self.ticks + other.ticks }
    }

    /// The difference of two spans, never below zero.
    pub fn sub(self, other: Duration) -> (r: Duration)
        ensures
            r.ticks == if self.ticks >= other.ticks {
                self.ticks - other.ticks
            } else {
                0
            },
    {
        Duration { ticks: self.ticks.saturating_sub(other.ticks) }
    }

    /// This span scaled by `scale`, rounded to the nearest tick, clamped.
    pub fn mul(self, scale: TimeScale) -> (r: Duration)
        requires
            scale.denom > 0,
        ensures
            r.ticks == clamp_ticks(round_div(self.ticks * scale.numer, scale.denom as int)),
    {
        assert((self.ticks as u128) * (scale.numer as u128) <= u128::MAX) by (nonlinear_arith)
            requires
                self.ticks <= u64::MAX,
                scale.numer <= u32::MAX,
        ;
        let scaled = (self.ticks as u128) * (scale.numer as u128);
        let t = div_round(scaled, scale.denom as u128);
        Duration { ticks: saturate_ticks(t) }
    }

    /// This span divided by `scale`, rounded to the nearest tick, clamped.
    pub fn div(self, scale: TimeScale) -> (r: Duration)
        requires
            scale.numer > 0,
        ensures
            r.ticks == clamp_ticks(round_div(self.ticks * scale.denom, scale.numer as int)),
    {
        assert((self.ticks as u128) * (scale.denom as u128) <= u128::MAX) by (nonlinear_arith)
            requires
                self.ticks <= u64::MAX,
                scale.denom <= u32::MAX,
        ;
        let scaled = (self.ticks as u128) * (scale.denom as u128);
        let t = div_round(scaled, scale.numer as u128);
        Duration { ticks: saturate_ticks(t) }
    }
}

/// Converting a tick count to exact seconds and back at the same rate gives the
/// same tick count.
pub proof fn lemma_seconds_round_trip(ticks: u64, rate: u32)
    requires
        rate > 0,
    ensures
        ticks_from_seconds(ticks as int, rate as int, rate as int) == ticks,
        (ticks as int) * (rate as int) <= u128::MAX,
{
    lemma_div_by_multiple(ticks as int, rate as int);
    lemma_mod_multiples_basic(ticks as int, rate as int);
    assert((ticks as int) * (rate as int) <= u128::MAX) by (nonlinear_arith)
        requires ticks <= u64::MAX, rate <= u32::MAX;
}

} // verus!
