//! Tempo, time signature and note values.
use crate::time::{Beats, Seconds};
use vstd::prelude::*;

verus! {

/// Beats per minute times one thousand of the default tempo (120 BPM).
pub const DEFAULT_MILLI_BPM: u32 = 120_000;

/// A musical tempo, in thousandths of a beat per minute.
#[derive(Clone, Copy, Debug, PartialEq, Eq, Structural)]
pub struct Tempo {
    pub milli_bpm: u32,
}

impl Tempo {
    /// A tempo of `bpm` whole beats per minute.
    pub fn new(bpm: u32) -> (r: Tempo)
        requires
            bpm * 1000 <= u32::MAX,
        ensures
            r.milli_bpm == bpm * 1000,
    {
        Tempo { milli_bpm: bpm * 1000 }
    }

    /// A tempo of `milli_bpm` thousandths of a beat per minute.
    pub fn from_milli_bpm(milli_bpm: u32) -> (r: Tempo)
        ensures
            r.milli_bpm == milli_bpm,
    {
        Tempo { milli_bpm }
    }

    /// How long one beat lasts: 60 / bpm seconds.
    pub fn beat_duration_secs(&self) -> (r: Seconds)
        requires
            self.milli_bpm > 0,
        ensures
            r.numer == 60_000,
            r.denom == self.milli_bpm,
    {
        Seconds { numer: 60_000, denom: self.milli_bpm as u64 }
    }
}

/// A musical time signature.
#[derive(Clone, Copy, Debug, PartialEq, Eq, Structural)]
pub struct TimeSignature {
    /// How many beats make a bar.
    pub numerator: u8,
    /// Which note value gets one beat.
    pub denominator: u8,
}

impl TimeSignature {
    pub fn new(numerator: u8, denominator: u8) -> (r: TimeSignature)
        ensures
            r.numerator == numerator,
            r.denominator == denominator,
    {
        TimeSignature { numerator, denominator }
    }

    /// The number of beats in one bar.
    pub fn beats_per_bar(&self) -> (r: u32)
        ensures
            r == self.numerator,
    {
        self.numerator as u32
    }
}

/// A note length in beats (quarter notes): `numer / denom`.
#[derive(Clone, Copy, Debug, PartialEq, Eq, Structural)]
pub struct NoteValue {
    pub numer: u32,
    pub denom: u32,
}

impl NoteValue {
    /// The length in beats.
    pub fn to_beats(&self) -> (r: Beats)
        requires
            self.denom > 0,
        ensures
            r.numer == self.numer,
            r.denom == self.denom,
    {
        Beats { numer: self.numer as u128, denom: self.denom as u64 }
    }

    /// The note value lasting `numer / denom` beats.
    pub fn from_beats(numer: u32, denom: u32) -> (r: NoteValue)
        requires
            denom > 0,
        ensures
            r.numer == numer,
            r.denom == denom,
    {
        NoteValue { numer, denom }
    }
}

} // verus!
