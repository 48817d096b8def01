//! The decisions of the playback loop: where playback stands after some elapsed
//! time, which containers sound in the window just played, and the per-beat pulse.
use crate::event::{OutputEvent, OutputEventType};
use crate::tempo_map::{beat_units, TempoMap};
use crate::time::{ticks_from_seconds, Seconds, TimePosition};
use crate::timeline::{MediaContainer, Timeline};
use vstd::prelude::*;

verus! {

/// Pitch of the pulse on the first beat.
pub const PULSE_BASE_NOTE: u8 = 60;

/// Velocity of the pulse notes.
pub const PULSE_VELOCITY: u8 = 100;

/// Where playback timing comes from.
#[derive(Clone, Copy, Debug, PartialEq, Eq, Structural)]
pub enum ClockSourceType {
    Internal,
    Mtc,
    Ltc,
}

/// Whole beats from zero to `p`.
pub open spec fn whole_beats(map: TempoMap, p: int) -> int {
    beat_units(map.tempos(), p) / map.units_per_beat()
}

/// The pitch of the pulse after `beats_before` whole beats: twelve steps up from
/// the base, then round again.
pub open spec fn pulse_note(beats_before: int) -> u8 {
    (PULSE_BASE_NOTE + beats_before % 12) as u8
}

/// The pulse for the window `[last, current)`: a note-on and its note-off where
/// a new whole beat begins in the window, nothing otherwise.
pub open spec fn pulse_spec(map: TempoMap, last: int, current: int) -> Seq<OutputEvent> {
    if whole_beats(map, current) > whole_beats(map, last) {
        let note = pulse_note(whole_beats(map, last));
        seq![
            OutputEvent { event_type: OutputEventType::MidiNoteOn { channel: 0, note, velocity: PULSE_VELOCITY }, target: None },
            OutputEvent { event_type: OutputEventType::MidiNoteOff { channel: 0, note }, target: None },
        ]
    } else {
        Seq::empty()
    }
}

/// The per-beat pulse for the window from `last` to `current`.
pub fn beat_pulse(map: &TempoMap, last: &TimePosition, current: &TimePosition) -> (r: Vec<OutputEvent>)
    requires
        map.wf(),
    ensures
        r@ == pulse_spec(*map, last.position_ticks as int, current.position_ticks as int),
{
    proof {
        map.lemma_wf();
    }
    let now = map.position_to_beats(current).whole();
    let before = map.position_to_beats(last).whole();
    let mut events: Vec<OutputEvent> = Vec::new();
    if now > before {
        let note = PULSE_BASE_NOTE + (before % 12) as u8;
        events.push(OutputEvent::midi_note_on(0, note, PULSE_VELOCITY, None));
        events.push(OutputEvent::midi_note_off(0, note, None));
        assert(events@ =~= pulse_spec(*map, last.position_ticks as int, current.position_ticks as int));
    } else {
        assert(events@ =~= pulse_spec(*map, last.position_ticks as int, current.position_ticks as int));
    }
    events
}

/// What one turn of the playback loop produced.
#[derive(Clone, Debug)]
pub struct PlaybackStep {
    /// Where playback now stands.
    pub position: TimePosition,
    /// The containers that sound in the window just played, for their content
    /// to be turned into events.
    pub containers: Vec<MediaContainer>,
    /// The per-beat pulse for that window, to follow the containers' events.
    pub pulse: Vec<OutputEvent>,
}

/// The state of the transport: stopped or playing, and where playback stands.
/// Elapsed time handed to `advance` counts from the latest `play` or `seek`.
#[derive(Clone, Copy, Debug)]
pub struct PlaybackEngine {
    playing: bool,
    anchor: TimePosition,
    last_position: TimePosition,
    clock_source: ClockSourceType,
}

impl PlaybackEngine {
    pub closed spec fn playing_spec(&self) -> bool {
        self.playing
    }

    /// The position that elapsed time counts from.
    pub closed spec fn anchor_spec(&self) -> TimePosition {
        self.anchor
    }

    /// The end of the window last played.
    pub closed spec fn position_spec(&self) -> TimePosition {
        self.last_position
    }

    pub closed spec fn clock_spec(&self) -> ClockSourceType {
        self.clock_source
    }

    /// A stopped transport at zero, on the internal clock.
    pub fn new() -> (r: PlaybackEngine)
        ensures
            !r.playing_spec(),
            r.anchor_spec().position_ticks == 0,
            r.position_spec().position_ticks == 0,
            r.clock_spec() == ClockSourceType::Internal,
    {
        PlaybackEngine {
            playing: false,
            anchor: TimePosition::zero(),
            last_position: TimePosition::zero(),
            clock_source: ClockSourceType::Internal,
        }
    }

    /// Switches the clock source, stopping playback first.
    pub fn set_clock_source(&mut self, clock_source: ClockSourceType)
        ensures
            !final(self).playing_spec(),
            final(self).clock_spec() == clock_source,
            final(self).anchor_spec() == old(self).anchor_spec(),
            final(self).position_spec() == old(self).position_spec(),
    {
        self.stop();
        self.clock_source = clock_source;
    }

    /// Starts playing from the anchor. Returns whether it was stopped; playing
    /// already, nothing changes.
    pub fn play(&mut self) -> (r: bool)
        ensures
            r == !old(self).playing_spec(),
            final(self).playing_spec(),
            r ==> final(self).position_spec() == old(self).anchor_spec(),
            !r ==> *final(self) == *old(self),
            final(self).anchor_spec() == old(self).anchor_spec(),
            final(self).clock_spec() == old(self).clock_spec(),
    {
        if self.playing {
            false
        } else {
            self.playing = true;
            self.last_position = self.anchor;
            true
        }
    }

    /// Stops playing. Returns whether it was playing.
    pub fn stop(&mut self) -> (r: bool)
        ensures
            r == old(self).playing_spec(),
            !final(self).playing_spec(),
            final(self).anchor_spec() == old(self).anchor_spec(),
            final(self).position_spec() == old(self).position_spec(),
            final(self).clock_spec() == old(self).clock_spec(),
    {
        let was = self.playing;
        self.playing = false;
        was
    }

    /// Moves playback to `position` without starting or stopping it; elapsed
    /// time counts from here on.
    pub fn seek(&mut self, position: TimePosition)
        ensures
            final(self).playing_spec() == old(self).playing_spec(),
            final(self).anchor_spec() == position,
            final(self).position_spec() == position,
            final(self).clock_spec() == old(self).clock_spec(),
    {
        self.anchor = position;
        self.last_position = position;
    }

    /// The end of the window last played.
    pub fn current_position(&self) -> (r: TimePosition)
        ensures
            r == self.position_spec(),
    {
        self.last_position
    }

    pub fn is_playing(&self) -> (r: bool)
        ensures
            r == self.playing_spec(),
    {
        self.playing
    }

    /// One turn of the playback loop, `elapsed` after the latest `play` or `seek`:
    /// the new position is the anchor plus the elapsed time at the reference rate,
    /// rounded (and clamped); the window played runs from the previous position
    /// to it. While stopped nothing happens and `None` comes back.
    pub fn advance(&mut self, timeline: &Timeline, map: &TempoMap, elapsed: Seconds) -> (r: Option<
        PlaybackStep,
    >)
        requires
            timeline.wf(),
            map.wf(),
            elapsed.denom > 0,
            elapsed.numer * map.reference_rate() <= u128::MAX,
        ensures
            !old(self).playing_spec() ==> r is None && *final(self) == *old(self),
            old(self).playing_spec() ==> (r matches Some(step) && {
                let last = old(self).position_spec().position_ticks as int;
                let now = step.position.position_ticks as int;
                let moved = ticks_from_seconds(elapsed.numer as int, elapsed.denom as int, map.reference_rate());
                &&& now == if old(self).anchor_spec().position_ticks + moved > u64::MAX {
                    u64::MAX as int
                } else {
                    old(self).anchor_spec().position_ticks + moved
                }
                &&& final(self).position_spec() == step.position
                &&& final(self).playing_spec()
                &&& final(self).anchor_spec() == old(self).anchor_spec()
                &&& final(self).clock_spec() == old(self).clock_spec()
                &&& step.pulse@ == pulse_spec(*map, last, now)
                &&& (last <= now ==> forall|c: MediaContainer|
                    #[trigger] step.containers@.contains(c) == timeline.reports_any(c, last, now))
                &&& (last > now ==> step.containers@.len() == 0)
            }),
    {
        if !self.playing {
            return None;
        }
        let moved = TimePosition::from_seconds(elapsed, map.reference_sample_rate());
        let room = u64::MAX - self.anchor.position_ticks;
        let current = if moved.position_ticks > room {
            TimePosition::new(u64::MAX)
        } else {
            TimePosition::new(self.anchor.position_ticks + moved.position_ticks)
        };
        let last = self.last_position;
        let containers = if last.position_ticks <= current.position_ticks {
            timeline.containers_in_range(&last, &current)
        } else {
            Vec::new()
        };
        let pulse = beat_pulse(map, &last, &current);
        self.last_position = current;
        Some(PlaybackStep { position: current, containers, pulse })
    }
}

} // verus!
