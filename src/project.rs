//! A project: settings, the tempo map, timelines and endpoint configurations.
use crate::endpoint::EndpointConfig;
use crate::ids::{ContainerId, EndpointId, ProjectId, TimelineId, TrackId};
use crate::tempo::{NoteValue, Tempo, TimeSignature};
use crate::tempo_map::{count_at_or_before, Change, TempoMap};
use crate::time::{Duration, TimePosition};
use crate::timeline::{MediaContainer, Timeline, Track, TrackType};
use vstd::prelude::*;

verus! {

/// Reference and playback rate of a new project.
pub const DEFAULT_SAMPLE_RATE: u32 = 44100;

/// Settings of a project.
#[derive(Clone, Debug)]
pub struct ProjectSettings {
    /// Ticks per second: what one tick means.
    pub reference_sample_rate: u32,
    /// Samples per second of the output device.
    pub playback_sample_rate: u32,
    pub default_midi_output: Option<EndpointId>,
    pub default_midi_input: Option<String>,
    pub default_midi_channel: u8,
    pub default_velocity: u8,
    /// Length of a new note.
    pub default_note_duration: NoteValue,
    pub snap_to_grid: bool,
    /// Spacing of the grid.
    pub grid_size: NoteValue,
    pub auto_quantize: bool,
}

impl Default for ProjectSettings {
    /// 44.1 kHz, channel 0, velocity 100, sixteenth notes on a sixteenth grid.
    fn default() -> (r: ProjectSettings)
        ensures
            r.reference_sample_rate == DEFAULT_SAMPLE_RATE,
            r.playback_sample_rate == DEFAULT_SAMPLE_RATE,
            r.default_midi_output.is_none(),
            r.default_midi_input.is_none(),
            r.default_midi_channel == 0,
            r.default_velocity == 100,
            r.default_note_duration == (NoteValue { numer: 1, denom: 4 }),
            r.snap_to_grid,
            r.grid_size == (NoteValue { numer: 1, denom: 4 }),
            r.auto_quantize,
    {
        ProjectSettings {
            reference_sample_rate: DEFAULT_SAMPLE_RATE,
            playback_sample_rate: DEFAULT_SAMPLE_RATE,
            default_midi_output: None,
            default_midi_input: None,
            default_midi_channel: 0,
            default_velocity: 100,
            default_note_duration: NoteValue::from_beats(1, 4),
            snap_to_grid: true,
            grid_size: NoteValue::from_beats(1, 4),
            auto_quantize: true,
        }
    }
}

/// A project.
pub struct Project {
    pub id: ProjectId,
    pub name: String,
    pub settings: ProjectSettings,
    /// Counts modifications.
    pub version: u32,
    pub tempo_map: TempoMap,
    pub timelines: Vec<Timeline>,
    pub endpoints: Vec<EndpointConfig>,
    /// The timeline that playback and editing act on.
    pub active_timeline_id: Option<TimelineId>,
}

impl Project {
    /// The timelines, in the order they were added.
    pub open spec fn timelines_spec(&self) -> Seq<Timeline> {
        self.timelines@
    }

    /// The endpoint configurations, in the order they were added.
    pub open spec fn endpoints_spec(&self) -> Seq<EndpointConfig> {
        self.endpoints@
    }

    pub open spec fn active_spec(&self) -> Option<TimelineId> {
        self.active_timeline_id
    }

    /// Whether a timeline with identity `id` belongs to the project.
    pub open spec fn has_timeline(&self, id: TimelineId) -> bool {
        exists|i: int|
            0 <= i < self.timelines_spec().len() && (#[trigger] self.timelines_spec()[i]).id_spec()
                == id
    }

    pub open spec fn wf(&self) -> bool {
        &&& self.tempo_map.wf()
        &&& forall|i: int| 0 <= i < self.timelines_spec().len() ==> (#[trigger] self.timelines_spec()[i]).wf()
    }

    /// A project at 120 BPM in 4/4 with one empty timeline, "Main", active.
    pub fn new(name: String) -> (r: Project)
        ensures
            r.wf(),
            r.name@ == name@,
            r.version == 1,
            r.tempo_map.reference_rate() == DEFAULT_SAMPLE_RATE,
            r.tempo_map.playback_rate() == DEFAULT_SAMPLE_RATE,
            r.tempo_map.tempos() == seq![
                Change { position: TimePosition { position_ticks: 0 }, value: Tempo { milli_bpm: 120_000 } },
            ],
            r.tempo_map.signatures() == seq![
                Change {
                    position: TimePosition { position_ticks: 0 },
                    value: TimeSignature { numerator: 4, denominator: 4 },
                },
            ],
            r.timelines_spec().len() == 1,
            r.timelines_spec()[0].tracks_spec().len() == 0,
            r.timelines_spec()[0].containers_spec().len() == 0,
            r.active_spec() == Some(r.timelines_spec()[0].id_spec()),
            r.endpoints_spec().len() == 0,
    {
        let mut tempo_map = TempoMap::new(DEFAULT_SAMPLE_RATE, DEFAULT_SAMPLE_RATE);
        let ghost t0 = tempo_map.tempos();
        let ghost s0 = tempo_map.signatures();
        tempo_map.add_tempo_change(TimePosition::zero(), Tempo::new(120));
        tempo_map.add_time_signature_change(TimePosition::zero(), TimeSignature::new(4, 4));
        proof {
            assert(count_at_or_before(t0, 0) == 1);
            assert(count_at_or_before(s0, 0) == 1);
            assert(tempo_map.tempos() =~= seq![
                Change { position: TimePosition { position_ticks: 0 }, value: Tempo { milli_bpm: 120_000 } },
            ]);
            assert(tempo_map.signatures() =~= seq![
                Change {
                    position: TimePosition { position_ticks: 0 },
                    value: TimeSignature { numerator: 4, denominator: 4 },
                },
            ]);
        }
        let timeline = Timeline::new("Main".to_string());
        let timeline_id = timeline.id();
        let mut timelines: Vec<Timeline> = Vec::new();
        timelines.push(timeline);
        let settings = ProjectSettings::default();
        Project {
            id: ProjectId::new(),
            name,
            settings,
            version: 1,
            tempo_map,
            timelines,
            endpoints: Vec::new(),
            active_timeline_id: Some(timeline_id),
        }
    }

    fn find_timeline(&self, id: TimelineId) -> (r: Option<usize>)
        ensures
            match r {
                Some(i) => i < self.timelines@.len() && self.timelines@[i as int].id_spec() == id,
                None => !self.has_timeline(id),
            },
    {
        let mut i: usize = 0;
        while i < self.timelines.len()
            invariant
                i <= self.timelines@.len(),
                forall|j: int| 0 <= j < i ==> self.timelines@[j].id_spec() != id,
            decreases self.timelines@.len() - i,
        {
            if self.timelines[i].id() == id {
                return Some(i);
            }
            i = i + 1;
        }
        proof {
            if self.has_timeline(id) {
                let k = choose|k: int|
                    0 <= k < self.timelines_spec().len() && (#[trigger] self.timelines_spec()[k]).id_spec() == id;
                assert(self.timelines@[k].id_spec() != id);
            }
        }
        None
    }

    /// The active timeline, if one is set and belongs to the project.
    pub fn active_timeline(&self) -> (r: Option<&Timeline>)
        ensures
            match r {
                Some(t) => self.active_spec() == Some(t.id_spec()) && self.timelines_spec().contains(*t),
                None => self.active_spec() matches Some(id) ==> !self.has_timeline(id),
            },
    {
        match self.active_timeline_id {
            None => None,
            Some(id) => match self.find_timeline(id) {
                None => None,
                Some(i) => {
                    assert(self.timelines_spec()[i as int] == self.timelines@[i as int]);
                    Some(&self.timelines[i])
                },
            },
        }
    }

    /// The active timeline, for changes, if one is set and belongs to the project.
    pub fn active_timeline_mut(&mut self) -> (r: Option<&mut Timeline>)
        ensures
            match r {
                Some(t) => old(self).active_spec() == Some(t.id_spec()) && old(self).timelines_spec().contains(*t),
                None => old(self).active_spec() matches Some(id) ==> !old(self).has_timeline(id),
            },
    {
        match self.active_timeline_id {
            None => None,
            Some(id) => match self.find_timeline(id) {
                None => None,
                Some(i) => {
                    assert(self.timelines_spec()[i as int] == self.timelines@[i as int]);
                    Some(&mut self.timelines[i])
                },
            },
        }
    }

    /// The index of the active timeline, if one is set and belongs to the project.
    fn active_index(&self) -> (r: Option<usize>)
        ensures
            match r {
                Some(i) => i < self.timelines@.len() && self.active_spec() == Some(
                    self.timelines@[i as int].id_spec(),
                ),
                None => self.active_spec() matches Some(id) ==> !self.has_timeline(id),
            },
    {
        match self.active_timeline_id {
            None => None,
            Some(id) => self.find_timeline(id),
        }
    }

    /// Whether the project has an active timeline.
    pub open spec fn has_active(&self) -> bool {
        self.active_spec() matches Some(id) && self.has_timeline(id)
    }

    /// Adds a new track to the active timeline and returns its identity; `None`,
    /// with nothing changed, where there is no active timeline.
    pub fn add_track_to_active(&mut self, name: String, track_type: TrackType) -> (r: Option<TrackId>)
        requires
            old(self).wf(),
        ensures
            final(self).wf(),
            r is Some <==> old(self).has_active(),
            r is None ==> final(self).timelines_spec() == old(self).timelines_spec(),
            r matches Some(id) ==> exists|i: int|
                0 <= i < old(self).timelines_spec().len() && old(self).active_spec() == Some(
                    old(self).timelines_spec()[i].id_spec(),
                ) && final(self).timelines_spec() == old(self).timelines_spec().update(
                    i,
                    final(self).timelines_spec()[i],
                ) && final(self).timelines_spec()[i].tracks_spec().len()
                    == old(self).timelines_spec()[i].tracks_spec().len() + 1
                    && final(self).timelines_spec()[i].tracks_spec().last().id == id
                    && final(self).timelines_spec()[i].tracks_spec().last().track_type == track_type,
            final(self).active_spec() == old(self).active_spec(),
    {
        match self.active_index() {
            None => {
                proof {
                    if self.has_active() {
                        let id = self.active_spec()->Some_0;
                        assert(self.has_timeline(id));
                    }
                }
                None
            },
            Some(i) => {
                proof {
                    assert(self.timelines_spec()[i as int] == self.timelines@[i as int]);
                }
                let track = Track::new(name, track_type);
                let id = self.timelines[i].add_track(track);
                proof {
                    assert forall|j: int| 0 <= j < self.timelines_spec().len() implies (
                    #[trigger] self.timelines_spec()[j]).wf() by {
                        if j != i {
                            assert(self.timelines_spec()[j] == old(self).timelines_spec()[j]);
                        }
                    }
                    assert(self.timelines_spec() == old(self).timelines_spec().update(
                        i as int,
                        self.timelines_spec()[i as int],
                    ));
                }
                Some(id)
            },
        }
    }

    /// Moves container `id` of the active timeline to `position`. Returns
    /// whether it was placed there on a track.
    pub fn move_container_in_active(&mut self, id: ContainerId, position: TimePosition) -> (r: bool)
        requires
            old(self).wf(),
        ensures
            final(self).wf(),
            !old(self).has_active() ==> !r && final(self).timelines_spec() == old(self).timelines_spec(),
            old(self).has_active() ==> exists|i: int|
                0 <= i < old(self).timelines_spec().len() && old(self).active_spec() == Some(
                    old(self).timelines_spec()[i].id_spec(),
                ) && final(self).timelines_spec() == old(self).timelines_spec().update(
                    i,
                    final(self).timelines_spec()[i],
                ) && r == old(self).timelines_spec()[i].placed(id) && (r ==> Timeline::moved(
                    old(self).timelines_spec()[i],
                    final(self).timelines_spec()[i],
                    id,
                    position,
                )) && (!r ==> final(self).timelines_spec()[i].containers_spec() == old(
                    self,
                ).timelines_spec()[i].containers_spec()),
            final(self).active_spec() == old(self).active_spec(),
    {
        match self.active_index() {
            None => {
                proof {
                    if self.has_active() {
                        let a = self.active_spec()->Some_0;
                        assert(self.has_timeline(a));
                    }
                }
                false
            },
            Some(i) => {
                proof {
                    assert(self.timelines_spec()[i as int] == self.timelines@[i as int]);
                }
                let moved = self.timelines[i].move_container(id, position);
                proof {
                    assert forall|j: int| 0 <= j < self.timelines_spec().len() implies (
                    #[trigger] self.timelines_spec()[j]).wf() by {
                        if j != i {
                            assert(self.timelines_spec()[j] == old(self).timelines_spec()[j]);
                        }
                    }
                    assert(self.timelines_spec() == old(self).timelines_spec().update(
                        i as int,
                        self.timelines_spec()[i as int],
                    ));
                }
                moved
            },
        }
    }

    /// Sets the length of container `id` of the active timeline. Returns whether
    /// the active timeline stores it.
    pub fn resize_container_in_active(&mut self, id: ContainerId, length: Duration) -> (r: bool)
        requires
            old(self).wf(),
        ensures
            final(self).wf(),
            !old(self).has_active() ==> !r && final(self).timelines_spec() == old(self).timelines_spec(),
            old(self).has_active() ==> exists|i: int|
                0 <= i < old(self).timelines_spec().len() && old(self).active_spec() == Some(
                    old(self).timelines_spec()[i].id_spec(),
                ) && final(self).timelines_spec() == old(self).timelines_spec().update(
                    i,
                    final(self).timelines_spec()[i],
                ) && r == old(self).timelines_spec()[i].has_container(id) && (r ==> exists|k: int|
                    0 <= k < old(self).timelines_spec()[i].containers_spec().len()
                        && old(self).timelines_spec()[i].containers_spec()[k].id == id
                        && final(self).timelines_spec()[i].containers_spec() == old(
                        self,
                    ).timelines_spec()[i].containers_spec().update(
                        k,
                        MediaContainer { length, ..old(self).timelines_spec()[i].containers_spec()[k] },
                    )),
            final(self).active_spec() == old(self).active_spec(),
    {
        match self.active_index() {
            None => {
                proof {
                    if self.has_active() {
                        let a = self.active_spec()->Some_0;
                        assert(self.has_timeline(a));
                    }
                }
                false
            },
            Some(i) => {
                proof {
                    assert(self.timelines_spec()[i as int] == self.timelines@[i as int]);
                }
                let resized = self.timelines[i].set_container_length(id, length);
                proof {
                    assert forall|j: int| 0 <= j < self.timelines_spec().len() implies (
                    #[trigger] self.timelines_spec()[j]).wf() by {
                        if j != i {
                            assert(self.timelines_spec()[j] == old(self).timelines_spec()[j]);
                        }
                    }
                    assert(self.timelines_spec() == old(self).timelines_spec().update(
                        i as int,
                        self.timelines_spec()[i as int],
                    ));
                }
                resized
            },
        }
    }

    /// Adds an empty timeline named `name`; returns its identity.
    pub fn add_timeline(&mut self, name: String) -> (r: TimelineId)
        requires
            old(self).wf(),
        ensures
            final(self).wf(),
            final(self).timelines_spec().len() == old(self).timelines_spec().len() + 1,
            final(self).timelines_spec().drop_last() == old(self).timelines_spec(),
            final(self).timelines_spec().last().id_spec() == r,
            final(self).timelines_spec().last().name_spec() == name@,
            final(self).version == old(self).version + 1 || (old(self).version == u32::MAX
                && final(self).version == u32::MAX),
            final(self).active_spec() == old(self).active_spec(),
    {
        let timeline = Timeline::new(name);
        let id = timeline.id();
        self.timelines.push(timeline);
        self.version = self.version.saturating_add(1);
        assert(self.timelines_spec().drop_last() =~= old(self).timelines_spec());
        id
    }

    /// Makes timeline `id` the active one, if it belongs to the project.
    pub fn set_active_timeline(&mut self, id: TimelineId) -> (r: Result<(), ()>)
        requires
            old(self).wf(),
        ensures
            final(self).wf(),
            r is Ok <==> old(self).has_timeline(id),
            r is Ok ==> final(self).active_spec() == Some(id),
            r is Err ==> final(self).active_spec() == old(self).active_spec(),
            final(self).timelines_spec() == old(self).timelines_spec(),
    {
        match self.find_timeline(id) {
            Some(i) => {
                assert(self.timelines_spec()[i as int].id_spec() == id);
                self.active_timeline_id = Some(id);
                self.version = self.version.saturating_add(1);
                Ok(())
            },
            None => Err(()),
        }
    }

    /// Adds an endpoint configuration; returns its identity.
    pub fn add_endpoint(&mut self, config: EndpointConfig) -> (r: EndpointId)
        requires
            old(self).wf(),
        ensures
            final(self).wf(),
            r == config.id,
            final(self).endpoints_spec() == old(self).endpoints_spec().push(config),
            final(self).timelines_spec() == old(self).timelines_spec(),
            final(self).active_spec() == old(self).active_spec(),
    {
        let id = config.id;
        self.endpoints.push(config);
        self.version = self.version.saturating_add(1);
        assert(self.timelines_spec() == old(self).timelines_spec());
        assert forall|i: int| 0 <= i < self.timelines_spec().len() implies (
        #[trigger] self.timelines_spec()[i]).wf() by {
            assert(self.timelines_spec()[i] == old(self).timelines_spec()[i]);
        }
        id
    }

    /// The endpoint configuration with identity `id`.
    pub fn endpoint(&self, id: EndpointId) -> (r: Option<&EndpointConfig>)
        ensures
            match r {
                Some(c) => c.id == id && self.endpoints_spec().contains(*c),
                None => forall|i: int| 0 <= i < self.endpoints_spec().len() ==> (#[trigger] self.endpoints_spec()[i]).id != id,
            },
    {
        let mut i: usize = 0;
        while i < self.endpoints.len()
            invariant
                i <= self.endpoints@.len(),
                forall|j: int| 0 <= j < i ==> self.endpoints@[j].id != id,
            decreases self.endpoints@.len() - i,
        {
            if self.endpoints[i].id == id {
                assert(self.endpoints_spec()[i as int] == self.endpoints@[i as int]);
                return Some(&self.endpoints[i]);
            }
            i = i + 1;
        }
        None
    }

    /// The endpoint configuration with identity `id`, for changes.
    pub fn endpoint_mut(&mut self, id: EndpointId) -> (r: Option<&mut EndpointConfig>)
        ensures
            match r {
                Some(c) => c.id == id && old(self).endpoints_spec().contains(*c),
                None => forall|i: int| 0 <= i < old(self).endpoints_spec().len() ==> (#[trigger] old(self).endpoints_spec()[i]).id != id,
            },
    {
        let mut i: usize = 0;
        while i < self.endpoints.len()
            invariant
                i <= self.endpoints@.len(),
                self.endpoints@ == old(self).endpoints@,
                forall|j: int| 0 <= j < i ==> self.endpoints@[j].id != id,
            decreases self.endpoints@.len() - i,
        {
            if self.endpoints[i].id == id {
                assert(old(self).endpoints_spec()[i as int] == self.endpoints@[i as int]);
                return Some(&mut self.endpoints[i]);
            }
            i = i + 1;
        }
        None
    }
}

} // verus!
