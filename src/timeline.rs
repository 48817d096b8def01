//! Tracks, media containers, and the timeline that places containers on tracks.
use crate::ids::{AudioFileId, ContainerId, EndpointId, MidiClipId, PatternId, TimelineId, TrackId};
use crate::time::{Duration, TimePosition, TimeScale, DEFAULT_TICKS_PER_BEAT};
use vstd::prelude::*;

verus! {

/// A display color.
#[derive(Clone, Copy, Debug, PartialEq, Eq, Structural)]
pub struct Color {
    pub r: u8,
    pub g: u8,
    pub b: u8,
}

impl Color {
    pub fn new(r: u8, g: u8, b: u8) -> (c: Color)
        ensures
            c.r == r,
            c.g == g,
            c.b == b,
    {
        Color { r, g, b }
    }
}

/// What a track carries.
#[derive(Clone, Copy, Debug, PartialEq, Eq, Structural)]
pub enum TrackType {
    Midi,
    Audio,
    Instrument,
    Automation,
}

/// A track of a timeline.
#[derive(Clone, Debug)]
pub struct Track {
    pub id: TrackId,
    pub name: String,
    pub track_type: TrackType,
    /// The endpoint the track plays through, if any.
    pub output_id: Option<EndpointId>,
    pub color: Color,
    pub is_muted: bool,
    pub is_solo: bool,
    /// Height in the user interface, in pixels.
    pub height: u32,
}

impl Track {
    /// A new track with a fresh identity, no output, unmuted, not solo.
    pub fn new(name: String, track_type: TrackType) -> (t: Track)
        ensures
            t.name@ == name@,
            t.track_type == track_type,
            t.output_id.is_none(),
            t.color == (Color { r: 100, g: 100, b: 200 }),
            !t.is_muted,
            !t.is_solo,
            t.height == 100,
    {
        Track {
            id: TrackId::new(),
            name,
            track_type,
            output_id: None,
            color: Color::new(100, 100, 200),
            is_muted: false,
            is_solo: false,
            height: 100,
        }
    }

    /// The same track in `color`.
    pub fn with_color(self, color: Color) -> (t: Track)
        ensures
            t.color == color,
            t.id == self.id,
            t.name == self.name,
            t.track_type == self.track_type,
            t.output_id == self.output_id,
            t.is_muted == self.is_muted,
            t.is_solo == self.is_solo,
            t.height == self.height,
    {
        let mut t = self;
        t.color = color;
        t
    }

    /// The same track playing through `output_id`.
    pub fn with_output(self, output_id: EndpointId) -> (t: Track)
        ensures
            t.output_id == Some(output_id),
            t.id == self.id,
            t.name == self.name,
            t.track_type == self.track_type,
            t.color == self.color,
            t.is_muted == self.is_muted,
            t.is_solo == self.is_solo,
            t.height == self.height,
    {
        let mut t = self;
        t.output_id = Some(output_id);
        t
    }
}

/// How a container plays its content.
#[derive(Clone, Copy, Debug, PartialEq, Eq, Structural)]
pub enum PlaybackMode {
    /// Once, at normal length.
    Normal,
    /// Repeated until the container's length is reached.
    Loop,
    /// Once, whatever the container's length.
    OneShot,
    /// Forward and backward in turn.
    PingPong,
}

/// What a container holds: a reference to content resolved elsewhere.
#[derive(Clone, Copy, Debug, PartialEq, Eq, Structural)]
pub enum MediaContent {
    Pattern(PatternId),
    MidiClip(MidiClipId),
    AudioFile(AudioFileId),
}

/// The kind of content a container holds.
#[derive(Clone, Copy, Debug, PartialEq, Eq, Structural)]
pub enum ContainerContentType {
    Pattern,
    MidiClip,
    AudioFile,
}

/// The kind of content `m` is.
pub open spec fn content_kind(m: MediaContent) -> ContainerContentType {
    match m {
        MediaContent::Pattern(_) => ContainerContentType::Pattern,
        MediaContent::MidiClip(_) => ContainerContentType::MidiClip,
        MediaContent::AudioFile(_) => ContainerContentType::AudioFile,
    }
}

impl MediaContent {
    /// The kind of this content.
    pub fn content_type(&self) -> (r: ContainerContentType)
        ensures
            r == content_kind(*self),
    {
        match self {
            MediaContent::Pattern(_) => ContainerContentType::Pattern,
            MediaContent::MidiClip(_) => ContainerContentType::MidiClip,
            MediaContent::AudioFile(_) => ContainerContentType::AudioFile,
        }
    }
}

/// Content placed at a position of the timeline, for a length.
#[derive(Clone, Copy, Debug)]
pub struct MediaContainer {
    pub id: ContainerId,
    pub position: TimePosition,
    pub length: Duration,
    pub playback_mode: PlaybackMode,
    /// Times to loop; `None` loops for as long as the container lasts.
    pub loop_count: Option<u32>,
    /// Offset from the start of the content.
    pub start_offset: Duration,
    /// Offset from the end of the content.
    pub end_offset: Duration,
    /// Playback speed (1/1 is normal).
    pub time_scale: TimeScale,
    pub content: MediaContent,
}

impl MediaContainer {
    /// A container with a fresh identity, four default beats long, played once at normal speed.
    pub fn new(position: TimePosition, content: MediaContent) -> (c: MediaContainer)
        ensures
            c.position == position,
            c.content == content,
            c.length.ticks == 4 * DEFAULT_TICKS_PER_BEAT,
            c.playback_mode == PlaybackMode::Normal,
            c.loop_count.is_none(),
            c.start_offset.ticks == 0,
            c.end_offset.ticks == 0,
            c.time_scale == (TimeScale { numer: 1, denom: 1 }),
    {
        MediaContainer {
            id: ContainerId::new(),
            position,
            length: Duration::new(4 * DEFAULT_TICKS_PER_BEAT),
            playback_mode: PlaybackMode::Normal,
            loop_count: None,
            start_offset: Duration::zero(),
            end_offset: Duration::zero(),
            time_scale: TimeScale::normal(),
            content,
        }
    }

    /// The same container, `length` long.
    pub fn with_length(self, length: Duration) -> (c: MediaContainer)
        ensures
            c == (MediaContainer { length, ..self }),
    {
        MediaContainer { length, ..self }
    }

    /// The same container, looping `count` times (`None`: for as long as it lasts).
    pub fn with_loop(self, count: Option<u32>) -> (c: MediaContainer)
        ensures
            c == (MediaContainer { playback_mode: PlaybackMode::Loop, loop_count: count, ..self }),
    {
        MediaContainer { playback_mode: PlaybackMode::Loop, loop_count: count, ..self }
    }

    /// The same container, its content cropped by `start` and `end`.
    pub fn with_crop(self, start: Duration, end: Duration) -> (c: MediaContainer)
        ensures
            c == (MediaContainer { start_offset: start, end_offset: end, ..self }),
    {
        MediaContainer { start_offset: start, end_offset: end, ..self }
    }

    /// The same container, played at `scale`.
    pub fn with_time_scale(self, scale: TimeScale) -> (c: MediaContainer)
        ensures
            c == (MediaContainer { time_scale: scale, ..self }),
    {
        MediaContainer { time_scale: scale, ..self }
    }
}

/// Whether a container placed at `position` for `length` ticks sounds in the
/// window `[start, end)`: it starts inside the window, or starts before it and
/// lasts past `start`.
pub open spec fn overlaps(position: int, length: int, start: int, end: int) -> bool {
    (start <= position < end) || (position < start && position + length > start)
}

/// `x` is an entry of `s` on a track other than `track`.
pub open spec fn kept_from(s: Seq<Placement>, x: Placement, track: TrackId) -> bool {
    exists|b: int| 0 <= b < s.len() && s[b] == x && x.track != track
}

/// A container placed on a track: an entry of the position-ordered index.
#[derive(Clone, Copy, Debug)]
pub struct Placement {
    pub track: TrackId,
    pub position: TimePosition,
    pub container: ContainerId,
}

/// Tracks and containers, with the containers placed on tracks in an index
/// ordered by start position. Containers that start at the same tick coexist.
#[derive(Clone, Debug)]
pub struct Timeline {
    id: TimelineId,
    name: String,
    tracks: Vec<Track>,
    containers: Vec<MediaContainer>,
    placements: Vec<Placement>,
}

impl Timeline {
    /// The timeline's identity.
    pub closed spec fn id_spec(&self) -> TimelineId {
        self.id
    }

    /// The timeline's name.
    pub closed spec fn name_spec(&self) -> Seq<char> {
        self.name@
    }

    /// The timeline's identity.
    pub fn id(&self) -> (r: TimelineId)
        ensures
            r == self.id_spec(),
    {
        self.id
    }

    /// The timeline's name.
    pub fn name(&self) -> (r: &String)
        ensures
            r@ == self.name_spec(),
    {
        &self.name
    }

    /// The tracks, in the order they were added.
    pub closed spec fn tracks_spec(&self) -> Seq<Track> {
        self.tracks@
    }

    /// The stored containers.
    pub closed spec fn containers_spec(&self) -> Seq<MediaContainer> {
        self.containers@
    }

    /// The placements of containers on tracks, ordered by start position.
    pub closed spec fn placements_spec(&self) -> Seq<Placement> {
        self.placements@
    }

    /// Whether a track with identity `id` was added.
    pub open spec fn has_track(&self, id: TrackId) -> bool {
        exists|i: int| 0 <= i < self.tracks_spec().len() && (#[trigger] self.tracks_spec()[i]).id == id
    }

    /// Whether a container with identity `id` is stored.
    pub open spec fn has_container(&self, id: ContainerId) -> bool {
        exists|i: int|
            0 <= i < self.containers_spec().len() && (#[trigger] self.containers_spec()[i]).id == id
    }

    /// Whether the container `id` is placed on `track`.
    pub open spec fn on_track(&self, track: TrackId, id: ContainerId) -> bool {
        exists|i: int|
            0 <= i < self.placements_spec().len() && (#[trigger] self.placements_spec()[i]).track
                == track && self.placements_spec()[i].container == id
    }

    /// Whether the container `id` is placed on any track.
    pub open spec fn placed(&self, id: ContainerId) -> bool {
        exists|i: int|
            0 <= i < self.placements_spec().len() && (#[trigger] self.placements_spec()[i]).container
                == id
    }

    /// Whether a query of `track` over `[start, end)` reports container `c`.
    pub open spec fn reports(&self, track: TrackId, c: MediaContainer, start: int, end: int) -> bool {
        &&& self.containers_spec().contains(c)
        &&& self.on_track(track, c.id)
        &&& overlaps(c.position.position_ticks as int, c.length.ticks as int, start, end)
    }

    pub closed spec fn wf(&self) -> bool {
        &&& forall|i: int, j: int|
            0 <= i < j < self.containers@.len() ==> self.containers@[i].id != self.containers@[j].id
        &&& forall|i: int, j: int|
            0 <= i < j < self.placements@.len() ==> self.placements@[i].position.position_ticks
                <= self.placements@[j].position.position_ticks
        &&& forall|i: int, j: int|
            0 <= i < j < self.placements@.len() ==> self.placements@[i].container
                != self.placements@[j].container
        &&& forall|i: int|
            0 <= i < self.placements@.len() ==> self.backed(#[trigger] self.placements@[i])
    }

    /// A stored container has the placement's identity and start.
    pub closed spec fn backed(&self, p: Placement) -> bool {
        exists|k: int|
            0 <= k < self.containers@.len() && (#[trigger] self.containers@[k]).id == p.container
                && self.containers@[k].position == p.position
    }

    /// What every well-formed timeline satisfies: stored containers have
    /// distinct identities; a container is placed at most once, so on at most
    /// one track; and a placed container is stored, starting where it is placed.
    pub proof fn lemma_wf(&self)
        requires
            self.wf(),
        ensures
            forall|i: int, j: int|
                0 <= i < j < self.containers_spec().len() ==> (#[trigger] self.containers_spec()[i]).id
                    != (#[trigger] self.containers_spec()[j]).id,
            forall|t1: TrackId, t2: TrackId, c: ContainerId|
                #[trigger] self.on_track(t1, c) && #[trigger] self.on_track(t2, c) ==> t1 == t2,
            forall|t: TrackId, c: ContainerId| #[trigger] self.on_track(t, c) ==> self.placed(c),
            forall|c: ContainerId| #[trigger] self.placed(c) ==> exists|t: TrackId| self.on_track(t, c),
            forall|c: ContainerId| #[trigger] self.placed(c) ==> self.has_container(c),
            forall|i: int, k: int|
                0 <= i < self.placements_spec().len() && 0 <= k < self.containers_spec().len()
                    && (#[trigger] self.containers_spec()[k]).id == (#[trigger] self.placements_spec()[i]).container
                    ==> self.containers_spec()[k].position == self.placements_spec()[i].position,
    {
        assert forall|t1: TrackId, t2: TrackId, c: ContainerId|
            #[trigger] self.on_track(t1, c) && #[trigger] self.on_track(t2, c) implies t1 == t2 by {
            let a = choose|a: int|
                0 <= a < self.placements_spec().len() && (#[trigger] self.placements_spec()[a]).track == t1
                    && self.placements_spec()[a].container == c;
            let b = choose|b: int|
                0 <= b < self.placements_spec().len() && (#[trigger] self.placements_spec()[b]).track == t2
                    && self.placements_spec()[b].container == c;
            if a < b {
                assert(self.placements@[a].container != self.placements@[b].container);
            } else if b < a {
                assert(self.placements@[b].container != self.placements@[a].container);
            }
        }
        assert forall|t: TrackId, c: ContainerId| #[trigger] self.on_track(t, c) implies self.placed(c) by {
            let a = choose|a: int|
                0 <= a < self.placements_spec().len() && (#[trigger] self.placements_spec()[a]).track == t
                    && self.placements_spec()[a].container == c;
            assert(self.placements_spec()[a].container == c);
        }
        assert forall|c: ContainerId| #[trigger] self.placed(c) implies exists|t: TrackId| self.on_track(t, c) by {
            let a = choose|a: int|
                0 <= a < self.placements_spec().len() && (#[trigger] self.placements_spec()[a]).container == c;
            assert(self.on_track(self.placements_spec()[a].track, c));
        }
        assert forall|c: ContainerId| #[trigger] self.placed(c) implies self.has_container(c) by {
            let a = choose|a: int|
                0 <= a < self.placements_spec().len() && (#[trigger] self.placements_spec()[a]).container == c;
            assert(self.backed(self.placements@[a]));
            let k = choose|k: int|
                0 <= k < self.containers@.len() && (#[trigger] self.containers@[k]).id == self.placements@[a].container
                    && self.containers@[k].position == self.placements@[a].position;
            assert(self.containers_spec()[k].id == c);
        }
        assert forall|i: int, k: int|
            0 <= i < self.placements_spec().len() && 0 <= k < self.containers_spec().len()
                && (#[trigger] self.containers_spec()[k]).id == (#[trigger] self.placements_spec()[i]).container
                implies self.containers_spec()[k].position == self.placements_spec()[i].position by {
            assert(self.backed(self.placements@[i]));
            let k2 = choose|k2: int|
                0 <= k2 < self.containers@.len() && (#[trigger] self.containers@[k2]).id == self.placements@[i].container
                    && self.containers@[k2].position == self.placements@[i].position;
            if k2 < k {
                assert(self.containers@[k2].id != self.containers@[k].id);
            } else if k < k2 {
                assert(self.containers@[k].id != self.containers@[k2].id);
            }
        }
    }

    /// An empty timeline with a fresh identity.
    pub fn new(name: String) -> (t: Timeline)
        ensures
            t.wf(),
            t.name_spec() == name@,
            t.tracks_spec().len() == 0,
            t.containers_spec().len() == 0,
            t.placements_spec().len() == 0,
    {
        Timeline {
            id: TimelineId::new(),
            name,
            tracks: Vec::new(),
            containers: Vec::new(),
            placements: Vec::new(),
        }
    }

    /// Finds a stored container by identity.
    fn find_container(&self, id: ContainerId) -> (r: Option<usize>)
        ensures
            match r {
                Some(i) => i < self.containers@.len() && self.containers@[i as int].id == id,
                None => forall|i: int|
                    0 <= i < self.containers@.len() ==> self.containers@[i].id != id,
            },
    {
        let mut i: usize = 0;
        while i < self.containers.len()
            invariant
                i <= self.containers@.len(),
                forall|j: int| 0 <= j < i ==> self.containers@[j].id != id,
            decreases self.containers@.len() - i,
        {
            if self.containers[i].id == id {
                return Some(i);
            }
            i = i + 1;
        }
        None
    }

    /// Finds the placement of a container by identity.
    fn find_placement(&self, id: ContainerId) -> (r: Option<usize>)
        ensures
            match r {
                Some(i) => i < self.placements@.len() && self.placements@[i as int].container == id,
                None => forall|i: int|
                    0 <= i < self.placements@.len() ==> self.placements@[i].container != id,
            },
    {
        let mut i: usize = 0;
        while i < self.placements.len()
            invariant
                i <= self.placements@.len(),
                forall|j: int| 0 <= j < i ==> self.placements@[j].container != id,
            decreases self.placements@.len() - i,
        {
            if self.placements[i].container == id {
                return Some(i);
            }
            i = i + 1;
        }
        None
    }

    /// The tracks, in the order they were added.
    pub fn tracks(&self) -> (r: &Vec<Track>)
        ensures
            r@ == self.tracks_spec(),
    {
        &self.tracks
    }

    /// Whether a track with identity `id` was added.
    pub fn contains_track(&self, id: TrackId) -> (r: bool)
        ensures
            r == self.has_track(id),
    {
        let mut i: usize = 0;
        while i < self.tracks.len()
            invariant
                i <= self.tracks@.len(),
                forall|j: int| 0 <= j < i ==> self.tracks@[j].id != id,
            decreases self.tracks@.len() - i,
        {
            if self.tracks[i].id == id {
                assert(self.tracks_spec()[i as int].id == id);
                return true;
            }
            i = i + 1;
        }
        false
    }

    /// A track by identity.
    pub fn track(&self, id: TrackId) -> (r: Option<&Track>)
        ensures
            match r {
                Some(t) => t.id == id && self.tracks_spec().contains(*t),
                None => !self.has_track(id),
            },
    {
        let mut i: usize = 0;
        while i < self.tracks.len()
            invariant
                i <= self.tracks@.len(),
                forall|j: int| 0 <= j < i ==> self.tracks@[j].id != id,
            decreases self.tracks@.len() - i,
        {
            if self.tracks[i].id == id {
                assert(self.tracks_spec()[i as int] == self.tracks@[i as int]);
                return Some(&self.tracks[i]);
            }
            i = i + 1;
        }
        None
    }

    /// A track by identity, for changes.
    pub fn track_mut(&mut self, id: TrackId) -> (r: Option<&mut Track>)
        ensures
            match r {
                Some(t) => t.id == id && old(self).tracks_spec().contains(*t),
                None => !old(self).has_track(id),
            },
    {
        let mut i: usize = 0;
        while i < self.tracks.len()
            invariant
                i <= self.tracks@.len(),
                self.tracks@ == old(self).tracks@,
                forall|j: int| 0 <= j < i ==> self.tracks@[j].id != id,
            decreases self.tracks@.len() - i,
        {
            if self.tracks[i].id == id {
                assert(old(self).tracks_spec()[i as int] == self.tracks@[i as int]);
                return Some(&mut self.tracks[i]);
            }
            i = i + 1;
        }
        None
    }

    /// A stored container by identity.
    pub fn container(&self, id: ContainerId) -> (r: Option<MediaContainer>)
        ensures
            match r {
                Some(c) => c.id == id && self.containers_spec().contains(c),
                None => !self.has_container(id),
            },
    {
        match self.find_container(id) {
            Some(i) => {
                assert(self.containers_spec()[i as int] == self.containers@[i as int]);
                Some(self.containers[i])
            },
            None => None,
        }
    }

    /// Puts `p` into the index after every placement that starts at or before it.
    fn insert_placement(&mut self, p: Placement)
        requires
            forall|i: int, j: int|
                0 <= i < j < old(self).placements@.len() ==> old(self).placements@[i].position.position_ticks
                    <= old(self).placements@[j].position.position_ticks,
        ensures
            final(self).placements@.len() == old(self).placements@.len() + 1,
            exists|k: int|
                0 <= k <= old(self).placements@.len() && final(self).placements@ == old(
                    self,
                ).placements@.insert(k, p),
            forall|i: int, j: int|
                0 <= i < j < final(self).placements@.len() ==> final(self).placements@[i].position.position_ticks
                    <= final(self).placements@[j].position.position_ticks,
            final(self).containers@ == old(self).containers@,
            final(self).tracks@ == old(self).tracks@,
            final(self).id == old(self).id,
            final(self).name == old(self).name,
    {
        let ghost s = self.placements@;
        let mut i: usize = 0;
        while i < self.placements.len()
            && self.placements[i].position.position_ticks <= p.position.position_ticks
            invariant
                self.placements@ == s,
                i <= s.len(),
                forall|j: int| 0 <= j < i ==> s[j].position.position_ticks <= p.position.position_ticks,
            decreases s.len() - i,
        {
            i = i + 1;
        }
        self.placements.insert(i, p);
        proof {
            let n = self.placements@;
            assert(n == s.insert(i as int, p));
            assert forall|a: int, b: int| 0 <= a < b < n.len() implies n[a].position.position_ticks
                <= n[b].position.position_ticks by {
                if b < i {
                } else if b == i {
                } else if a < i {
                    assert(n[b] == s[b - 1]);
                } else if a == i {
                    assert(n[b] == s[b - 1]);
                    assert(s[i as int].position.position_ticks > p.position.position_ticks);
                } else {
                    assert(n[a] == s[a - 1]);
                    assert(n[b] == s[b - 1]);
                }
            }
        }
    }

    /// Whether a query over `[start, end)` of every track reports container `c`.
    pub open spec fn reports_any(&self, c: MediaContainer, start: int, end: int) -> bool {
        &&& self.containers_spec().contains(c)
        &&& self.placed(c.id)
        &&& overlaps(c.position.position_ticks as int, c.length.ticks as int, start, end)
    }

    /// Takes the placement of container `id` out of the index, if there is one.
    fn unplace(&mut self, id: ContainerId)
        requires
            old(self).wf(),
        ensures
            final(self).wf(),
            final(self).containers@ == old(self).containers@,
            final(self).tracks@ == old(self).tracks@,
            final(self).id == old(self).id,
            final(self).name == old(self).name,
            !final(self).placed(id),
            forall|t: TrackId, c: ContainerId|
                #[trigger] final(self).on_track(t, c) == (old(self).on_track(t, c) && c != id),
    {
        let ghost s = self.placements@;
        match self.find_placement(id) {
            Some(k) => {
                self.placements.remove(k);
                proof {
                    let n = self.placements@;
                    assert(n == s.remove(k as int));
                    assert forall|a: int| 0 <= a < n.len() implies self.backed(#[trigger] n[a]) by {
                        if a < k {
                            assert(n[a] == s[a]);
                            assert(old(self).backed(s[a]));
                        } else {
                            assert(n[a] == s[a + 1]);
                            assert(old(self).backed(s[a + 1]));
                        }
                    }
                    assert forall|a: int, b: int| 0 <= a < b < n.len() implies n[a].container
                        != n[b].container && n[a].position.position_ticks
                        <= n[b].position.position_ticks by {
                        let a0 = if a < k { a } else { a + 1 };
                        let b0 = if b < k { b } else { b + 1 };
                        assert(n[a] == s[a0]);
                        assert(n[b] == s[b0]);
                    }
                    assert forall|a: int| 0 <= a < n.len() implies (#[trigger] n[a]).container
                        != id by {
                        let a0 = if a < k { a } else { a + 1 };
                        assert(n[a] == s[a0]);
                    }
                    assert forall|t: TrackId, c: ContainerId|
                        #[trigger] self.on_track(t, c) == (old(self).on_track(t, c) && c != id) by {
                        if self.on_track(t, c) {
                            let a = choose|a: int|
                                0 <= a < n.len() && (#[trigger] n[a]).track == t && n[a].container
                                    == c;
                            let a0 = if a < k { a } else { a + 1 };
                            assert(n[a] == s[a0]);
                            assert(old(self).placements_spec()[a0] == s[a0]);
                        }
                        if old(self).on_track(t, c) && c != id {
                            let b = choose|b: int|
                                0 <= b < s.len() && (#[trigger] s[b]).track == t && s[b].container
                                    == c;
                            assert(b != k);
                            let a = if b < k { b } else { b - 1 };
                            assert(n[a] == s[b]);
                            assert(self.placements_spec()[a] == n[a]);
                        }
                    }
                }
            },
            None => {},
        }
    }

    /// Stores `container` (replacing one of the same identity) and places it on
    /// `track_id` at its position; on a track that was never added it is stored
    /// but not placed.
    pub fn add_container(&mut self, track_id: TrackId, container: MediaContainer) -> (r: ContainerId)
        requires
            old(self).wf(),
        ensures
            final(self).wf(),
            r == container.id,
            final(self).tracks_spec() == old(self).tracks_spec(),
            forall|c: MediaContainer|
                #[trigger] final(self).containers_spec().contains(c) == (c == container || (old(
                    self,
                ).containers_spec().contains(c) && c.id != container.id)),
            forall|t: TrackId, c: ContainerId|
                #[trigger] final(self).on_track(t, c) == ((c == container.id && t == track_id
                    && old(self).has_track(track_id)) || (old(self).on_track(t, c) && c
                    != container.id)),
    {
        let id = container.id;
        self.unplace(id);
        let ghost mid = *self;
        let ghost cs = self.containers@;
        let ghost mut at_index: int = 0;
        match self.find_container(id) {
            Some(i) => {
                self.containers.set(i, container);
                proof {
                    at_index = i as int;
                }
            },
            None => {
                self.containers.push(container);
                proof {
                    at_index = cs.len() as int;
                }
            },
        }
        proof {
            let n = self.containers@;
            assert(0 <= at_index < n.len() && n[at_index] == container);
            assert(self.placements@ == mid.placements@);
            assert(self.placements_spec() == mid.placements_spec());
            assert(self.tracks_spec() == old(self).tracks_spec());
            assert forall|a: int, b: int| 0 <= a < b < n.len() implies n[a].id != n[b].id by {
                if a < cs.len() && n[a] != cs[a] {
                } else if b < cs.len() && n[b] != cs[b] {
                }
            }
            assert forall|a: int| 0 <= a < self.placements@.len() implies self.backed(
                #[trigger] self.placements@[a],
            ) by {
                let p = self.placements@[a];
                assert(mid.backed(p));
                assert(mid.placements_spec()[a] == p);
                let k = choose|k: int| 0 <= k < cs.len() && (#[trigger] cs[k]).id == p.container
                    && cs[k].position == p.position;
                assert(p.container != id);
                assert(n[k] == cs[k]);
            }
            assert forall|c: MediaContainer|
                #[trigger] n.contains(c) == (c == container || (cs.contains(c) && c.id != id)) by {
                if n.contains(c) {
                    let k = choose|k: int| 0 <= k < n.len() && n[k] == c;
                    if c != container {
                        assert(cs[k] == c);
                    }
                }
                if c == container {
                    assert(n[at_index] == c);
                }
                if cs.contains(c) && c.id != id {
                    let k = choose|k: int| 0 <= k < cs.len() && cs[k] == c;
                    assert(n[k] == c);
                }
            }
        }
        if self.contains_track(track_id) {
            let ghost before = *self;
            assert(!before.placed(id)) by {
                assert forall|a: int| 0 <= a < before.placements_spec().len() implies (
                #[trigger] before.placements_spec()[a]).container != id by {
                    assert(mid.placements_spec()[a] == before.placements_spec()[a]);
                }
            }
            self.insert_placement(Placement { track: track_id, position: container.position, container: id });
            proof {
                let s = before.placements@;
                let n = self.placements@;
                let k = choose|k: int| 0 <= k <= s.len() && n == s.insert(k, Placement { track: track_id, position: container.position, container: id });
                assert forall|a: int| 0 <= a < n.len() implies self.backed(#[trigger] n[a]) by {
                    if a < k {
                        assert(n[a] == s[a]);
                        assert(before.backed(s[a]));
                    } else if a > k {
                        assert(n[a] == s[a - 1]);
                        assert(before.backed(s[a - 1]));
                    } else {
                        assert(self.containers@[at_index] == container);
                        assert(self.containers@[at_index].id == n[a].container);
                    }
                }
                assert forall|a: int, b: int| 0 <= a < b < n.len() implies n[a].container
                    != n[b].container by {
                    if a != k && b != k {
                        let a0 = if a < k { a } else { a - 1 };
                        let b0 = if b < k { b } else { b - 1 };
                        assert(n[a] == s[a0]);
                        assert(n[b] == s[b0]);
                    } else if a == k {
                        let b0 = b - 1;
                        assert(n[b] == s[b0]);
                        assert(!before.placed(id));
                        assert(before.placements_spec()[b0] == s[b0]);
                    } else {
                        assert(n[a] == s[a]);
                        assert(!before.placed(id));
                        assert(before.placements_spec()[a] == s[a]);
                    }
                }
                assert forall|t: TrackId, c: ContainerId|
                    #[trigger] self.on_track(t, c) == ((c == id && t == track_id) || before.on_track(t, c)) by {
                    if self.on_track(t, c) {
                        let a = choose|a: int|
                            0 <= a < n.len() && (#[trigger] n[a]).track == t && n[a].container == c;
                        if a < k {
                            assert(n[a] == s[a]);
                            assert(before.placements_spec()[a] == s[a]);
                        } else if a > k {
                            assert(n[a] == s[a - 1]);
                            assert(before.placements_spec()[a - 1] == s[a - 1]);
                        }
                    }
                    if c == id && t == track_id {
                        assert(self.placements_spec()[k] == n[k]);
                    }
                    if before.on_track(t, c) {
                        let b = choose|b: int|
                            0 <= b < s.len() && (#[trigger] s[b]).track == t && s[b].container == c;
                        let a = if b < k { b } else { b + 1 };
                        assert(n[a] == s[b]);
                        assert(self.placements_spec()[a] == n[a]);
                    }
                }
                assert(before.placements_spec() == mid.placements_spec());
                assert(before.tracks_spec() == old(self).tracks_spec());
                assert(old(self).has_track(track_id));
                assert forall|t: TrackId, c: ContainerId|
                    #[trigger] self.on_track(t, c) == ((c == id && t == track_id && old(
                        self,
                    ).has_track(track_id)) || (old(self).on_track(t, c) && c != id)) by {
                    assert(before.on_track(t, c) == mid.on_track(t, c));
                    assert(mid.on_track(t, c) == (old(self).on_track(t, c) && c != id));
                }
            }
        } else {
            proof {
                assert forall|t: TrackId, c: ContainerId|
                    #[trigger] self.on_track(t, c) == mid.on_track(t, c) by {
                    if self.on_track(t, c) {
                        let a = choose|a: int|
                            0 <= a < self.placements@.len() && (#[trigger] self.placements@[a]).track == t && self.placements@[a].container == c;
                        assert(mid.placements_spec()[a] == self.placements@[a]);
                    }
                    if mid.on_track(t, c) {
                        let a = choose|a: int|
                            0 <= a < mid.placements@.len() && (#[trigger] mid.placements@[a]).track == t && mid.placements@[a].container == c;
                        assert(self.placements_spec()[a] == mid.placements@[a]);
                    }
                }
                assert(!old(self).has_track(track_id));
                assert forall|t: TrackId, c: ContainerId|
                    #[trigger] self.on_track(t, c) == ((c == id && t == track_id && old(
                        self,
                    ).has_track(track_id)) || (old(self).on_track(t, c) && c != id)) by {
                    assert(mid.on_track(t, c) == (old(self).on_track(t, c) && c != id));
                }
            }
        }
        id
    }

    /// `after` is `before` with container `id` started at `new_position`, placed
    /// on the same tracks as before.
    pub open spec fn moved(before: Timeline, after: Timeline, id: ContainerId, new_position: TimePosition) -> bool {
        &&& exists|i: int|
            0 <= i < before.containers_spec().len() && before.containers_spec()[i].id == id
                && after.containers_spec() == before.containers_spec().update(
                i,
                MediaContainer { position: new_position, ..before.containers_spec()[i] },
            )
        &&& forall|t: TrackId, c: ContainerId|
            #[trigger] after.on_track(t, c) == before.on_track(t, c)
        &&& after.tracks_spec() == before.tracks_spec()
    }

    /// Whether container `id` is placed on `track`, or on any track where `track` is `None`.
    pub open spec fn placed_on(&self, track: Option<TrackId>, id: ContainerId) -> bool {
        match track {
            Some(t) => self.on_track(t, id),
            None => self.placed(id),
        }
    }

    /// Places a stored container that has no placement yet.
    fn place_new(&mut self, p: Placement)
        requires
            old(self).wf(),
            !old(self).placed(p.container),
            old(self).backed(p),
        ensures
            final(self).wf(),
            final(self).containers@ == old(self).containers@,
            final(self).tracks@ == old(self).tracks@,
            final(self).id == old(self).id,
            final(self).name == old(self).name,
            forall|t: TrackId, c: ContainerId|
                #[trigger] final(self).on_track(t, c) == ((c == p.container && t == p.track)
                    || old(self).on_track(t, c)),
    {
        let ghost before = *self;
        self.insert_placement(p);
        proof {
            let s = before.placements@;
            let n = self.placements@;
            let k = choose|k: int| 0 <= k <= s.len() && n == s.insert(k, p);
            assert forall|a: int| 0 <= a < n.len() implies self.backed(#[trigger] n[a]) by {
                if a < k {
                    assert(n[a] == s[a]);
                    assert(before.backed(s[a]));
                } else if a > k {
                    assert(n[a] == s[a - 1]);
                    assert(before.backed(s[a - 1]));
                } else {
                    assert(before.backed(p));
                }
            }
            assert forall|a: int, b: int| 0 <= a < b < n.len() implies n[a].container
                != n[b].container by {
                if a != k && b != k {
                    let a0 = if a < k { a } else { a - 1 };
                    let b0 = if b < k { b } else { b - 1 };
                    assert(n[a] == s[a0]);
                    assert(n[b] == s[b0]);
                } else if a == k {
                    assert(n[b] == s[b - 1]);
                    assert(before.placements_spec()[b - 1] == s[b - 1]);
                } else {
                    assert(n[a] == s[a]);
                    assert(before.placements_spec()[a] == s[a]);
                }
            }
            assert forall|t: TrackId, c: ContainerId|
                #[trigger] self.on_track(t, c) == ((c == p.container && t == p.track)
                    || before.on_track(t, c)) by {
                if self.on_track(t, c) {
                    let a = choose|a: int|
                        0 <= a < n.len() && (#[trigger] n[a]).track == t && n[a].container == c;
                    if a < k {
                        assert(n[a] == s[a]);
                        assert(before.placements_spec()[a] == s[a]);
                    } else if a > k {
                        assert(n[a] == s[a - 1]);
                        assert(before.placements_spec()[a - 1] == s[a - 1]);
                    }
                }
                if c == p.container && t == p.track {
                    assert(self.placements_spec()[k] == n[k]);
                }
                if before.on_track(t, c) {
                    let b = choose|b: int|
                        0 <= b < s.len() && (#[trigger] s[b]).track == t && s[b].container == c;
                    let a = if b < k { b } else { b + 1 };
                    assert(n[a] == s[b]);
                    assert(self.placements_spec()[a] == n[a]);
                }
            }
        }
    }

    /// Moves container `id` to `new_position`, on the track it is placed on.
    /// Returns whether it was placed on a track; if not, nothing changes.
    pub fn move_container(&mut self, id: ContainerId, new_position: TimePosition) -> (r: bool)
        requires
            old(self).wf(),
        ensures
            final(self).wf(),
            r == old(self).placed(id),
            final(self).tracks_spec() == old(self).tracks_spec(),
            !r ==> *final(self) == *old(self),
            r ==> Timeline::moved(*old(self), *final(self), id, new_position),
    {
        match self.find_placement(id) {
            None => {
                proof {
                    if self.placed(id) {
                        let a = choose|a: int|
                            0 <= a < self.placements_spec().len() && (#[trigger] self.placements_spec()[a]).container == id;
                        assert(self.placements@[a].container == id);
                    }
                }
                false
            },
            Some(k) => {
                let track = self.placements[k].track;
                let ghost start = *self;
                proof {
                    assert(self.backed(self.placements@[k as int]));
                    assert(self.placements_spec()[k as int] == self.placements@[k as int]);
                }
                let ci = match self.find_container(id) {
                    Some(ci) => ci,
                    None => {
                        proof {
                            let j = choose|j: int| 0 <= j < self.containers@.len() && (#[trigger] self.containers@[j]).id == id && self.containers@[j].position == self.placements@[k as int].position;
                            assert(self.containers@[j].id != id);
                        }
                        return false;
                    },
                };
                self.unplace(id);
                let ghost mid = *self;
                let c = self.containers[ci];
                let moved = MediaContainer { position: new_position, ..c };
                self.containers.set(ci, moved);
                proof {
                    let cs = mid.containers@;
                    let n = self.containers@;
                    assert(n == cs.update(ci as int, moved));
                    assert forall|a: int, b: int| 0 <= a < b < n.len() implies n[a].id != n[b].id by {
                        assert(n[a].id == cs[a].id);
                        assert(n[b].id == cs[b].id);
                    }
                    assert(self.placements@ == mid.placements@);
                    assert forall|a: int| 0 <= a < self.placements@.len() implies self.backed(
                        #[trigger] self.placements@[a],
                    ) by {
                        let p = self.placements@[a];
                        assert(mid.backed(p));
                        assert(mid.placements_spec()[a] == p);
                        let j = choose|j: int| 0 <= j < cs.len() && (#[trigger] cs[j]).id == p.container
                            && cs[j].position == p.position;
                        assert(j != ci);
                        assert(n[j] == cs[j]);
                    }
                    assert(!self.placed(id)) by {
                        assert forall|a: int| 0 <= a < self.placements_spec().len() implies (
                        #[trigger] self.placements_spec()[a]).container != id by {
                            assert(mid.placements_spec()[a] == self.placements_spec()[a]);
                        }
                    }
                    assert(self.backed(Placement { track, position: new_position, container: id })) by {
                        assert(n[ci as int].id == id);
                    }
                    assert forall|t: TrackId, x: ContainerId|
                        #[trigger] self.on_track(t, x) == mid.on_track(t, x) by {
                        assert(self.placements_spec() == mid.placements_spec());
                    }
                }
                self.place_new(Placement { track, position: new_position, container: id });
                proof {
                    assert(start.on_track(track, id)) by {
                        assert(start.placements_spec()[k as int].track == track);
                    }
                    assert forall|t: TrackId, x: ContainerId|
                        #[trigger] self.on_track(t, x) == start.on_track(t, x) by {
                        if start.on_track(t, x) && x == id {
                            let a = choose|a: int|
                                0 <= a < start.placements_spec().len() && (#[trigger] start.placements_spec()[a]).track == t && start.placements_spec()[a].container == x;
                            assert(start.placements@[a].container == start.placements@[k as int].container);
                            assert(a == k);
                        }
                    }
                    assert(start.containers_spec()[ci as int].id == id);
                    assert(self.containers_spec() == start.containers_spec().update(
                        ci as int,
                        MediaContainer { position: new_position, ..start.containers_spec()[ci as int] },
                    ));
                    assert(start.placed(id)) by {
                        assert(start.placements_spec()[k as int].container == id);
                    }
                }
                true
            },
        }
    }

    /// Sets the length of stored container `id`. Returns whether it is stored.
    pub fn set_container_length(&mut self, id: ContainerId, length: Duration) -> (r: bool)
        requires
            old(self).wf(),
        ensures
            final(self).wf(),
            r == old(self).has_container(id),
            final(self).tracks_spec() == old(self).tracks_spec(),
            final(self).placements_spec() == old(self).placements_spec(),
            !r ==> final(self).containers_spec() == old(self).containers_spec(),
            r ==> exists|i: int|
                0 <= i < old(self).containers_spec().len() && old(self).containers_spec()[i].id == id
                    && final(self).containers_spec() == old(self).containers_spec().update(
                    i,
                    MediaContainer { length, ..old(self).containers_spec()[i] },
                ),
    {
        match self.find_container(id) {
            None => {
                proof {
                    if self.has_container(id) {
                        let a = choose|a: int|
                            0 <= a < self.containers_spec().len() && (#[trigger] self.containers_spec()[a]).id == id;
                        assert(self.containers@[a].id == id);
                    }
                }
                false
            },
            Some(i) => {
                let ghost before = *self;
                let c = self.containers[i];
                self.containers.set(i, MediaContainer { length, ..c });
                proof {
                    let cs = before.containers@;
                    let n = self.containers@;
                    assert forall|a: int, b: int| 0 <= a < b < n.len() implies n[a].id != n[b].id by {
                        assert(n[a].id == cs[a].id);
                        assert(n[b].id == cs[b].id);
                    }
                    assert forall|a: int| 0 <= a < self.placements@.len() implies self.backed(
                        #[trigger] self.placements@[a],
                    ) by {
                        let p = self.placements@[a];
                        assert(before.backed(p));
                        let j = choose|j: int| 0 <= j < cs.len() && (#[trigger] cs[j]).id == p.container
                            && cs[j].position == p.position;
                        assert(n[j].id == cs[j].id && n[j].position == cs[j].position);
                    }
                    assert(before.containers_spec()[i as int] == cs[i as int]);
                    assert(before.has_container(id));
                }
                true
            },
        }
    }

    /// Every stored container placed on `track`, each once, in start order.
    pub fn containers_on_track(&self, track: TrackId) -> (r: Vec<MediaContainer>)
        requires
            self.wf(),
        ensures
            forall|c: MediaContainer|
                #[trigger] r@.contains(c) == (self.containers_spec().contains(c) && self.on_track(track, c.id)),
            forall|a: int, b: int| 0 <= a < b < r@.len() ==> r@[a].id != r@[b].id,
            forall|a: int, b: int|
                0 <= a < b < r@.len() ==> r@[a].position.position_ticks <= r@[b].position.position_ticks,
    {
        let ghost ps = self.placements@;
        let ghost cs = self.containers@;
        let mut r: Vec<MediaContainer> = Vec::new();
        let mut i: usize = 0;
        while i < self.placements.len()
            invariant
                self.wf(),
                ps == self.placements@,
                cs == self.containers@,
                i <= ps.len(),
                forall|c: MediaContainer|
                    #[trigger] r@.contains(c) ==> (cs.contains(c) && self.on_track(track, c.id)),
                forall|a: int, b: int| 0 <= a < b < r@.len() ==> r@[a].id != r@[b].id,
                forall|a: int, b: int|
                    0 <= a < b < r@.len() ==> r@[a].position.position_ticks <= r@[b].position.position_ticks,
                forall|a: int, j: int|
                    0 <= a < r@.len() && i <= j < ps.len() ==> r@[a].position.position_ticks
                        <= ps[j].position.position_ticks,
                forall|a: int| 0 <= a < r@.len() ==> exists|j: int| 0 <= j < i && ps[j].container == (#[trigger] r@[a]).id,
                forall|j: int, k: int|
                    0 <= j < i && 0 <= k < cs.len() && (#[trigger] cs[k]).id == (#[trigger] ps[j]).container
                        && ps[j].track == track ==> r@.contains(cs[k]),
            decreases ps.len() - i,
        {
            let p = self.placements[i];
            if p.track == track {
                match self.find_container(p.container) {
                    Some(k) => {
                        let c = self.containers[k];
                        proof {
                            assert(self.backed(ps[i as int]));
                            let j = choose|j: int| 0 <= j < cs.len() && (#[trigger] cs[j]).id == p.container
                                && cs[j].position == p.position;
                            assert(j == k);
                        }
                        let ghost before = r@;
                        r.push(c);
                        proof {
                            assert(cs.contains(c)) by {
                                assert(cs[k as int] == c);
                            }
                            assert(self.on_track(track, c.id)) by {
                                assert(self.placements_spec()[i as int] == p);
                            }
                            assert forall|x: MediaContainer| #[trigger] r@.contains(x) implies (cs.contains(x)
                                && self.on_track(track, x.id)) by {
                                if x != c {
                                    let w = choose|w: int| 0 <= w < r@.len() && r@[w] == x;
                                    assert(before[w] == x);
                                    assert(before.contains(x));
                                }
                            }
                            assert forall|a: int| 0 <= a < r@.len() implies exists|j: int|
                                0 <= j < i + 1 && ps[j].container == (#[trigger] r@[a]).id by {
                                if a < before.len() {
                                    assert(r@[a] == before[a]);
                                    let j = choose|j: int| 0 <= j < i && ps[j].container == before[a].id;
                                    assert(ps[j].container == r@[a].id);
                                } else {
                                    assert(ps[i as int].container == r@[a].id);
                                }
                            }
                            assert forall|a: int, b: int| 0 <= a < b < r@.len() implies r@[a].id != r@[b].id
                                && r@[a].position.position_ticks <= r@[b].position.position_ticks by {
                                assert(r@[a] == before[a]);
                                if b == before.len() {
                                    let j = choose|j: int| 0 <= j < i && ps[j].container == before[a].id;
                                    assert(ps[j].container != ps[i as int].container);
                                } else {
                                    assert(r@[b] == before[b]);
                                }
                            }
                            assert forall|a: int, j: int|
                                0 <= a < r@.len() && i + 1 <= j < ps.len() implies r@[a].position.position_ticks
                                <= ps[j].position.position_ticks by {
                                if a < before.len() {
                                    assert(r@[a] == before[a]);
                                }
                            }
                            assert forall|j: int, kk: int|
                                0 <= j < i + 1 && 0 <= kk < cs.len() && (#[trigger] cs[kk]).id == (#[trigger] ps[j]).container
                                    && ps[j].track == track implies r@.contains(cs[kk]) by {
                                if j < i {
                                    assert(before.contains(cs[kk]));
                                    let w = choose|w: int| 0 <= w < before.len() && before[w] == cs[kk];
                                    assert(r@[w] == cs[kk]);
                                } else {
                                    assert(kk == k);
                                    assert(r@[before.len() as int] == c);
                                }
                            }
                        }
                    },
                    None => {
                        proof {
                            assert(self.backed(ps[i as int]));
                        }
                    },
                }
            }
            i = i + 1;
        }
        proof {
            assert forall|c: MediaContainer|
                #[trigger] r@.contains(c) == (self.containers_spec().contains(c) && self.on_track(track, c.id)) by {
                if self.containers_spec().contains(c) && self.on_track(track, c.id) {
                    let k = choose|k: int| 0 <= k < cs.len() && cs[k] == c;
                    let j = choose|j: int|
                        0 <= j < ps.len() && (#[trigger] self.placements_spec()[j]).track == track
                            && self.placements_spec()[j].container == c.id;
                    assert(self.placements_spec()[j] == ps[j]);
                }
            }
        }
        r
    }

    /// The stored containers placed as `track` asks that sound in `[start, end)`.
    fn collect_in_range(
        &self,
        track: Option<TrackId>,
        start: &TimePosition,
        end: &TimePosition,
    ) -> (r: Vec<MediaContainer>)
        requires
            self.wf(),
            start.position_ticks <= end.position_ticks,
        ensures
            forall|c: MediaContainer|
                #[trigger] r@.contains(c) == (self.containers_spec().contains(c) && self.placed_on(
                    track,
                    c.id,
                ) && overlaps(
                    c.position.position_ticks as int,
                    c.length.ticks as int,
                    start.position_ticks as int,
                    end.position_ticks as int,
                )),
            forall|a: int, b: int| 0 <= a < b < r@.len() ==> r@[a].id != r@[b].id,
    {
        let ghost lo = start.position_ticks as int;
        let ghost hi = end.position_ticks as int;
        let ghost ps = self.placements@;
        let ghost cs = self.containers@;
        let mut r: Vec<MediaContainer> = Vec::new();
        let mut i: usize = 0;
        while i < self.placements.len()
            && self.placements[i].position.position_ticks < end.position_ticks
            invariant
                self.wf(),
                ps == self.placements@,
                cs == self.containers@,
                lo == start.position_ticks,
                hi == end.position_ticks,
                lo <= hi,
                i <= ps.len(),
                forall|c: MediaContainer|
                    #[trigger] r@.contains(c) ==> (cs.contains(c) && self.placed_on(track, c.id)
                        && overlaps(c.position.position_ticks as int, c.length.ticks as int, lo, hi)),
                forall|a: int, b: int| 0 <= a < b < r@.len() ==> r@[a].id != r@[b].id,
                forall|a: int| 0 <= a < r@.len() ==> exists|j: int| 0 <= j < i && ps[j].container == (#[trigger] r@[a]).id,
                forall|j: int, k: int|
                    0 <= j < i && 0 <= k < cs.len() && (#[trigger] cs[k]).id == (#[trigger] ps[j]).container
                        && match track {
                        Some(t) => ps[j].track == t,
                        None => true,
                    } && overlaps(cs[k].position.position_ticks as int, cs[k].length.ticks as int, lo, hi)
                        ==> r@.contains(cs[k]),
            decreases ps.len() - i,
        {
            let p = self.placements[i];
            let wanted = match track {
                Some(t) => p.track == t,
                None => true,
            };
            if wanted {
                match self.find_container(p.container) {
                    Some(k) => {
                        let c = self.containers[k];
                        proof {
                            assert(self.backed(ps[i as int]));
                            let j = choose|j: int| 0 <= j < cs.len() && (#[trigger] cs[j]).id == p.container
                                && cs[j].position == p.position;
                            assert(j == k);
                        }
                        if c.position.position_ticks >= start.position_ticks
                            || c.length.ticks > start.position_ticks - c.position.position_ticks {
                            let ghost before = r@;
                            r.push(c);
                            proof {
                                assert(cs.contains(c)) by {
                                    assert(cs[k as int] == c);
                                }
                                assert(self.placed_on(track, c.id)) by {
                                    assert(self.placements_spec()[i as int] == p);
                                }
                                assert forall|x: MediaContainer| #[trigger] r@.contains(x) implies (cs.contains(x)
                                    && self.placed_on(track, x.id) && overlaps(
                                    x.position.position_ticks as int,
                                    x.length.ticks as int,
                                    lo,
                                    hi,
                                )) by {
                                    if x != c {
                                        let w = choose|w: int| 0 <= w < r@.len() && r@[w] == x;
                                        assert(before[w] == x);
                                        assert(before.contains(x));
                                    }
                                }
                                assert forall|a: int| 0 <= a < r@.len() implies exists|j: int|
                                    0 <= j < i + 1 && ps[j].container == (#[trigger] r@[a]).id by {
                                    if a < before.len() {
                                        assert(r@[a] == before[a]);
                                        let j = choose|j: int| 0 <= j < i && ps[j].container == before[a].id;
                                        assert(ps[j].container == r@[a].id);
                                    } else {
                                        assert(ps[i as int].container == r@[a].id);
                                    }
                                }
                                assert forall|a: int, b: int| 0 <= a < b < r@.len() implies r@[a].id != r@[b].id by {
                                    if b == before.len() {
                                        assert(r@[a] == before[a]);
                                        let j = choose|j: int| 0 <= j < i && ps[j].container == before[a].id;
                                        assert(ps[j].container != ps[i as int].container);
                                    } else {
                                        assert(r@[a] == before[a]);
                                        assert(r@[b] == before[b]);
                                    }
                                }
                                assert forall|j: int, kk: int|
                                    0 <= j < i + 1 && 0 <= kk < cs.len() && (#[trigger] cs[kk]).id == (#[trigger] ps[j]).container
                                        && match track {
                                        Some(t) => ps[j].track == t,
                                        None => true,
                                    } && overlaps(cs[kk].position.position_ticks as int, cs[kk].length.ticks as int, lo, hi)
                                    implies r@.contains(cs[kk]) by {
                                    if j < i {
                                        assert(before.contains(cs[kk]));
                                        let w = choose|w: int| 0 <= w < before.len() && before[w] == cs[kk];
                                        assert(r@[w] == cs[kk]);
                                    } else {
                                        assert(kk == k);
                                        assert(r@[before.len() as int] == c);
                                    }
                                }
                            }
                        } else {
                            proof {
                                assert forall|j: int, kk: int|
                                    0 <= j < i + 1 && 0 <= kk < cs.len() && (#[trigger] cs[kk]).id == (#[trigger] ps[j]).container
                                        && match track {
                                        Some(t) => ps[j].track == t,
                                        None => true,
                                    } && overlaps(cs[kk].position.position_ticks as int, cs[kk].length.ticks as int, lo, hi)
                                    implies r@.contains(cs[kk]) by {
                                    if j == i {
                                        assert(kk == k);
                                    }
                                }
                            }
                        }
                    },
                    None => {
                        proof {
                            assert(self.backed(ps[i as int]));
                        }
                    },
                }
            }
            i = i + 1;
        }
        proof {
            assert forall|c: MediaContainer|
                #[trigger] r@.contains(c) == (self.containers_spec().contains(c) && self.placed_on(
                    track,
                    c.id,
                ) && overlaps(c.position.position_ticks as int, c.length.ticks as int, lo, hi)) by {
                if self.containers_spec().contains(c) && self.placed_on(track, c.id) && overlaps(
                    c.position.position_ticks as int,
                    c.length.ticks as int,
                    lo,
                    hi,
                ) {
                    let k = choose|k: int| 0 <= k < cs.len() && cs[k] == c;
                    let j = choose|j: int|
                        0 <= j < ps.len() && (#[trigger] self.placements_spec()[j]).container == c.id
                            && match track {
                            Some(t) => self.placements_spec()[j].track == t,
                            None => true,
                        };
                    assert(self.placements_spec()[j] == ps[j]);
                    if j >= i {
                        assert(ps[j].position.position_ticks >= hi);
                        assert(self.backed(ps[j]));
                        let k2 = choose|k2: int| 0 <= k2 < cs.len() && (#[trigger] cs[k2]).id == ps[j].container
                            && cs[k2].position == ps[j].position;
                        assert(k2 == k);
                    }
                }
            }
        }
        r
    }

    /// The containers placed on `track_id` that sound in `[start, end)`: those
    /// that start inside the window, and those that start before it and last
    /// past `start`. Each is reported once.
    pub fn track_containers_in_range(
        &self,
        track_id: TrackId,
        start: &TimePosition,
        end: &TimePosition,
    ) -> (r: Vec<MediaContainer>)
        requires
            self.wf(),
            start.position_ticks <= end.position_ticks,
        ensures
            forall|c: MediaContainer|
                #[trigger] r@.contains(c) == self.reports(
                    track_id,
                    c,
                    start.position_ticks as int,
                    end.position_ticks as int,
                ),
            forall|a: int, b: int| 0 <= a < b < r@.len() ==> r@[a].id != r@[b].id,
    {
        self.collect_in_range(Some(track_id), start, end)
    }

    /// The containers of every track that sound in `[start, end)`, each once.
    pub fn containers_in_range(&self, start: &TimePosition, end: &TimePosition) -> (r: Vec<
        MediaContainer,
    >)
        requires
            self.wf(),
            start.position_ticks <= end.position_ticks,
        ensures
            forall|c: MediaContainer|
                #[trigger] r@.contains(c) == self.reports_any(
                    c,
                    start.position_ticks as int,
                    end.position_ticks as int,
                ),
            forall|a: int, b: int| 0 <= a < b < r@.len() ==> r@[a].id != r@[b].id,
    {
        self.collect_in_range(None, start, end)
    }

    /// Adds a track. A track already added under the same identity loses its placements.
    pub fn add_track(&mut self, track: Track) -> (r: TrackId)
        requires
            old(self).wf(),
        ensures
            final(self).wf(),
            r == track.id,
            final(self).tracks_spec() == old(self).tracks_spec().push(track),
            final(self).containers_spec() == old(self).containers_spec(),
            forall|t: TrackId, c: ContainerId|
                #[trigger] final(self).on_track(t, c) == (old(self).on_track(t, c) && t != track.id),
    {
        let id = track.id;
        let ghost s = self.placements@;
        let mut kept: Vec<Placement> = Vec::new();
        let mut i: usize = 0;
        while i < self.placements.len()
            invariant
                self.wf(),
                self.placements@ == s,
                i <= s.len(),
                forall|a: int, b: int|
                    0 <= a < b < kept@.len() ==> kept@[a].position.position_ticks
                        <= kept@[b].position.position_ticks,
                forall|a: int, b: int|
                    0 <= a < kept@.len() && i <= b < s.len() ==> kept@[a].position.position_ticks
                        <= s[b].position.position_ticks,
                forall|a: int| 0 <= a < kept@.len() ==> kept_from(s, #[trigger] kept@[a], id),
                forall|b: int| 0 <= b < i && s[b].track != id ==> kept@.contains(#[trigger] s[b]),
                forall|a: int, b: int|
                    0 <= a < b < kept@.len() ==> kept@[a].container != kept@[b].container,
                forall|a: int, b: int|
                    0 <= a < kept@.len() && i <= b < s.len() ==> kept@[a].container != s[b].container,
            decreases s.len() - i,
        {
            let p = self.placements[i];
            if p.track != id {
                let ghost before = kept@;
                kept.push(p);
                proof {
                    assert forall|a: int| 0 <= a < kept@.len() implies kept_from(
                        s,
                        #[trigger] kept@[a],
                        id,
                    ) by {
                        if a < before.len() {
                            assert(kept@[a] == before[a]);
                        } else {
                            assert(s[i as int] == kept@[a]);
                        }
                    }
                    assert forall|b: int|
                        0 <= b < i + 1 && s[b].track != id implies kept@.contains(#[trigger] s[b]) by {
                        if b < i {
                            assert(before.contains(s[b]));
                            let w = choose|w: int| 0 <= w < before.len() && before[w] == s[b];
                            assert(kept@[w] == s[b]);
                        } else {
                            assert(kept@[before.len() as int] == s[b]);
                        }
                    }
                    assert forall|a: int, b: int|
                        0 <= a < kept@.len() && i + 1 <= b < s.len() implies kept@[a].container
                        != s[b].container by {
                        if a < before.len() {
                            assert(kept@[a] == before[a]);
                        }
                    }
                }
            }
            i = i + 1;
        }
        self.placements = kept;
        self.tracks.push(track);
        proof {
            let n = self.placements@;
            assert forall|a: int| 0 <= a < n.len() implies self.backed(#[trigger] n[a]) by {
                assert(kept_from(s, n[a], id));
                let b = choose|b: int| 0 <= b < s.len() && s[b] == n[a] && n[a].track != id;
                assert(old(self).backed(s[b]));
            }
            assert forall|t: TrackId, c: ContainerId|
                #[trigger] self.on_track(t, c) == (old(self).on_track(t, c) && t != id) by {
                if self.on_track(t, c) {
                    let a = choose|a: int|
                        0 <= a < n.len() && (#[trigger] n[a]).track == t && n[a].container == c;
                    assert(kept_from(s, n[a], id));
                    let b = choose|b: int| 0 <= b < s.len() && s[b] == n[a] && n[a].track != id;
                    assert(old(self).placements_spec()[b] == s[b]);
                }
                if old(self).on_track(t, c) && t != id {
                    let b = choose|b: int|
                        0 <= b < s.len() && (#[trigger] s[b]).track == t && s[b].container == c;
                    assert(n.contains(s[b]));
                    let a = choose|a: int| 0 <= a < n.len() && n[a] == s[b];
                    assert(self.placements_spec()[a] == n[a]);
                }
            }
        }
        id
    }
}

/// A query of a track over `[start, end)` reports a container placed on it that
/// starts before `start` exactly when the container lasts past `start`; it never
/// reports one that starts at `end`; it always reports one that starts at `start`
/// when the window is not empty.
pub proof fn lemma_range_bounds(tl: &Timeline, track: TrackId, c: MediaContainer, start: int, end: int)
    requires
        tl.containers_spec().contains(c),
        tl.on_track(track, c.id),
        start <= end,
    ensures
        c.position.position_ticks < start ==> (tl.reports(track, c, start, end) <==> c.position.position_ticks
            + c.length.ticks > start),
        c.position.position_ticks == end ==> !tl.reports(track, c, start, end),
        c.position.position_ticks == start && start < end ==> tl.reports(track, c, start, end),
{
}

/// After `move_container` relocates a container, the container with that
/// identity starts at its new position; a query over a window that its
/// new span does not reach (one that ends by its new start, or starts after the
/// container has ended) no longer reports it, and a query at its new start does.
pub proof fn lemma_move_relocates(
    before: &Timeline,
    after: &Timeline,
    track: TrackId,
    id: ContainerId,
    new_position: TimePosition,
    start: int,
    end: int,
)
    requires
        after.wf(),
        before.on_track(track, id),
        Timeline::moved(*before, *after, id, new_position),
        start <= end,
    ensures
        exists|c: MediaContainer|
            #[trigger] after.containers_spec().contains(c) && c.id == id && c.position == new_position,
        forall|c: MediaContainer|
            #[trigger] after.containers_spec().contains(c) && c.id == id ==> c.position == new_position,
        forall|c: MediaContainer|
            #[trigger] after.containers_spec().contains(c) && c.id == id
                && new_position.position_ticks < u64::MAX ==> after.reports(
                track,
                c,
                new_position.position_ticks as int,
                new_position.position_ticks + 1,
            ),
        forall|c: MediaContainer|
            #[trigger] after.containers_spec().contains(c) && c.id == id
                && (end <= new_position.position_ticks || (new_position.position_ticks < start
                && new_position.position_ticks + c.length.ticks <= start)) ==> !after.reports(
                track,
                c,
                start,
                end,
            ),
{
    let i = choose|i: int|
        0 <= i < before.containers_spec().len() && before.containers_spec()[i].id == id
            && after.containers_spec() == before.containers_spec().update(
            i,
            MediaContainer { position: new_position, ..before.containers_spec()[i] },
        );
    assert(after.containers_spec()[i].id == id);
    assert(after.containers_spec()[i].position == new_position);
    assert(after.containers_spec().contains(after.containers_spec()[i]));
    assert(after.on_track(track, id));
    after.lemma_wf();
    assert forall|c: MediaContainer|
        #[trigger] after.containers_spec().contains(c) && c.id == id implies c.position == new_position by {
        let k = choose|k: int| 0 <= k < after.containers_spec().len() && after.containers_spec()[k] == c;
        if k < i {
            assert(after.containers_spec()[k].id != after.containers_spec()[i].id);
        } else if i < k {
            assert(after.containers_spec()[i].id != after.containers_spec()[k].id);
        }
    }
}

} // verus!
