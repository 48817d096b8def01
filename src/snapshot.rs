//! Read-only projections of a timeline and of endpoint configurations, for a
//! user interface.
use crate::endpoint::{EndpointConfig, EndpointType};
use crate::ids::{ContainerId, EndpointId, TimelineId, TrackId};
use crate::time::{Duration, TimePosition};
use crate::timeline::{
    content_kind, Color, ContainerContentType, MediaContainer, PlaybackMode, Timeline, Track,
};
use vstd::prelude::*;

verus! {

/// What a user interface shows of a track.
#[derive(Clone, Debug)]
pub struct TrackSnapshot {
    pub id: TrackId,
    pub name: String,
    pub color: Color,
    pub is_muted: bool,
    pub is_solo: bool,
    pub output_id: Option<EndpointId>,
    pub height: u32,
}

/// `s` shows track `t`.
pub open spec fn shows_track(s: TrackSnapshot, t: Track) -> bool {
    &&& s.id == t.id
    &&& s.name@ == t.name@
    &&& s.color == t.color
    &&& s.is_muted == t.is_muted
    &&& s.is_solo == t.is_solo
    &&& s.output_id == t.output_id
    &&& s.height == t.height
}

impl TrackSnapshot {
    pub fn from(track: &Track) -> (r: TrackSnapshot)
        ensures
            shows_track(r, *track),
    {
        TrackSnapshot {
            id: track.id,
            name: track.name.clone(),
            color: track.color,
            is_muted: track.is_muted,
            is_solo: track.is_solo,
            output_id: track.output_id,
            height: track.height,
        }
    }
}

/// What a user interface shows of a container.
#[derive(Clone, Copy, Debug, PartialEq, Eq, Structural)]
pub struct ContainerSnapshot {
    pub id: ContainerId,
    pub position: TimePosition,
    pub length: Duration,
    pub content_type: ContainerContentType,
    pub is_looping: bool,
}

/// The snapshot of container `c`.
pub open spec fn container_snapshot(c: MediaContainer) -> ContainerSnapshot {
    ContainerSnapshot {
        id: c.id,
        position: c.position,
        length: c.length,
        content_type: content_kind(c.content),
        is_looping: c.playback_mode == PlaybackMode::Loop,
    }
}

impl ContainerSnapshot {
    pub fn from(container: &MediaContainer) -> (r: ContainerSnapshot)
        ensures
            r == container_snapshot(*container),
    {
        ContainerSnapshot {
            id: container.id,
            position: container.position,
            length: container.length,
            content_type: container.content.content_type(),
            is_looping: container.playback_mode == PlaybackMode::Loop,
        }
    }
}

/// What a user interface shows of a timeline.
#[derive(Clone, Debug)]
pub struct TimelineSnapshot {
    pub id: TimelineId,
    pub name: String,
    /// The tracks, in timeline order.
    pub tracks: Vec<TrackSnapshot>,
    /// For each track, in the same order, its containers in start order.
    pub containers: Vec<(TrackId, Vec<ContainerSnapshot>)>,
    /// Where playback stands, while it plays.
    pub playback_position: Option<TimePosition>,
}

impl TimelineSnapshot {
    /// The snapshot of `timeline`: every track, and for each track the
    /// containers placed on it, in start order.
    pub fn from_timeline(timeline: &Timeline, playback_position: Option<TimePosition>) -> (r:
        TimelineSnapshot)
        requires
            timeline.wf(),
        ensures
            r.id == timeline.id_spec(),
            r.name@ == timeline.name_spec(),
            r.playback_position == playback_position,
            r.tracks@.len() == timeline.tracks_spec().len(),
            r.containers@.len() == timeline.tracks_spec().len(),
            forall|i: int|
                0 <= i < r.tracks@.len() ==> shows_track(
                    #[trigger] r.tracks@[i],
                    timeline.tracks_spec()[i],
                ),
            forall|i: int|
                0 <= i < r.containers@.len() ==> (#[trigger] r.containers@[i]).0
                    == timeline.tracks_spec()[i].id,
            forall|i: int, s: ContainerSnapshot|
                0 <= i < r.containers@.len() ==> (#[trigger] r.containers@[i].1@.contains(s) <==> exists|
                    c: MediaContainer,
                |
                    #[trigger] timeline.containers_spec().contains(c) && timeline.on_track(
                        timeline.tracks_spec()[i].id,
                        c.id,
                    ) && s == container_snapshot(c)),
            forall|i: int, a: int, b: int|
                0 <= i < r.containers@.len() && 0 <= a < b < r.containers@[i].1@.len() ==> (
                #[trigger] r.containers@[i].1@[a]).position.position_ticks <= (
                #[trigger] r.containers@[i].1@[b]).position.position_ticks,
    {
        let tracks_in = timeline.tracks();
        let mut tracks: Vec<TrackSnapshot> = Vec::new();
        let mut containers: Vec<(TrackId, Vec<ContainerSnapshot>)> = Vec::new();
        let mut i: usize = 0;
        while i < tracks_in.len()
            invariant
                timeline.wf(),
                tracks_in@ == timeline.tracks_spec(),
                i <= tracks_in@.len(),
                tracks@.len() == i,
                containers@.len() == i,
                forall|k: int| 0 <= k < i ==> shows_track(#[trigger] tracks@[k], tracks_in@[k]),
                forall|k: int| 0 <= k < i ==> (#[trigger] containers@[k]).0 == tracks_in@[k].id,
                forall|k: int, s: ContainerSnapshot|
                    0 <= k < i ==> (#[trigger] containers@[k].1@.contains(s) <==> exists|c: MediaContainer|
                        #[trigger] timeline.containers_spec().contains(c) && timeline.on_track(
                            tracks_in@[k].id,
                            c.id,
                        ) && s == container_snapshot(c)),
                forall|k: int, a: int, b: int|
                    0 <= k < i && 0 <= a < b < containers@[k].1@.len() ==> (
                    #[trigger] containers@[k].1@[a]).position.position_ticks <= (
                    #[trigger] containers@[k].1@[b]).position.position_ticks,
            decreases tracks_in@.len() - i,
        {
            let track = &tracks_in[i];
            let on_track = timeline.containers_on_track(track.id);
            let mut shown: Vec<ContainerSnapshot> = Vec::new();
            let mut j: usize = 0;
            while j < on_track.len()
                invariant
                    j <= on_track@.len(),
                    shown@.len() == j,
                    forall|a: int| 0 <= a < j ==> #[trigger] shown@[a] == container_snapshot(on_track@[a]),
                decreases on_track@.len() - j,
            {
                shown.push(ContainerSnapshot::from(&on_track[j]));
                j = j + 1;
            }
            proof {
                assert forall|s: ContainerSnapshot| #[trigger] shown@.contains(s) <==> exists|c: MediaContainer|
                    #[trigger] timeline.containers_spec().contains(c) && timeline.on_track(track.id, c.id)
                        && s == container_snapshot(c) by {
                    if shown@.contains(s) {
                        let a = choose|a: int| 0 <= a < shown@.len() && shown@[a] == s;
                        assert(on_track@.contains(on_track@[a]));
                    }
                    if exists|c: MediaContainer|
                        #[trigger] timeline.containers_spec().contains(c) && timeline.on_track(track.id, c.id)
                            && s == container_snapshot(c) {
                        let c = choose|c: MediaContainer|
                            #[trigger] timeline.containers_spec().contains(c) && timeline.on_track(track.id, c.id)
                                && s == container_snapshot(c);
                        assert(on_track@.contains(c));
                        let a = choose|a: int| 0 <= a < on_track@.len() && on_track@[a] == c;
                        assert(shown@[a] == s);
                    }
                }
            }
            let ghost prev_tracks = tracks@;
            let ghost prev_containers = containers@;
            tracks.push(TrackSnapshot::from(track));
            containers.push((track.id, shown));
            proof {
                assert forall|k: int| 0 <= k < i + 1 implies shows_track(#[trigger] tracks@[k], tracks_in@[k]) by {
                    if k < i {
                        assert(tracks@[k] == prev_tracks[k]);
                    }
                }
                assert forall|k: int| 0 <= k < i + 1 implies (#[trigger] containers@[k]).0 == tracks_in@[k].id by {
                    if k < i {
                        assert(containers@[k] == prev_containers[k]);
                    }
                }
                assert forall|k: int, s: ContainerSnapshot|
                    0 <= k < i + 1 implies (#[trigger] containers@[k].1@.contains(s) <==> exists|c: MediaContainer|
                        #[trigger] timeline.containers_spec().contains(c) && timeline.on_track(
                            tracks_in@[k].id,
                            c.id,
                        ) && s == container_snapshot(c)) by {
                    if k < i {
                        assert(containers@[k] == prev_containers[k]);
                    }
                }
                assert forall|k: int, a: int, b: int|
                    0 <= k < i + 1 && 0 <= a < b < containers@[k].1@.len() implies (
                    #[trigger] containers@[k].1@[a]).position.position_ticks <= (
                    #[trigger] containers@[k].1@[b]).position.position_ticks by {
                    if k < i {
                        assert(containers@[k] == prev_containers[k]);
                    } else {
                        assert(shown@[a] == container_snapshot(on_track@[a]));
                        assert(shown@[b] == container_snapshot(on_track@[b]));
                    }
                }
            }
            i = i + 1;
        }
        TimelineSnapshot {
            id: timeline.id(),
            name: timeline.name().clone(),
            tracks,
            containers,
            playback_position,
        }
    }
}

/// What a user interface shows of an endpoint configuration.
#[derive(Clone, Debug)]
pub struct EndpointSnapshot {
    pub id: EndpointId,
    pub name: String,
    pub device_id: String,
    pub endpoint_type: EndpointType,
    pub enabled: bool,
}

impl EndpointSnapshot {
    pub fn from(config: &EndpointConfig) -> (r: EndpointSnapshot)
        ensures
            r.id == config.id,
            r.name@ == config.name@,
            r.device_id@ == config.device_id@,
            r.endpoint_type == config.endpoint_type,
            r.enabled == config.enabled,
    {
        EndpointSnapshot {
            id: config.id,
            name: config.name.clone(),
            device_id: config.device_id.clone(),
            endpoint_type: config.endpoint_type,
            enabled: config.enabled,
        }
    }
}

/// What a user interface shows of a project.
#[derive(Clone, Debug)]
pub struct ProjectSnapshot {
    pub name: String,
    pub active_timeline: Option<TimelineSnapshot>,
    pub endpoints: Vec<EndpointSnapshot>,
}

} // verus!
