//! Identities of the things a project holds: 128-bit values, fresh ones drawn at random.
use vstd::prelude::*;

verus! {

/// Relies on uuid::Uuid::new_v4 and Uuid::as_u128: a random version-4 identifier,
/// read as its 128-bit value. Nothing is promised of the value.
#[verifier::external_body]
fn random_id() -> (r: u128) {
    uuid::Uuid::new_v4().as_u128()
}

/// Identity of a media container.
#[derive(Clone, Copy, Debug, PartialEq, Eq, Structural, Hash)]
pub struct ContainerId(pub u128);

impl ContainerId {
    /// A fresh random identity.
    pub fn new() -> ContainerId {
        ContainerId(random_id())
    }
}

/// Identity of a pattern.
#[derive(Clone, Copy, Debug, PartialEq, Eq, Structural, Hash)]
pub struct PatternId(pub u128);

impl PatternId {
    /// A fresh random identity.
    pub fn new() -> PatternId {
        PatternId(random_id())
    }
}

/// Identity of a MIDI clip.
#[derive(Clone, Copy, Debug, PartialEq, Eq, Structural, Hash)]
pub struct MidiClipId(pub u128);

impl MidiClipId {
    /// A fresh random identity.
    pub fn new() -> MidiClipId {
        MidiClipId(random_id())
    }
}

/// Identity of an audio file.
#[derive(Clone, Copy, Debug, PartialEq, Eq, Structural, Hash)]
pub struct AudioFileId(pub u128);

impl AudioFileId {
    /// A fresh random identity.
    pub fn new() -> AudioFileId {
        AudioFileId(random_id())
    }
}

/// Identity of a track.
#[derive(Clone, Copy, Debug, PartialEq, Eq, Structural, Hash)]
pub struct TrackId(pub u128);

impl TrackId {
    /// A fresh random identity.
    pub fn new() -> TrackId {
        TrackId(random_id())
    }
}

/// Identity of a timeline.
#[derive(Clone, Copy, Debug, PartialEq, Eq, Structural, Hash)]
pub struct TimelineId(pub u128);

impl TimelineId {
    /// A fresh random identity.
    pub fn new() -> TimelineId {
        TimelineId(random_id())
    }
}

/// Identity of an output endpoint.
#[derive(Clone, Copy, Debug, PartialEq, Eq, Structural, Hash)]
pub struct EndpointId(pub u128);

impl EndpointId {
    /// A fresh random identity.
    pub fn new() -> EndpointId {
        EndpointId(random_id())
    }
}

/// Identity of a project.
#[derive(Clone, Copy, Debug, PartialEq, Eq, Structural, Hash)]
pub struct ProjectId(pub u128);

impl ProjectId {
    /// A fresh random identity.
    pub fn new() -> ProjectId {
        ProjectId(random_id())
    }
}

} // verus!
