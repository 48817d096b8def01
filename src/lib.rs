//! Timing and scheduling core of a multi-track sequencer.
pub mod context;
pub mod endpoint;
pub mod event;
pub mod ids;
pub mod output;
pub mod playback;
pub mod project;
pub mod scheduler;
pub mod snapshot;
pub mod tempo;
pub mod tempo_map;
pub mod time;
pub mod timeline;

pub use ids::{
    AudioFileId, ContainerId, EndpointId, MidiClipId, PatternId, ProjectId, TimelineId, TrackId,
};
pub use tempo::{NoteValue, Tempo, TimeSignature};
pub use tempo_map::{Change, TempoMap};
pub use time::{Beats, Duration, Seconds, TimePosition, TimeScale};
pub use timeline::{
    Color, ContainerContentType, MediaContainer, MediaContent, Placement, PlaybackMode, Timeline, Track, TrackType,
};
pub use event::{MidiMessage, OutputEvent, OutputEventType};
pub use endpoint::{EndpointConfig, EndpointParameters, EndpointType};
pub use output::{Dispatch, MidiOutputEndpoint, OutputError, OutputSystem};
pub use scheduler::EventScheduler;
pub use playback::{ClockSourceType, PlaybackEngine, PlaybackStep};
pub use project::{Project, ProjectSettings};
pub use context::TimeContext;
pub use snapshot::{ContainerSnapshot, EndpointSnapshot, ProjectSnapshot, TimelineSnapshot, TrackSnapshot};
