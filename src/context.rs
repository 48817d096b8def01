//! A position in time together with a shared tempo map.
use crate::tempo_map::TempoMap;
use crate::time::TimePosition;
use std::sync::Arc;
use vstd::prelude::*;

verus! {

/// A current position and the tempo map it is read against; copies made with
/// `clone_with_new_position` share one map.
pub struct TimeContext {
    tempo_map: Arc<TempoMap>,
    current_position: TimePosition,
}

impl TimeContext {
    /// The tempo map.
    pub closed spec fn map_spec(&self) -> TempoMap {
        *self.tempo_map
    }

    /// The current position.
    pub closed spec fn position_spec(&self) -> TimePosition {
        self.current_position
    }

    /// A context at zero over `tempo_map`.
    pub fn new(tempo_map: TempoMap) -> (r: TimeContext)
        ensures
            r.map_spec() == tempo_map,
            r.position_spec().position_ticks == 0,
    {
        TimeContext { tempo_map: Arc::new(tempo_map), current_position: TimePosition::zero() }
    }

    pub fn set_position(&mut self, position: TimePosition)
        ensures
            final(self).position_spec() == position,
            final(self).map_spec() == old(self).map_spec(),
    {
        self.current_position = position;
    }

    pub fn position(&self) -> (r: TimePosition)
        ensures
            r == self.position_spec(),
    {
        self.current_position
    }

    pub fn tempo_map(&self) -> (r: &TempoMap)
        ensures
            *r == self.map_spec(),
    {
        &self.tempo_map
    }

    /// A context at `position` sharing this context's tempo map.
    pub fn clone_with_new_position(&self, position: TimePosition) -> (r: TimeContext)
        ensures
            r.map_spec() == self.map_spec(),
            r.position_spec() == position,
    {
        TimeContext { tempo_map: Arc::clone(&self.tempo_map), current_position: position }
    }
}

} // verus!
