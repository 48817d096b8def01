//! Configuration of output endpoints.
use crate::ids::EndpointId;
use vstd::prelude::*;

verus! {

/// The kind of an output endpoint.
#[derive(Clone, Copy, Debug, PartialEq, Eq, Structural)]
pub enum EndpointType {
    Midi,
    Audio,
    Vst,
}

/// Parameters that depend on the kind of endpoint.
#[derive(Clone, Debug)]
pub enum EndpointParameters {
    Midi {
        /// MIDI channel (0-15); `None` for every channel.
        channel: Option<u8>,
    },
    Audio {
        /// Volume in thousandths (0 to 1000).
        volume_milli: u16,
        /// Pan in thousandths (-1000 for left to 1000 for right).
        pan_milli: i16,
    },
    Vst {
        /// Path of the plugin.
        plugin_path: String,
        /// The plugin's saved state, if any.
        plugin_state: Option<Vec<u8>>,
    },
}

/// How an output endpoint is to be set up.
#[derive(Clone, Debug)]
pub struct EndpointConfig {
    pub id: EndpointId,
    /// Name shown to the user.
    pub name: String,
    pub endpoint_type: EndpointType,
    /// The system's device identifier; for MIDI `"<port index>:<port name>"`.
    pub device_id: String,
    pub enabled: bool,
    pub parameters: EndpointParameters,
}

impl EndpointConfig {
    /// A MIDI endpoint on every channel, with a fresh identity.
    pub fn new_midi(name: String, device_id: String) -> (r: EndpointConfig)
        ensures
            r.name@ == name@,
            r.device_id@ == device_id@,
            r.endpoint_type == EndpointType::Midi,
            r.enabled,
            r.parameters matches EndpointParameters::Midi { channel: None },
    {
        EndpointConfig {
            id: EndpointId::new(),
            name,
            endpoint_type: EndpointType::Midi,
            device_id,
            enabled: true,
            parameters: EndpointParameters::Midi { channel: None },
        }
    }

    /// An audio endpoint at full volume, centred, with a fresh identity.
    pub fn new_audio(name: String, device_id: String) -> (r: EndpointConfig)
        ensures
            r.name@ == name@,
            r.device_id@ == device_id@,
            r.endpoint_type == EndpointType::Audio,
            r.enabled,
            r.parameters matches EndpointParameters::Audio { volume_milli: 1000, pan_milli: 0 },
    {
        EndpointConfig {
            id: EndpointId::new(),
            name,
            endpoint_type: EndpointType::Audio,
            device_id,
            enabled: true,
            parameters: EndpointParameters::Audio { volume_milli: 1000, pan_milli: 0 },
        }
    }

    /// A plugin endpoint, identified by its path, with a fresh identity.
    pub fn new_vst(name: String, plugin_path: String) -> (r: EndpointConfig)
        ensures
            r.name@ == name@,
            r.device_id@ == plugin_path@,
            r.endpoint_type == EndpointType::Vst,
            r.enabled,
            r.parameters matches EndpointParameters::Vst { plugin_path: p, plugin_state: None }
                && p@ == plugin_path@,
    {
        let device_id = plugin_path.clone();
        EndpointConfig {
            id: EndpointId::new(),
            name,
            endpoint_type: EndpointType::Vst,
            device_id,
            enabled: true,
            parameters: EndpointParameters::Vst { plugin_path, plugin_state: None },
        }
    }
}

} // verus!
