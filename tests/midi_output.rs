use loom::event::midi_message;
use loom::{
    EndpointConfig, EndpointId, EndpointParameters, EndpointType, MidiMessage, MidiOutputEndpoint,
    OutputError, OutputEvent, OutputEventType, OutputSystem,
};

fn bytes(e: OutputEventType) -> Vec<u8> {
    midi_message(&e).unwrap().to_bytes()
}

#[test]
fn note_on_encodes_status_note_velocity() {
    let e = OutputEvent::midi_note_on(0, 60, 100, None);
    assert_eq!(bytes(e.event_type), vec![0x90, 60, 100]);
    assert_eq!(bytes(OutputEvent::midi_note_on(5, 61, 1, None).event_type), vec![0x95, 61, 1]);
}

#[test]
fn pitch_bend_centre_is_8192() {
    let e = OutputEvent::midi_pitch_bend(0, 0, None);
    assert_eq!(bytes(e.event_type), vec![0xE0, 0x00, 0x40]);
    assert_eq!(bytes(OutputEventType::MidiPitchBend { channel: 1, value: -8192 }), vec![0xE1, 0x00, 0x00]);
    assert_eq!(bytes(OutputEventType::MidiPitchBend { channel: 1, value: 8191 }), vec![0xE1, 0x7F, 0x7F]);
    assert_eq!(bytes(OutputEventType::MidiPitchBend { channel: 0, value: 1 }), vec![0xE0, 0x01, 0x40]);
}

#[test]
fn every_midi_kind_encodes() {
    assert_eq!(bytes(OutputEvent::midi_note_off(3, 64, None).event_type), vec![0x83, 64, 0]);
    assert_eq!(bytes(OutputEvent::midi_cc(2, 7, 127, None).event_type), vec![0xB2, 7, 127]);
    assert_eq!(bytes(OutputEventType::MidiProgramChange { channel: 9, program: 12 }), vec![0xC9, 12]);
    assert_eq!(bytes(OutputEventType::MidiAftertouch { channel: 15, pressure: 80 }), vec![0xDF, 80]);
    assert_eq!(bytes(OutputEventType::MidiPolyAftertouch { channel: 4, note: 70, pressure: 20 }), vec![0xA4, 70, 20]);
    // the channel goes into the low nibble only
    assert_eq!(bytes(OutputEvent::midi_note_on(17, 60, 100, None).event_type), vec![0x91, 60, 100]);
}

#[test]
fn non_midi_kinds_do_not_encode() {
    assert!(midi_message(&OutputEventType::SyncPulse).is_none());
    assert!(midi_message(&OutputEventType::EndOfTrack).is_none());
    assert!(midi_message(&OutputEventType::AudioBuffer { buffer: 1, channels: 2, frames: 64 }).is_none());
    let e = OutputEvent::new(OutputEventType::VstParameter { parameter_id: 1, value_bits: 0 }, None);
    assert!(e.is_vst() && !e.is_midi() && !e.is_audio());
    let a = OutputEvent::new(OutputEventType::AudioBuffer { buffer: 1, channels: 2, frames: 64 }, None);
    assert!(a.is_audio() && !a.is_midi());
    assert!(OutputEvent::midi_cc(0, 1, 2, None).is_midi());
}

fn midi_config(device: &str) -> EndpointConfig {
    EndpointConfig::new_midi("Synth".to_string(), device.to_string())
}

#[test]
fn midi_endpoint_is_added_from_a_valid_device_id() {
    let mut out = OutputSystem::new();
    let c = midi_config("2:USB MIDI: Port 1");
    assert_eq!(out.add_endpoint(&c), Ok(()));
    let ep = out.endpoint(c.id).unwrap();
    assert_eq!(ep.port_index(), 2);
    assert_eq!(ep.port_name(), "USB MIDI: Port 1");
    assert_eq!(ep.name(), "Synth");
    assert!(!out.is_endpoint_connected(c.id));
    assert_eq!(out.port_to_open(c.id, 3), Ok(Some(2)));
    assert_eq!(out.port_to_open(c.id, 2), Err(OutputError::PortOutOfRange { index: 2, available: 2 }));
    assert!(out.set_connected(c.id, true));
    assert!(out.is_endpoint_connected(c.id));
    assert_eq!(out.port_to_open(c.id, 3), Ok(None));
    let plus = midi_config("+7:Other");
    assert_eq!(out.add_endpoint(&plus), Ok(()));
    assert_eq!(out.port_to_open(plus.id, 8), Ok(Some(7)));
}

#[test]
fn malformed_configs_are_rejected() {
    let mut out = OutputSystem::new();
    assert_eq!(out.add_endpoint(&midi_config("no colon")), Err(OutputError::InvalidDeviceId));
    assert_eq!(out.add_endpoint(&midi_config("x1:Port")), Err(OutputError::InvalidPortIndex));
    assert_eq!(out.add_endpoint(&midi_config(":Port")), Err(OutputError::InvalidPortIndex));
    assert_eq!(out.add_endpoint(&midi_config("-1:Port")), Err(OutputError::InvalidPortIndex));
    let mut wrong = midi_config("0:Port");
    wrong.parameters = EndpointParameters::Audio { volume_milli: 1000, pan_milli: 0 };
    assert_eq!(out.add_endpoint(&wrong), Err(OutputError::InvalidParameters));
    let audio = EndpointConfig::new_audio("Out".to_string(), "0:x".to_string());
    assert_eq!(out.add_endpoint(&audio), Err(OutputError::UnsupportedEndpointType(EndpointType::Audio)));
    let vst = EndpointConfig::new_vst("Plug".to_string(), "/p.so".to_string());
    assert_eq!(vst.device_id, "/p.so");
    assert_eq!(out.add_endpoint(&vst), Err(OutputError::UnsupportedEndpointType(EndpointType::Vst)));
    // nothing was registered
    assert_eq!(out.port_to_open(audio.id, 5), Err(OutputError::NotFound(audio.id)));
}

#[test]
fn sending_to_a_disconnected_endpoint_fails() {
    let mut out = OutputSystem::new();
    let c = midi_config("0:Port");
    out.add_endpoint(&c).unwrap();
    let e = OutputEvent::midi_note_on(0, 60, 100, Some(c.id));
    assert_eq!(out.send_event_to_endpoint(c.id, &e), Err(OutputError::NotConnected));
    out.set_connected(c.id, true);
    assert_eq!(
        out.send_event_to_endpoint(c.id, &e),
        Ok(MidiMessage { status: 0x90, data1: 60, data2: Some(100) })
    );
    out.set_connected(c.id, false);
    assert_eq!(out.send_event_to_endpoint(c.id, &e), Err(OutputError::NotConnected));
    let unknown = EndpointId::new();
    assert_eq!(out.send_event_to_endpoint(unknown, &e), Err(OutputError::NotFound(unknown)));
}

#[test]
fn targeted_events_go_to_their_endpoint_only() {
    let mut out = OutputSystem::new();
    let a = midi_config("0:A");
    let b = midi_config("1:B");
    out.add_endpoint(&a).unwrap();
    out.add_endpoint(&b).unwrap();
    out.set_connected(b.id, true);
    let d = out.send_event(&OutputEvent::midi_cc(0, 1, 2, Some(b.id)));
    assert_eq!(d.len(), 1);
    assert_eq!(d[0].endpoint, b.id);
    assert_eq!(d[0].outcome, Ok(MidiMessage { status: 0xB0, data1: 1, data2: Some(2) }));
}

#[test]
fn broadcast_reaches_every_midi_endpoint() {
    let mut out = OutputSystem::new();
    let a = midi_config("0:A");
    let b = midi_config("1:B");
    out.add_endpoint(&a).unwrap();
    out.add_endpoint(&b).unwrap();
    out.set_connected(a.id, true);
    let d = out.send_event(&OutputEvent::midi_note_off(0, 60, None));
    assert_eq!(d.len(), 2);
    assert_eq!((d[0].endpoint, d[0].outcome), (a.id, Ok(MidiMessage { status: 0x80, data1: 60, data2: Some(0) })));
    assert_eq!((d[1].endpoint, d[1].outcome), (b.id, Err(OutputError::NotConnected)));
    // no endpoint takes audio or sync events
    assert!(out.send_event(&OutputEvent::new(OutputEventType::SyncPulse, None)).is_empty());
    assert!(out.send_event(&OutputEvent::new(OutputEventType::AudioBuffer { buffer: 0, channels: 1, frames: 1 }, None)).is_empty());
}

#[test]
fn endpoint_record_reports_its_port() {
    let id = EndpointId::new();
    let ep = MidiOutputEndpoint::new(id, "Synth".to_string(), 3, "Port".to_string());
    assert_eq!(ep.id(), id);
    assert_eq!(ep.name(), "Synth");
    assert_eq!(ep.port_name(), "Port");
    assert_eq!(ep.port_index(), 3);
    assert!(!ep.is_connected());
    assert_eq!(ep.endpoint_type(), EndpointType::Midi);
    assert_eq!(ep.send_event(&OutputEvent::midi_note_on(0, 1, 2, None)), Err(OutputError::NotConnected));
    assert_eq!(ep.send_event(&OutputEvent::new(OutputEventType::EndOfTrack, None)), Err(OutputError::UnsupportedEvent));
}

#[test]
fn port_name_keeps_colons_after_the_first() {
    let mut out = OutputSystem::new();
    let c = midi_config("2:USB MIDI:1");
    assert_eq!(out.add_endpoint(&c), Ok(()));
    let ep = out.endpoint(c.id).unwrap();
    assert_eq!(ep.port_index(), 2);
    assert_eq!(ep.port_name(), "USB MIDI:1");
    assert!(!out.is_endpoint_connected(c.id));
}
