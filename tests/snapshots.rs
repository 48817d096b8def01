use loom::{
    ContainerContentType, Duration, EndpointConfig, EndpointSnapshot, MediaContainer, MediaContent,
    MidiClipId, PatternId, TimePosition, Timeline, TimelineSnapshot, Track, TrackSnapshot, TrackType,
};

#[test]
fn timeline_snapshot_lists_each_tracks_containers_in_start_order() {
    let mut tl = Timeline::new("Main".to_string());
    let a = tl.add_track(Track::new("A".to_string(), TrackType::Midi));
    let b = tl.add_track(Track::new("B".to_string(), TrackType::Audio));
    let late = MediaContainer::new(TimePosition::new(500), MediaContent::Pattern(PatternId::new()));
    let early = MediaContainer::new(TimePosition::new(10), MediaContent::MidiClip(MidiClipId::new()))
        .with_length(Duration::new(7))
        .with_loop(None);
    tl.add_container(a, late);
    tl.add_container(a, early);
    let snap = TimelineSnapshot::from_timeline(&tl, Some(TimePosition::new(3)));
    assert_eq!(snap.name, "Main");
    assert_eq!(snap.id, tl.id());
    assert_eq!(snap.playback_position, Some(TimePosition::new(3)));
    assert_eq!(snap.tracks.len(), 2);
    assert_eq!(snap.tracks[0].name, "A");
    assert_eq!(snap.containers.len(), 2);
    assert_eq!(snap.containers[0].0, a);
    assert_eq!(snap.containers[1].0, b);
    assert!(snap.containers[1].1.is_empty());
    let shown = &snap.containers[0].1;
    assert_eq!(shown.len(), 2);
    assert_eq!(shown[0].id, early.id);
    assert_eq!(shown[0].content_type, ContainerContentType::MidiClip);
    assert!(shown[0].is_looping);
    assert_eq!(shown[0].length, Duration::new(7));
    assert_eq!(shown[1].id, late.id);
    assert_eq!(shown[1].content_type, ContainerContentType::Pattern);
    assert!(!shown[1].is_looping);
}

#[test]
fn track_and_endpoint_snapshots_copy_fields() {
    let t = Track::new("Keys".to_string(), TrackType::Instrument);
    let s = TrackSnapshot::from(&t);
    assert_eq!((s.id, s.name.as_str(), s.height), (t.id, "Keys", 100));
    let c = EndpointConfig::new_midi("Synth".to_string(), "0:Port".to_string());
    let e = EndpointSnapshot::from(&c);
    assert_eq!((e.id, e.name.as_str(), e.device_id.as_str(), e.enabled), (c.id, "Synth", "0:Port", true));
}
