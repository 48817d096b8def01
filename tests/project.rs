use loom::{
    ContainerId, Duration, EndpointConfig, EndpointId, MediaContainer, MediaContent, PatternId,
    Project, ProjectSettings, TempoMap, TimeContext, TimelineId, TimePosition, TrackType,
};

#[test]
fn new_project_has_an_active_main_timeline() {
    let p = Project::new("Song".to_string());
    assert_eq!(p.name, "Song");
    assert_eq!(p.version, 1);
    let t = p.active_timeline().unwrap();
    assert_eq!(t.name(), "Main");
    assert_eq!(p.tempo_map.tempo_at(&TimePosition::zero()).milli_bpm, 120_000);
    assert_eq!(p.tempo_map.reference_sample_rate(), 44100);
}

#[test]
fn default_settings() {
    let s = ProjectSettings::default();
    assert_eq!(s.reference_sample_rate, 44100);
    assert_eq!(s.default_velocity, 100);
    assert_eq!((s.grid_size.numer, s.grid_size.denom), (1, 4));
    assert!(s.snap_to_grid && s.auto_quantize);
}

#[test]
fn commands_act_on_the_active_timeline() {
    let mut p = Project::new("Song".to_string());
    let track = p.add_track_to_active("Lead".to_string(), TrackType::Midi).unwrap();
    let c = MediaContainer::new(TimePosition::new(100), MediaContent::Pattern(PatternId::new()));
    let id = p.active_timeline_mut().unwrap().add_container(track, c);
    assert!(p.move_container_in_active(id, TimePosition::new(900)));
    assert_eq!(p.active_timeline().unwrap().container(id).unwrap().position, TimePosition::new(900));
    assert!(p.resize_container_in_active(id, Duration::new(5)));
    assert_eq!(p.active_timeline().unwrap().container(id).unwrap().length, Duration::new(5));
    assert!(!p.move_container_in_active(ContainerId::new(), TimePosition::new(1)));
    assert!(!p.resize_container_in_active(ContainerId::new(), Duration::new(1)));
}

#[test]
fn without_an_active_timeline_commands_do_nothing() {
    let mut p = Project::new("Song".to_string());
    p.active_timeline_id = Some(TimelineId::new());
    assert!(p.active_timeline().is_none());
    assert!(p.add_track_to_active("x".to_string(), TrackType::Audio).is_none());
    assert!(!p.move_container_in_active(ContainerId::new(), TimePosition::zero()));
}

#[test]
fn timelines_can_be_added_and_activated() {
    let mut p = Project::new("Song".to_string());
    let id = p.add_timeline("Second".to_string());
    assert_eq!(p.version, 2);
    assert_eq!(p.set_active_timeline(id), Ok(()));
    assert_eq!(p.active_timeline().unwrap().name(), "Second");
    assert_eq!(p.set_active_timeline(TimelineId::new()), Err(()));
    assert_eq!(p.active_timeline().unwrap().id(), id);
}

#[test]
fn endpoints_are_looked_up_by_identity() {
    let mut p = Project::new("Song".to_string());
    let config = EndpointConfig::new_midi("Synth".to_string(), "0:Port".to_string());
    let id = p.add_endpoint(config);
    assert_eq!(p.endpoint(id).unwrap().name, "Synth");
    assert!(p.endpoint(EndpointId::new()).is_none());
}

#[test]
fn time_context_shares_its_tempo_map() {
    let mut ctx = TimeContext::new(TempoMap::new(1000, 2000));
    assert_eq!(ctx.position(), TimePosition::zero());
    ctx.set_position(TimePosition::new(7));
    let other = ctx.clone_with_new_position(TimePosition::new(9));
    assert_eq!(ctx.position(), TimePosition::new(7));
    assert_eq!(other.position(), TimePosition::new(9));
    assert_eq!(other.tempo_map().playback_sample_rate(), 2000);
    assert_eq!(ctx.tempo_map().reference_sample_rate(), 1000);
}

#[test]
fn tracks_and_endpoints_can_be_edited_in_place() {
    let mut p = Project::new("Song".to_string());
    let track = p.add_track_to_active("Lead".to_string(), TrackType::Midi).unwrap();
    let timeline = p.active_timeline_mut().unwrap();
    timeline.track_mut(track).unwrap().is_muted = true;
    assert!(timeline.track(track).unwrap().is_muted);
    assert!(timeline.track_mut(loom::TrackId::new()).is_none());
    let id = p.add_endpoint(EndpointConfig::new_midi("Synth".to_string(), "0:Port".to_string()));
    p.endpoint_mut(id).unwrap().enabled = false;
    assert!(!p.endpoint(id).unwrap().enabled);
    assert!(p.endpoint_mut(EndpointId::new()).is_none());
}

#[test]
fn new_project_tempo_map_is_120_bpm_four_four_from_zero() {
    let p = Project::new("Song".to_string());
    let sig = p.tempo_map.time_signature_at(&TimePosition::new(99_999));
    assert_eq!((sig.numerator, sig.denominator), (4, 4));
    assert_eq!(p.tempo_map.tempo_at(&TimePosition::new(99_999)).milli_bpm, 120_000);
}
