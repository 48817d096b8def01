use loom::playback::beat_pulse;
use loom::{
    ClockSourceType, Duration, MediaContainer, MediaContent, OutputEvent, PatternId, PlaybackEngine,
    Seconds, Tempo, TempoMap, TimePosition, Timeline, Track, TrackType,
};

fn pos(t: u64) -> TimePosition {
    TimePosition::new(t)
}

#[test]
fn half_a_second_at_120_bpm_plays_one_beat_pulse() {
    let map = TempoMap::new(44100, 44100);
    let mut tl = Timeline::new("Main".to_string());
    let track = tl.add_track(Track::new("Lead".to_string(), TrackType::Midi));
    let c = MediaContainer::new(pos(0), MediaContent::Pattern(PatternId::new())).with_length(Duration::new(4 * 22050));
    tl.add_container(track, c);
    let mut engine = PlaybackEngine::new();
    assert!(engine.play());
    let step = engine.advance(&tl, &map, Seconds::new(1, 2)).unwrap();
    assert_eq!(step.position, pos(22050));
    let beats = map.position_to_beats(&step.position);
    assert_eq!(beats.numer, beats.denom as u128);
    assert_eq!(step.pulse, vec![OutputEvent::midi_note_on(0, 60, 100, None), OutputEvent::midi_note_off(0, 60, None)]);
    assert_eq!(step.containers.len(), 1);
    assert_eq!(step.containers[0].id, c.id);
    assert_eq!(engine.current_position(), pos(22050));
}

#[test]
fn pulse_fires_once_per_new_beat_and_cycles_pitch() {
    let map = TempoMap::new(1000, 1000);
    assert!(beat_pulse(&map, &pos(0), &pos(499)).is_empty());
    assert_eq!(beat_pulse(&map, &pos(499), &pos(500)).len(), 2);
    assert_eq!(beat_pulse(&map, &pos(500), &pos(1000))[0], OutputEvent::midi_note_on(0, 61, 100, None));
    // twelve beats on, the pitch comes round again
    assert_eq!(beat_pulse(&map, &pos(6000), &pos(6500))[0], OutputEvent::midi_note_on(0, 60, 100, None));
    assert!(beat_pulse(&map, &pos(600), &pos(700)).is_empty());
}

#[test]
fn pulse_follows_tempo_changes() {
    let mut map = TempoMap::new(1000, 1000);
    map.add_tempo_change(pos(0), Tempo::new(60));
    assert!(beat_pulse(&map, &pos(0), &pos(999)).is_empty());
    assert_eq!(beat_pulse(&map, &pos(0), &pos(1000)).len(), 2);
}

#[test]
fn stopped_transport_does_not_advance() {
    let map = TempoMap::new(1000, 1000);
    let tl = Timeline::new("t".to_string());
    let mut engine = PlaybackEngine::new();
    assert!(engine.advance(&tl, &map, Seconds::new(1, 1)).is_none());
    assert!(engine.play());
    assert!(!engine.play());
    assert!(engine.is_playing());
    assert!(engine.stop());
    assert!(!engine.stop());
    assert!(engine.advance(&tl, &map, Seconds::new(1, 1)).is_none());
}

#[test]
fn seek_reanchors_elapsed_time() {
    let map = TempoMap::new(1000, 1000);
    let tl = Timeline::new("t".to_string());
    let mut engine = PlaybackEngine::new();
    engine.play();
    engine.advance(&tl, &map, Seconds::new(2, 1)).unwrap();
    engine.seek(pos(10_000));
    assert!(engine.is_playing());
    assert_eq!(engine.current_position(), pos(10_000));
    let step = engine.advance(&tl, &map, Seconds::new(1, 2)).unwrap();
    assert_eq!(step.position, pos(10_500));
}

#[test]
fn switching_clock_source_stops_playback() {
    let mut engine = PlaybackEngine::new();
    engine.play();
    engine.set_clock_source(ClockSourceType::Mtc);
    assert!(!engine.is_playing());
}
