use loom::{NoteValue, Tempo, TempoMap, TimePosition, TimeSignature};

fn pos(t: u64) -> TimePosition {
    TimePosition::new(t)
}

#[test]
fn default_map_is_120_bpm_in_four_four() {
    let map = TempoMap::new(44100, 48000);
    assert_eq!(map.tempo_at(&pos(0)).milli_bpm, 120_000);
    assert_eq!(map.tempo_at(&pos(1_000_000)).milli_bpm, 120_000);
    let sig = map.time_signature_at(&pos(12345));
    assert_eq!((sig.numerator, sig.denominator), (4, 4));
    assert_eq!(map.reference_sample_rate(), 44100);
    assert_eq!(map.playback_sample_rate(), 48000);
}

#[test]
fn latest_change_at_or_before_wins() {
    let mut map = TempoMap::new(44100, 44100);
    map.add_tempo_change(pos(1000), Tempo::new(60));
    map.add_tempo_change(pos(500), Tempo::new(90));
    assert_eq!(map.tempo_at(&pos(499)).milli_bpm, 120_000);
    assert_eq!(map.tempo_at(&pos(500)).milli_bpm, 90_000);
    assert_eq!(map.tempo_at(&pos(999)).milli_bpm, 90_000);
    assert_eq!(map.tempo_at(&pos(1000)).milli_bpm, 60_000);
    // a change at the same position replaces the earlier one
    map.add_tempo_change(pos(500), Tempo::from_milli_bpm(100_500));
    assert_eq!(map.tempo_at(&pos(700)).milli_bpm, 100_500);
    map.add_time_signature_change(pos(800), TimeSignature::new(3, 4));
    assert_eq!(map.time_signature_at(&pos(799)).numerator, 4);
    assert_eq!(map.time_signature_at(&pos(800)).numerator, 3);
}

#[test]
fn one_beat_at_120_bpm_is_half_a_second() {
    let map = TempoMap::new(44100, 44100);
    let b = map.position_to_beats(&pos(22050));
    assert_eq!(b.denom, 60_000 * 44100);
    assert_eq!(b.numer, b.denom as u128);
    assert_eq!(b.whole(), 1);
    assert_eq!(map.beats_to_position(b).position_ticks, 22050);
}

#[test]
fn beats_integrate_across_tempo_changes() {
    // 120 BPM for the first second (2 beats), then 60 BPM
    let mut map = TempoMap::new(1000, 1000);
    map.add_tempo_change(pos(1000), Tempo::new(60));
    let b = map.position_to_beats(&pos(3000));
    // 2 beats + 2 s at 60 BPM = 4 beats
    assert_eq!(b.whole(), 4);
    assert_eq!(b.numer, 4 * b.denom as u128);
    let half = map.position_to_beats(&pos(1500));
    assert_eq!(half.numer * 2, 5 * half.denom as u128);
}

#[test]
fn beats_round_trip_with_many_tempo_changes() {
    let mut map = TempoMap::new(44100, 44100);
    map.add_tempo_change(pos(10_000), Tempo::new(240));
    map.add_tempo_change(pos(25_000), Tempo::from_milli_bpm(97_300));
    map.add_tempo_change(pos(80_000), Tempo::new(33));
    for t in [0u64, 1, 9_999, 10_000, 10_001, 24_999, 25_000, 50_000, 80_000, 1_000_000, u64::MAX] {
        let b = map.position_to_beats(&pos(t));
        assert_eq!(map.beats_to_position(b).position_ticks, t);
    }
}

#[test]
fn position_to_beats_never_decreases() {
    let mut map = TempoMap::new(44100, 44100);
    map.add_tempo_change(pos(1_000), Tempo::new(300));
    map.add_tempo_change(pos(5_000), Tempo::new(30));
    let mut prev = 0u128;
    for t in (0u64..20_000).step_by(37) {
        let b = map.position_to_beats(&pos(t));
        assert!(b.numer >= prev);
        prev = b.numer;
    }
}

#[test]
fn doubling_a_segment_tempo_doubles_its_beats() {
    let mut slow = TempoMap::new(44100, 44100);
    slow.add_tempo_change(pos(44100), Tempo::new(60));
    slow.add_tempo_change(pos(441_000), Tempo::new(90));
    let mut fast = slow.clone();
    fast.add_tempo_change(pos(44100), Tempo::new(120));
    let span = |m: &TempoMap, a: u64, b: u64| m.position_to_beats(&pos(b)).numer - m.position_to_beats(&pos(a)).numer;
    assert_eq!(span(&fast, 44100, 200_000), 2 * span(&slow, 44100, 200_000));
    // nine seconds at 60 BPM is nine beats; at 120 BPM eighteen
    let unit = slow.position_to_beats(&pos(0)).denom as u128;
    assert_eq!(span(&slow, 44100, 441_000), 9 * unit);
    assert_eq!(span(&fast, 44100, 441_000), 18 * unit);
    // outside the segment nothing changes
    assert_eq!(span(&fast, 0, 44100), span(&slow, 0, 44100));
}

#[test]
fn beats_to_position_rounds_other_denominators() {
    let map = TempoMap::new(44100, 44100);
    // a third of a beat at 120 BPM is 7350 ticks
    assert_eq!(map.beats_to_position(loom::Beats::new(1, 3)).position_ticks, 7350);
    assert_eq!(map.beats_to_position(loom::Beats::new(8, 1)).position_ticks, 176_400);
}

#[test]
fn bars_and_beats_follow_time_signatures() {
    let mut map = TempoMap::new(1000, 1000);
    // 120 BPM: one beat is 500 ticks
    let (bars, beat) = map.position_to_bars_and_beats(&pos(0));
    assert_eq!((bars, beat.numer), (0, 0));
    let (bars, beat) = map.position_to_bars_and_beats(&pos(2500)); // 5 beats in 4/4
    assert_eq!(bars, 1);
    assert_eq!(beat.numer, beat.denom as u128);
    map.add_time_signature_change(pos(4000), TimeSignature::new(3, 4)); // after 8 beats
    let (bars, beat) = map.position_to_bars_and_beats(&pos(5500)); // 8 beats + 3 beats
    assert_eq!(bars, 3);
    assert_eq!(beat.numer, 0);
    let (bars, beat) = map.position_to_bars_and_beats(&pos(6250)); // 8 + 4.5 beats
    assert_eq!(bars, 3);
    assert_eq!(beat.numer * 2, 3 * beat.denom as u128);
}

#[test]
fn playback_samples_rescale_and_round() {
    let mut map = TempoMap::new(44100, 48000);
    assert_eq!(map.ticks_to_playback_samples(&pos(44100)), 48000);
    assert_eq!(map.ticks_to_playback_samples(&pos(1)), 1);
    assert_eq!(map.playback_samples_to_ticks(48000).position_ticks, 44100);
    assert_eq!(map.playback_samples_to_ticks(1).position_ticks, 1);
    map.set_playback_sample_rate(22050);
    assert_eq!(map.ticks_to_playback_samples(&pos(3)), 2); // 1.5 rounds up
    assert_eq!(map.playback_samples_to_ticks(3).position_ticks, 6);
}

#[test]
fn tempo_and_note_values() {
    let t = Tempo::new(120);
    let d = t.beat_duration_secs();
    assert_eq!((d.numer, d.denom), (60_000, 120_000));
    assert_eq!(TimeSignature::new(7, 8).beats_per_bar(), 7);
    let n = NoteValue::from_beats(3, 2);
    let b = n.to_beats();
    assert_eq!((b.numer, b.denom), (3, 2));
}
