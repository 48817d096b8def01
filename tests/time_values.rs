use loom::{Beats, Duration, Seconds, TimePosition, TimeScale};

#[test]
fn seconds_round_trip_keeps_ticks() {
    for &(ticks, rate) in &[(0u64, 44100u32), (1, 44100), (22050, 44100), (123_456_789, 48000), (u64::MAX, 1), (u64::MAX, u32::MAX)] {
        let p = TimePosition::new(ticks);
        let s = p.to_seconds(rate);
        let back = TimePosition::from_seconds(s, rate);
        assert_eq!(back.position_ticks, ticks);
        assert_eq!(back.to_seconds(rate).numer, s.numer);
        assert_eq!(back.to_seconds(rate).denom, s.denom);
    }
}

#[test]
fn from_seconds_rounds_to_nearest_tick() {
    // 0.5 s at 44.1 kHz
    assert_eq!(TimePosition::from_seconds(Seconds::new(1, 2), 44100).position_ticks, 22050);
    // 1/3 s at 10 Hz is 3.33 ticks, rounded down
    assert_eq!(TimePosition::from_seconds(Seconds::new(1, 3), 10).position_ticks, 3);
    // 1/4 s at 10 Hz is 2.5 ticks, halves round up
    assert_eq!(TimePosition::from_seconds(Seconds::new(1, 4), 10).position_ticks, 3);
    // 2/3 s at 10 Hz is 6.67 ticks
    assert_eq!(Duration::from_seconds(Seconds::new(2, 3), 10).ticks(), 7);
    // a million nanoseconds at 44.1 kHz is 44.1 ticks
    assert_eq!(TimePosition::from_seconds(Seconds::from_nanos(1_000_000), 44100).position_ticks, 44);
}

#[test]
fn from_seconds_clamps_at_largest_position() {
    let huge = Seconds::new(u64::MAX as u128 * 4, 1);
    assert_eq!(TimePosition::from_seconds(huge, 2).position_ticks, u64::MAX);
}

#[test]
fn subtraction_saturates_at_zero() {
    let a = TimePosition::new(5);
    let b = TimePosition::new(9);
    assert_eq!(a.sub(b).position_ticks, 0);
    assert_eq!(b.sub(a).position_ticks, 4);
    assert_eq!(a.add(b).position_ticks, 14);
    assert_eq!(Duration::new(3).sub(Duration::new(10)).ticks(), 0);
    assert_eq!(Duration::new(10).sub(Duration::new(3)).ticks(), 7);
    assert_eq!(Duration::new(10).add(Duration::new(3)).ticks(), 13);
    assert_eq!(a.add_duration(Duration::new(7)).position_ticks, 12);
}

#[test]
fn duration_scaling_rounds() {
    let d = Duration::new(10);
    assert_eq!(d.mul(TimeScale { numer: 3, denom: 2 }).ticks(), 15);
    assert_eq!(d.mul(TimeScale { numer: 1, denom: 4 }).ticks(), 3); // 2.5 rounds up
    assert_eq!(d.div(TimeScale { numer: 3, denom: 1 }).ticks(), 3); // 3.33
    assert_eq!(d.div(TimeScale { numer: 1, denom: 2 }).ticks(), 20);
    assert_eq!(Duration::new(u64::MAX).mul(TimeScale { numer: 2, denom: 1 }).ticks(), u64::MAX);
}

#[test]
fn duration_from_beats_uses_default_beat_length() {
    assert_eq!(Duration::from_beats(Beats::new(4, 1)).ticks(), 88200);
    assert_eq!(Duration::from_beats(Beats::new(1, 3)).ticks(), 7350);
    assert_eq!(Duration::zero().ticks(), 0);
    assert_eq!(TimePosition::zero().position_ticks, 0);
}

#[test]
fn duration_to_seconds_is_exact() {
    let s = Duration::new(22050).to_seconds(44100);
    assert_eq!((s.numer, s.denom), (22050, 44100));
}

#[test]
fn beats_whole_rounds_down() {
    assert_eq!(Beats::new(7, 2).whole(), 3);
    assert_eq!(Beats::new(6, 2).whole(), 3);
    assert_eq!(Beats::new(1, 2).whole(), 0);
}
