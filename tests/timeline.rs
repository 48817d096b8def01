use loom::{
    Color, ContainerId, Duration, MediaContainer, MediaContent, PatternId, PlaybackMode, TimePosition,
    TimeScale, Timeline, Track, TrackId, TrackType,
};

fn pos(t: u64) -> TimePosition {
    TimePosition::new(t)
}

fn container_at(t: u64, length: u64) -> MediaContainer {
    MediaContainer::new(pos(t), MediaContent::Pattern(PatternId::new())).with_length(Duration::new(length))
}

fn ids(v: &[MediaContainer]) -> Vec<ContainerId> {
    let mut r: Vec<ContainerId> = v.iter().map(|c| c.id).collect();
    r.sort_by_key(|c| c.0);
    r
}

fn sorted(mut v: Vec<ContainerId>) -> Vec<ContainerId> {
    v.sort_by_key(|c| c.0);
    v
}

fn timeline_with_track() -> (Timeline, TrackId) {
    let mut tl = Timeline::new("Main".to_string());
    let id = tl.add_track(Track::new("Drums".to_string(), TrackType::Midi));
    (tl, id)
}

#[test]
fn range_query_has_overlap_semantics() {
    let (mut tl, track) = timeline_with_track();
    let before_long = tl.add_container(track, container_at(0, 150));
    let before_short = tl.add_container(track, container_at(10, 50));
    let at_start = tl.add_container(track, container_at(100, 10));
    let inside = tl.add_container(track, container_at(150, 10));
    let at_end = tl.add_container(track, container_at(200, 10));
    let r = tl.track_containers_in_range(track, &pos(100), &pos(200));
    assert_eq!(ids(&r), sorted(vec![before_long, at_start, inside]));
    assert!(!ids(&r).contains(&before_short));
    assert!(!ids(&r).contains(&at_end));
}

#[test]
fn container_ending_exactly_at_start_is_not_reported() {
    let (mut tl, track) = timeline_with_track();
    let c = tl.add_container(track, container_at(40, 60));
    assert!(tl.track_containers_in_range(track, &pos(100), &pos(120)).is_empty());
    let r = tl.track_containers_in_range(track, &pos(99), &pos(120));
    assert_eq!(ids(&r), vec![c]);
}

#[test]
fn empty_window_reports_only_containers_running_through_it() {
    let (mut tl, track) = timeline_with_track();
    let through = tl.add_container(track, container_at(0, 100));
    tl.add_container(track, container_at(50, 10));
    let r = tl.track_containers_in_range(track, &pos(50), &pos(50));
    assert_eq!(ids(&r), vec![through]);
}

#[test]
fn containers_with_the_same_start_coexist() {
    let (mut tl, track) = timeline_with_track();
    let a = tl.add_container(track, container_at(100, 10));
    let b = tl.add_container(track, container_at(100, 20));
    let r = tl.track_containers_in_range(track, &pos(100), &pos(101));
    assert_eq!(ids(&r), sorted(vec![a, b]));
}

#[test]
fn queries_are_per_track() {
    let (mut tl, first) = timeline_with_track();
    let second = tl.add_track(Track::new("Bass".to_string(), TrackType::Instrument));
    let a = tl.add_container(first, container_at(0, 10));
    let b = tl.add_container(second, container_at(5, 10));
    assert_eq!(ids(&tl.track_containers_in_range(first, &pos(0), &pos(20))), vec![a]);
    assert_eq!(ids(&tl.track_containers_in_range(second, &pos(0), &pos(20))), vec![b]);
    assert_eq!(ids(&tl.containers_in_range(&pos(0), &pos(20))), sorted(vec![a, b]));
}

#[test]
fn container_on_unknown_track_is_stored_but_not_placed() {
    let (mut tl, _) = timeline_with_track();
    let c = tl.add_container(TrackId::new(), container_at(0, 10));
    assert!(tl.container(c).is_some());
    assert!(tl.containers_in_range(&pos(0), &pos(20)).is_empty());
    assert!(!tl.move_container(c, pos(5)));
}

#[test]
fn moved_container_leaves_old_range_and_appears_at_new_position() {
    let (mut tl, track) = timeline_with_track();
    let c = tl.add_container(track, container_at(1000, 100));
    assert_eq!(ids(&tl.track_containers_in_range(track, &pos(1000), &pos(1001))), vec![c]);
    assert!(tl.move_container(c, pos(5000)));
    assert!(tl.track_containers_in_range(track, &pos(1000), &pos(1001)).is_empty());
    assert_eq!(ids(&tl.track_containers_in_range(track, &pos(5000), &pos(5001))), vec![c]);
    assert_eq!(tl.container(c).unwrap().position, pos(5000));
}

#[test]
fn moving_an_unknown_container_fails() {
    let (mut tl, _) = timeline_with_track();
    assert!(!tl.move_container(ContainerId::new(), pos(5)));
}

#[test]
fn resizing_changes_the_overlap() {
    let (mut tl, track) = timeline_with_track();
    let c = tl.add_container(track, container_at(0, 10));
    assert!(tl.track_containers_in_range(track, &pos(50), &pos(60)).is_empty());
    assert!(tl.set_container_length(c, Duration::new(100)));
    assert_eq!(ids(&tl.track_containers_in_range(track, &pos(50), &pos(60))), vec![c]);
    assert!(!tl.set_container_length(ContainerId::new(), Duration::new(1)));
}

#[test]
fn adding_a_container_again_replaces_it() {
    let (mut tl, track) = timeline_with_track();
    let c = container_at(0, 10);
    tl.add_container(track, c);
    tl.add_container(track, MediaContainer { position: pos(500), ..c });
    assert!(tl.track_containers_in_range(track, &pos(0), &pos(10)).is_empty());
    assert_eq!(ids(&tl.track_containers_in_range(track, &pos(500), &pos(501))), vec![c.id]);
}

#[test]
fn tracks_and_builders() {
    let (tl, track) = timeline_with_track();
    let t = tl.track(track).unwrap();
    assert_eq!(t.name, "Drums");
    assert_eq!(t.color, Color::new(100, 100, 200));
    assert!(tl.contains_track(track));
    assert!(tl.track(TrackId::new()).is_none());
    assert_eq!(tl.name(), "Main");
    let t2 = Track::new("x".to_string(), TrackType::Audio).with_color(Color::new(1, 2, 3));
    assert_eq!(t2.color.g, 2);
    let c = container_at(0, 1).with_loop(Some(3)).with_crop(Duration::new(1), Duration::new(2)).with_time_scale(TimeScale { numer: 2, denom: 1 });
    assert_eq!(c.playback_mode, PlaybackMode::Loop);
    assert_eq!(c.loop_count, Some(3));
    assert_eq!(c.start_offset.ticks(), 1);
    assert_eq!(c.end_offset.ticks(), 2);
    assert_eq!(c.time_scale.numer, 2);
    let d = MediaContainer::new(pos(7), MediaContent::Pattern(PatternId::new()));
    assert_eq!(d.length.ticks(), 88200);
    assert_eq!(d.playback_mode, PlaybackMode::Normal);
}
