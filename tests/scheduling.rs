use loom::{EventScheduler, OutputEvent, TimePosition};

fn pos(t: u64) -> TimePosition {
    TimePosition::new(t)
}

#[test]
fn events_come_back_in_position_order_within_the_window() {
    let mut s = EventScheduler::new();
    let a = OutputEvent::midi_note_on(0, 60, 100, None);
    let b = OutputEvent::midi_note_off(0, 60, None);
    let c = OutputEvent::midi_cc(0, 1, 2, None);
    s.schedule_event(pos(30), c);
    s.schedule_event(pos(10), a);
    s.schedule_event(pos(10), b);
    s.schedule_event(pos(20), c);
    assert_eq!(s.get_events(&pos(10), &pos(30)), vec![(pos(10), a), (pos(10), b), (pos(20), c)]);
    assert_eq!(s.get_events(&pos(11), &pos(31)), vec![(pos(20), c), (pos(30), c)]);
    assert!(s.get_events(&pos(30), &pos(30)).is_empty());
    assert!(s.get_events(&pos(31), &pos(10)).is_empty());
}

#[test]
fn clear_forgets_everything() {
    let mut s = EventScheduler::new();
    s.schedule_event(pos(1), OutputEvent::midi_note_on(0, 60, 100, None));
    s.clear();
    assert!(s.get_events(&pos(0), &pos(u64::MAX)).is_empty());
}
