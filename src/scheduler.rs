//! A time-ordered holding place for output events due at positions.
use crate::event::OutputEvent;
use crate::time::TimePosition;
use vstd::prelude::*;

verus! {

/// Position of a scheduled entry.
pub open spec fn due(x: (TimePosition, OutputEvent)) -> int {
    x.0.position_ticks as int
}

/// Entries are in position order.
pub open spec fn schedule_sorted(s: Seq<(TimePosition, OutputEvent)>) -> bool {
    forall|i: int, j: int| 0 <= i < j < s.len() ==> due(s[i]) <= due(s[j])
}

/// How many entries are due at or before `p` (a prefix, in a sorted schedule).
pub open spec fn due_by(s: Seq<(TimePosition, OutputEvent)>, p: int) -> int
    decreases s.len(),
{
    if s.len() == 0 {
        0
    } else if due(s.last()) <= p {
        s.len() as int
    } else {
        due_by(s.drop_last(), p)
    }
}

/// The entries of `s` due in `[start, end)`, in order.
pub open spec fn window(s: Seq<(TimePosition, OutputEvent)>, start: int, end: int) -> Seq<
    (TimePosition, OutputEvent),
>
    decreases s.len(),
{
    if s.len() == 0 {
        Seq::empty()
    } else if start <= due(s.last()) < end {
        window(s.drop_last(), start, end).push(s.last())
    } else {
        window(s.drop_last(), start, end)
    }
}

proof fn lemma_due_by(s: Seq<(TimePosition, OutputEvent)>, k: int, p: int)
    requires
        schedule_sorted(s),
        0 <= k <= s.len(),
        forall|j: int| 0 <= j < k ==> due(s[j]) <= p,
        k == s.len() || due(s[k]) > p,
    ensures
        due_by(s, p) == k,
    decreases s.len(),
{
    if s.len() > 0 && k < s.len() {
        assert(due(s.last()) > p);
        lemma_due_by(s.drop_last(), k, p);
    }
}

/// Output events due at positions; events at one position keep the order in
/// which they were scheduled.
pub struct EventScheduler {
    scheduled_events: Vec<(TimePosition, OutputEvent)>,
}

impl EventScheduler {
    /// The scheduled events with their positions, in position order.
    pub closed spec fn events_spec(&self) -> Seq<(TimePosition, OutputEvent)> {
        self.scheduled_events@
    }

    pub open spec fn wf(&self) -> bool {
        schedule_sorted(self.events_spec())
    }

    /// An empty schedule.
    pub fn new() -> (r: EventScheduler)
        ensures
            r.wf(),
            r.events_spec().len() == 0,
    {
        EventScheduler { scheduled_events: Vec::new() }
    }

    /// Schedules `event` at `position`, after every event already due by then.
    pub fn schedule_event(&mut self, position: TimePosition, event: OutputEvent)
        requires
            old(self).wf(),
        ensures
            final(self).wf(),
            final(self).events_spec() == old(self).events_spec().insert(
                due_by(old(self).events_spec(), position.position_ticks as int),
                (position, event),
            ),
    {
        let ghost s = self.scheduled_events@;
        let mut i: usize = 0;
        while i < self.scheduled_events.len()
            && self.scheduled_events[i].0.position_ticks <= position.position_ticks
            invariant
                self.scheduled_events@ == s,
                schedule_sorted(s),
                i <= s.len(),
                forall|j: int| 0 <= j < i ==> due(s[j]) <= position.position_ticks,
            decreases s.len() - i,
        {
            i = i + 1;
        }
        proof {
            lemma_due_by(s, i as int, position.position_ticks as int);
        }
        self.scheduled_events.insert(i, (position, event));
        proof {
            let n = self.scheduled_events@;
            assert forall|a: int, b: int| 0 <= a < b < n.len() implies due(n[a]) <= due(n[b]) by {
                if b < i {
                } else if b == i {
                } else if a < i {
                    assert(n[b] == s[b - 1]);
                } else if a == i {
                    assert(n[b] == s[b - 1]);
                    assert(due(s[i as int]) > position.position_ticks);
                } else {
                    assert(n[a] == s[a - 1]);
                    assert(n[b] == s[b - 1]);
                }
            }
        }
    }

    /// Every event due in `[start, end)`, with its position, in position order.
    pub fn get_events(&self, start: &TimePosition, end: &TimePosition) -> (r: Vec<
        (TimePosition, OutputEvent),
    >)
        requires
            self.wf(),
        ensures
            r@ == window(self.events_spec(), start.position_ticks as int, end.position_ticks as int),
    {
        let ghost s = self.scheduled_events@;
        let mut result: Vec<(TimePosition, OutputEvent)> = Vec::new();
        let mut i: usize = 0;
        while i < self.scheduled_events.len()
            invariant
                self.scheduled_events@ == s,
                i <= s.len(),
                result@ == window(s.take(i as int), start.position_ticks as int, end.position_ticks as int),
            decreases s.len() - i,
        {
            let entry = self.scheduled_events[i];
            proof {
                assert(s.take(i + 1).drop_last() =~= s.take(i as int));
                assert(s.take(i + 1).last() == s[i as int]);
            }
            if start.position_ticks <= entry.0.position_ticks
                && entry.0.position_ticks < end.position_ticks {
                result.push(entry);
            }
            i = i + 1;
        }
        assert(s.take(s.len() as int) =~= s);
        result
    }

    /// Removes every scheduled event.
    pub fn clear(&mut self)
        ensures
            final(self).wf(),
            final(self).events_spec().len() == 0,
    {
        self.scheduled_events.clear();
    }
}

} // verus!
