//! Bookkeeping of the tasks a worker has in flight.
//!
//! The dispatch loop counts a task in when it spawns it and out when the task
//! has replied. The count is what least-in-flight selection and observers read.

use vstd::prelude::*;

verus! {

/// What happens to a task, as far as the count cares.
#[derive(Debug, Clone, Copy, PartialEq, Eq, Structural)]
pub enum TaskEvent {
    /// A task was spawned for a request.
    Started,
    /// A task has replied and is gone.
    Completed,
}

/// The count after `event`, starting from `count`.
///
/// The count never leaves the range of `usize`: a start at the top and a
/// completion at zero leave it as it was.
pub open spec fn after_event(count: nat, event: TaskEvent) -> nat {
    match event {
        TaskEvent::Started => if count < usize::MAX {
            count + 1
        } else {
            count
        },
        TaskEvent::Completed => if count > 0 {
            (count - 1) as nat
        } else {
            count
        },
    }
}

/// The count after all of `events`, in order, starting from zero.
pub open spec fn in_flight_after(events: Seq<TaskEvent>) -> nat
    decreases events.len(),
{
    if events.len() == 0 {
        0
    } else {
        after_event(in_flight_after(events.drop_last()), events.last())
    }
}

/// How many tasks `events` start.
pub open spec fn started(events: Seq<TaskEvent>) -> nat
    decreases events.len(),
{
    if events.len() == 0 {
        0
    } else {
        started(events.drop_last()) + if events.last() == TaskEvent::Started {
            1nat
        } else {
            0nat
        }
    }
}

/// How many tasks `events` complete.
pub open spec fn completed(events: Seq<TaskEvent>) -> nat
    decreases events.len(),
{
    if events.len() == 0 {
        0
    } else {
        completed(events.drop_last()) + if events.last() == TaskEvent::Completed {
            1nat
        } else {
            0nat
        }
    }
}

/// Whether `events` is a history that tasks can produce: at every point, no
/// more tasks have completed than have started.
pub open spec fn is_task_history(events: Seq<TaskEvent>) -> bool {
    forall|k: int|
        0 <= k <= events.len() ==> completed(#[trigger] events.take(k)) <= started(events.take(k))
}

/// The number of tasks a worker has in flight.
#[derive(Debug)]
pub struct ConcurrencyTracker {
    in_flight: usize,
}

impl View for ConcurrencyTracker {
    type V = nat;

    closed spec fn view(&self) -> nat {
        self.in_flight as nat
    }
}

impl ConcurrencyTracker {
    /// A tracker with nothing in flight.
    pub fn new() -> (tracker: Self)
        ensures
            tracker@ == 0,
    {
        ConcurrencyTracker { in_flight: 0 }
    }

    /// The number of tasks in flight.
    pub fn in_flight(&self) -> (count: usize)
        ensures
            count == self@,
    {
        self.in_flight
    }

    /// Whether nothing is in flight.
    pub fn is_idle(&self) -> (idle: bool)
        ensures
            idle == (self@ == 0),
    {
        self.in_flight == 0
    }

    /// Counts a task in. Returns `false`, and counts nothing, only when the
    /// count is at the top of its range.
    pub fn begin(&mut self) -> (counted: bool)
        ensures
            counted == (old(self)@ < usize::MAX),
            final(self)@ == after_event(old(self)@, TaskEvent::Started),
            counted ==> final(self)@ == old(self)@ + 1,
    {
        if self.in_flight < usize::MAX {
            self.in_flight = self.in_flight + 1;
            true
        } else {
            false
        }
    }

    /// Counts a task out. Returns `false`, and counts nothing, only when
    /// nothing is in flight.
    pub fn finish(&mut self) -> (counted: bool)
        ensures
            counted == (old(self)@ > 0),
            final(self)@ == after_event(old(self)@, TaskEvent::Completed),
            counted ==> final(self)@ == old(self)@ - 1,
    {
        if self.in_flight > 0 {
            self.in_flight = self.in_flight - 1;
            true
        } else {
            false
        }
    }

    /// Applies `event` to the count.
    pub fn record(&mut self, event: TaskEvent)
        ensures
            final(self)@ == after_event(old(self)@, event),
    {
        match event {
            TaskEvent::Started => {
                self.begin();
            },
            TaskEvent::Completed => {
                self.finish();
            },
        }
    }

    /// Applies a whole history to a fresh tracker and returns the count it ends with.
    pub fn replay(events: &Vec<TaskEvent>) -> (tracker: Self)
        ensures
            tracker@ == in_flight_after(events@),
    {
        let mut tracker = ConcurrencyTracker::new();
        let mut at: usize = 0;
        assert(events@.take(0) =~= Seq::<TaskEvent>::empty());
        while at < events.len()
            invariant
                at <= events@.len(),
                tracker@ == in_flight_after(events@.take(at as int)),
            decreases events@.len() - at,
        {
            tracker.record(events[at]);
            proof {
                let longer = events@.take(at + 1);
                assert(longer.drop_last() =~= events@.take(at as int));
                assert(longer.last() == events@[at as int]);
            }
            at = at + 1;
        }
        assert(events@.take(at as int) =~= events@);
        tracker
    }
}

/// A history and its beginning: what holds of every point of the whole holds
/// of every point of the beginning.
proof fn lemma_history_prefix(events: Seq<TaskEvent>)
    requires
        events.len() > 0,
        is_task_history(events),
    ensures
        is_task_history(events.drop_last()),
        completed(events) <= started(events),
{
    let shorter = events.drop_last();
    assert forall|k: int| 0 <= k <= shorter.len() implies completed(#[trigger] shorter.take(k))
        <= started(shorter.take(k)) by {
        assert(shorter.take(k) =~= events.take(k));
    }
    assert(events.take(events.len() as int) =~= events);
}

/// The count is what has started less what has completed. In particular it is
/// never negative, and it is back at zero once every started task has
/// completed, in whatever order starts and completions were interleaved.
pub proof fn lemma_count_is_outstanding_tasks(events: Seq<TaskEvent>)
    requires
        is_task_history(events),
        started(events) <= usize::MAX,
    ensures
        in_flight_after(events) == started(events) - completed(events),
        in_flight_after(events) >= 0,
        started(events) == completed(events) ==> in_flight_after(events) == 0,
    decreases events.len(),
{
    if events.len() > 0 {
        lemma_history_prefix(events);
        lemma_count_is_outstanding_tasks(events.drop_last());
    } else {
        assert(events.take(0) =~= events);
    }
}

/// The same holds at every point of a history, not only at its end.
pub proof fn lemma_count_at_every_point(events: Seq<TaskEvent>, point: int)
    requires
        is_task_history(events),
        started(events) <= usize::MAX,
        0 <= point <= events.len(),
    ensures
        in_flight_after(events.take(point)) == started(events.take(point)) - completed(
            events.take(point),
        ),
    decreases events.len() - point,
{
    if point == events.len() {
        assert(events.take(point) =~= events);
        lemma_count_is_outstanding_tasks(events);
    } else {
        lemma_history_prefix(events);
        let shorter = events.drop_last();
        assert(shorter.take(point) =~= events.take(point));
        lemma_count_at_every_point(shorter, point);
    }
}

} // verus!
