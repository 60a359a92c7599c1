//! The discrete-event scheduler: a priority queue of scheduled events
//! ordered by `(fire_time, insertion number)`, and the simulated
//! clock, which only ever moves forward.

use crate::event::Event;
use crate::scheduled_event::ScheduledEvent;
use crate::scheduled_event::sched_before;
use vstd::multiset::Multiset;
use vstd::prelude::*;

verus! {

/// The firing time of an event scheduled `delay` after `now`;
/// saturates at the largest representable instant.
pub open spec fn fire_time_of(now: u64, delay: u64) -> u64 {
    if now + delay > u64::MAX {
        u64::MAX
    } else {
        (now + delay) as u64
    }
}

/// The scheduler. The queue is kept sorted so that the event to pop
/// next (smallest firing time, insertion number breaking ties) sits
/// at the back.
#[derive(Debug)]
pub struct Simulator {
    /// Pending events, sorted by execution priority with the next one
    /// last.
    pub event_queue: Vec<ScheduledEvent>,
    /// The simulation execution time of the most recent event.
    pub simulation_time: u64,
    /// How many events have been inserted so far (executed or not).
    pub inserted_events: u64,
}

impl Simulator {
    /// Scheduler invariant: the queue is strictly sorted with the
    /// next event last, no queued event fires in the past, and every
    /// queued event's number was issued by the insertion counter.
    pub open spec fn wf(&self) -> bool {
        &&& forall|i: int, j: int|
            0 <= i < j < self.event_queue@.len() ==> sched_before(
                #[trigger] self.event_queue@[j],
                #[trigger] self.event_queue@[i],
            )
        &&& forall|i: int|
            0 <= i < self.event_queue@.len() ==> (#[trigger] self.event_queue@[i]).time
                >= self.simulation_time
        &&& forall|i: int|
            0 <= i < self.event_queue@.len() ==> (#[trigger] self.event_queue@[i]).number
                < self.inserted_events
    }

    /// The pending events as a multiset.
    pub open spec fn queue_multiset(&self) -> Multiset<ScheduledEvent> {
        self.event_queue@.to_multiset()
    }

    pub fn new() -> (r: Simulator)
        ensures
            r.wf(),
            r.event_queue@.len() == 0,
            r.simulation_time == 0,
            r.inserted_events == 0,
    {
        Simulator { event_queue: Vec::new(), simulation_time: 0, inserted_events: 0 }
    }

    /// Check if more events exist in the event queue to be simulated.
    pub fn is_there_more_events(&self) -> (r: bool)
        ensures
            r == (self.event_queue@.len() > 0),
    {
        self.event_queue.len() > 0
    }

    /// The next event to execute, without executing it.
    pub fn peek_event(&self) -> (r: Option<&ScheduledEvent>)
        ensures
            match r {
                None => self.event_queue@.len() == 0,
                Some(se) => self.event_queue@.len() > 0 && *se == self.event_queue@.last(),
            },
    {
        if self.event_queue.len() == 0 {
            return None;
        }
        Some(&self.event_queue[self.event_queue.len() - 1])
    }

    /// Inserts a new event, to fire `remaining_time_to_execution`
    /// after the current simulated instant. A zero delay is permitted
    /// and common: the event then fires at the current time but after
    /// everything already scheduled for that time.
    pub fn put_event(&mut self, event: Event, remaining_time_to_execution: u64)
        requires
            old(self).wf(),
            old(self).inserted_events < u64::MAX,
        ensures
            final(self).wf(),
            final(self).simulation_time == old(self).simulation_time,
            final(self).inserted_events == old(self).inserted_events + 1,
            final(self).event_queue@.len() == old(self).event_queue@.len() + 1,
            final(self).queue_multiset() == old(self).queue_multiset().insert(
                ScheduledEvent {
                    event,
                    time: fire_time_of(old(self).simulation_time, remaining_time_to_execution),
                    number: old(self).inserted_events,
                },
            ),
    {
        let time: u64 = if remaining_time_to_execution > u64::MAX - self.simulation_time {
            u64::MAX
        } else {
            self.simulation_time + remaining_time_to_execution
        };
        let s_event = ScheduledEvent::new(event, time, self.inserted_events);
        let ghost q0 = self.event_queue@;

        // Binary search for the insertion point: everything before it
        // executes after the new event, everything from it on executes
        // before.
        let mut lo: usize = 0;
        let mut hi: usize = self.event_queue.len();
        while lo < hi
            invariant
                0 <= lo <= hi <= self.event_queue@.len(),
                self.event_queue@ == q0,
                forall|i: int, j: int|
                    0 <= i < j < q0.len() ==> sched_before(#[trigger] q0[j], #[trigger] q0[i]),
                s_event.time == time,
                s_event.number == self.inserted_events,
                forall|i: int| 0 <= i < lo ==> sched_before(s_event, #[trigger] q0[i]),
                forall|i: int| hi <= i < q0.len() ==> sched_before(#[trigger] q0[i], s_event),
                forall|i: int| 0 <= i < q0.len() ==> (#[trigger] q0[i]).number
                    < self.inserted_events,
            decreases hi - lo,
        {
            let mid = lo + (hi - lo) / 2;
            let cur = &self.event_queue[mid];
            let new_first = s_event.time < cur.time || (s_event.time == cur.time && s_event.number
                < cur.number);
            if new_first {
                proof {
                    assert forall|i: int| 0 <= i < mid + 1 implies sched_before(
                        s_event,
                        #[trigger] q0[i],
                    ) by {
                        if i < mid {
                            assert(sched_before(q0[mid as int], q0[i]));
                        }
                    }
                }
                lo = mid + 1;
            } else {
                proof {
                    assert(q0[mid as int].number < s_event.number);
                    assert(sched_before(q0[mid as int], s_event));
                    assert forall|i: int| mid <= i < q0.len() implies sched_before(
                        #[trigger] q0[i],
                        s_event,
                    ) by {
                        if i > mid {
                            assert(sched_before(q0[i], q0[mid as int]));
                        }
                    }
                }
                hi = mid;
            }
        }
        self.event_queue.insert(lo, s_event);
        self.inserted_events = self.inserted_events + 1;
        proof {
            let q1 = self.event_queue@;
            assert(q1 == q0.insert(lo as int, s_event));
            q0.insert_ensures(lo as int, s_event);
            assert forall|i: int, j: int| 0 <= i < j < q1.len() implies sched_before(
                #[trigger] q1[j],
                #[trigger] q1[i],
            ) by {
                if j < lo {
                    assert(q1[i] == q0[i] && q1[j] == q0[j]);
                } else if i > lo {
                    assert(q1[i] == q0[i - 1] && q1[j] == q0[j - 1]);
                } else if i == lo && j > lo {
                    assert(q1[i] == s_event && q1[j] == q0[j - 1]);
                } else if j == lo {
                    assert(q1[j] == s_event && q1[i] == q0[i]);
                } else {
                    assert(i < lo && j > lo);
                    assert(q1[i] == q0[i] && q1[j] == q0[j - 1]);
                    if i < j - 1 {
                        assert(sched_before(q0[j - 1], q0[i]));
                    } else {
                        assert(sched_before(q0[j - 1], s_event));
                        assert(sched_before(s_event, q0[i]));
                    }
                }
            }
            lemma_insert_to_multiset(q0, lo as int, s_event);
        }
    }

    /// Pops the next event and advances the simulated clock to its
    /// firing time; the clock never moves backward, and every event
    /// still queued fires no earlier than the popped one.
    pub fn pop_next_event(&mut self) -> (r: Option<ScheduledEvent>)
        requires
            old(self).wf(),
        ensures
            final(self).wf(),
            final(self).inserted_events == old(self).inserted_events,
            match r {
                None => {
                    &&& old(self).event_queue@.len() == 0
                    &&& final(self).event_queue@ == old(self).event_queue@
                    &&& final(self).simulation_time == old(self).simulation_time
                },
                Some(se) => {
                    &&& old(self).event_queue@.len() > 0
                    &&& se == old(self).event_queue@.last()
                    &&& final(self).event_queue@ == old(self).event_queue@.drop_last()
                    &&& final(self).simulation_time == se.time
                    &&& final(self).simulation_time >= old(self).simulation_time
                    &&& forall|i: int|
                        0 <= i < final(self).event_queue@.len() ==> !sched_before(
                            #[trigger] final(self).event_queue@[i],
                            se,
                        )
                },
            },
    {
        match self.event_queue.pop() {
            None => None,
            Some(se) => {
                self.simulation_time = se.time;
                Some(se)
            },
        }
    }

    /// Clears the event queue and restarts the simulated clock.
    pub fn reset(&mut self)
        ensures
            final(self).wf(),
            final(self).event_queue@.len() == 0,
            final(self).simulation_time == 0,
            final(self).inserted_events == old(self).inserted_events,
    {
        self.event_queue.clear();
        self.simulation_time = 0;
    }
}

impl Simulator {
    /// An entry whose insertion number the counter has not yet issued
    /// cannot be in the queue.
    pub proof fn lemma_fresh_number_not_queued(&self, se: ScheduledEvent)
        requires
            self.wf(),
            se.number >= self.inserted_events,
        ensures
            self.queue_multiset().count(se) == 0,
    {
        broadcast use vstd::seq_lib::group_to_multiset_ensures;

        if self.queue_multiset().count(se) > 0 {
            assert(self.event_queue@.contains(se));
            let i = choose|i: int|
                0 <= i < self.event_queue@.len() && self.event_queue@[i] == se;
            assert(self.event_queue@[i].number < self.inserted_events);
        }
    }

    /// In a well-formed scheduler the queue holds no duplicate entry:
    /// the strict execution order separates any two.
    pub proof fn lemma_queue_no_duplicates(&self)
        requires
            self.wf(),
        ensures
            forall|se: ScheduledEvent| #[trigger] self.queue_multiset().count(se) <= 1,
    {
        let q = self.event_queue@;
        assert forall|i: int, j: int| 0 <= i < j < q.len() implies q[i] != q[j] by {
            assert(sched_before(q[j], q[i]));
        }
        q.lemma_multiset_has_no_duplicates();
        assert forall|se: ScheduledEvent| #[trigger] self.queue_multiset().count(se) <= 1 by {
            broadcast use vstd::seq_lib::group_to_multiset_ensures;

            if self.queue_multiset().count(se) > 0 {
                assert(self.queue_multiset().contains(se));
            }
        }
    }
}

/// Dropping the last element of a sequence removes exactly that
/// element from its multiset.
pub proof fn lemma_drop_last_to_multiset(s: Seq<ScheduledEvent>)
    requires
        s.len() > 0,
    ensures
        s.drop_last().to_multiset() == s.to_multiset().remove(s.last()),
{
    broadcast use vstd::seq_lib::group_to_multiset_ensures;

    assert(s.drop_last() =~= s.remove(s.len() - 1));
    assert(s.remove(s.len() - 1).to_multiset() =~= s.to_multiset().remove(s[s.len() - 1]));
}

/// Inserting into a sequence adds exactly that element to its
/// multiset.
pub proof fn lemma_insert_to_multiset(s: Seq<ScheduledEvent>, k: int, x: ScheduledEvent)
    requires
        0 <= k <= s.len(),
    ensures
        s.insert(k, x).to_multiset() == s.to_multiset().insert(x),
{
    broadcast use vstd::seq_lib::group_to_multiset_ensures;

    let t = s.insert(k, x);
    s.insert_ensures(k, x);
    assert(t[k] == x);
    assert(t.remove(k) =~= s);
    assert(t.remove(k).to_multiset() =~= t.to_multiset().remove(x));
    assert(t.to_multiset().contains(x)) by {
        assert(t[k] == x);
        assert(t.contains(x));
    }
    assert(t.to_multiset() =~= t.to_multiset().remove(x).insert(x));
    assert(t.to_multiset() =~= s.to_multiset().insert(x));
}

} // verus!
