//! An event queued for execution, with its firing time and insertion
//! number.

use crate::event::Event;
use vstd::prelude::*;

verus! {

/// An event together with the simulated instant it fires at and its
/// insertion number, which breaks ties between events that fire at
/// the same instant: the one inserted earlier executes first.
#[derive(Debug, Clone, Copy)]
pub struct ScheduledEvent {
    pub event: Event,
    pub time: u64,
    pub number: u64,
}

/// `a` executes strictly before `b`: earlier firing time, or the same
/// time but inserted earlier.
pub open spec fn sched_before(a: ScheduledEvent, b: ScheduledEvent) -> bool {
    a.time < b.time || (a.time == b.time && a.number < b.number)
}

impl ScheduledEvent {
    pub fn new(event: Event, time: u64, number: u64) -> (r: ScheduledEvent)
        ensures
            r.event == event,
            r.time == time,
            r.number == number,
    {
        ScheduledEvent { event, time, number }
    }

    /// The execution time of the event.
    pub fn time(&self) -> (r: u64)
        ensures
            r == self.time,
    {
        self.time
    }

    /// The event's insertion number.
    pub fn number(&self) -> (r: u64)
        ensures
            r == self.number,
    {
        self.number
    }
}

} // verus!
