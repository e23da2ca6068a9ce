use vstd::prelude::*;

use crate::memory::Memory;

verus! {

/// What happens when an event comes due.
#[derive(Clone, Copy, Debug, PartialEq, Eq, Structural)]
pub enum EventType {
    EndFrame,
    HVisibleEnd,
    HBlankEnd,
    VVisibleEnd,
    VBlankEnd,
}

/// An event due at a bus-clock timestamp.
#[derive(Clone, Copy, Debug, PartialEq, Eq, Structural)]
pub struct Event {
    pub timestamp: usize,
    pub event_type: EventType,
}

impl Event {
    pub open spec fn new_spec(timestamp: usize, event_type: EventType) -> Event {
        Event { timestamp, event_type }
    }

    pub fn new(timestamp: usize, event_type: EventType) -> (r: Event)
        ensures
            r == Event::new_spec(timestamp, event_type),
    {
        Event { timestamp, event_type }
    }

    /// Moves the event later by `timestamp` cycles, saturating.
    pub fn add_timestamp(&mut self, timestamp: usize)
        ensures
            final(self).event_type == old(self).event_type,
            final(self).timestamp == (if old(self).timestamp + timestamp > usize::MAX {
                usize::MAX
            } else {
                (old(self).timestamp + timestamp) as usize
            }),
    {
        self.timestamp = self.timestamp.saturating_add(timestamp);
    }
}

/// An event moved later by `now` cycles, saturating.
pub open spec fn due_event(event: Event, now: usize) -> Event {
    Event {
        timestamp: if event.timestamp + now > usize::MAX { usize::MAX } else { (event.timestamp + now) as usize },
        event_type: event.event_type,
    }
}

/// Timestamps in order, earliest first.
pub open spec fn sorted(events: Seq<Event>) -> bool {
    forall|i: int, j: int| 0 <= i <= j < events.len() ==> #[trigger] events[i].timestamp <= #[trigger] events[j].timestamp
}

/// The pending events, earliest first; events due at the same time leave in
/// the order in which they were scheduled.
pub struct Scheduler {
    queue: Vec<Event>,
}

impl Scheduler {
    pub closed spec fn events(&self) -> Seq<Event> {
        self.queue@
    }

    pub open spec fn wf(&self) -> bool {
        sorted(self.events())
    }

    pub fn new() -> (r: Self)
        ensures
            r.wf(),
            r.events().len() == 0,
    {
        Scheduler { queue: Vec::new() }
    }

    /// Adds an event at its own timestamp, after the pending events due no later.
    pub fn schedule(&mut self, event: Event)
        requires
            old(self).wf(),
        ensures
            final(self).wf(),
            exists|k: int|
                0 <= k <= old(self).events().len() && final(self).events() == old(self).events().insert(k, event)
                    && (forall|i: int| 0 <= i < k ==> #[trigger] old(self).events()[i].timestamp <= event.timestamp)
                    && (forall|i: int| k <= i < old(self).events().len() ==> event.timestamp
                        < #[trigger] old(self).events()[i].timestamp),
    {
        let mut k: usize = 0;
        while k < self.queue.len() && self.queue[k].timestamp <= event.timestamp
            invariant
                k <= self.queue@.len(),
                self.wf(),
                forall|i: int| 0 <= i < k ==> #[trigger] self.queue@[i].timestamp <= event.timestamp,
            decreases self.queue@.len() - k,
        {
            k += 1;
        }
        let ghost before = self.queue@;
        self.queue.insert(k, event);
        assert forall|i: int, j: int| 0 <= i <= j < self.queue@.len() implies #[trigger] self.queue@[i].timestamp
            <= #[trigger] self.queue@[j].timestamp by {
            if i < k && j > k {
                assert(before[i].timestamp <= before[j - 1].timestamp);
            } else if i == k && j > k {
                assert(event.timestamp < before[j - 1].timestamp);
            } else if i > k {
                assert(before[i - 1].timestamp <= before[j - 1].timestamp);
            } else if j < k {
                assert(before[i].timestamp <= before[j].timestamp);
            }
        }
    }

    /// Adds an event whose timestamp counts from the bus clock's present time.
    pub fn schedule_from_now(&mut self, event: Event, memory: &Memory)
        requires
            old(self).wf(),
        ensures
            final(self).wf(),
            exists|k: int|
                0 <= k <= old(self).events().len() && final(self).events() == old(self).events().insert(
                    k,
                    due_event(event, memory.clock_cycles()),
                ),
    {
        let mut due = event;
        due.add_timestamp(self.timestamp(memory));
        assert(due == (Event { timestamp: due.timestamp, event_type: event.event_type }));
        let ghost pending = self.events();
        self.schedule(due);
        proof {
            let k = choose|k: int|
                0 <= k <= pending.len() && self.events() == pending.insert(k, due) && (forall|i: int|
                    0 <= i < k ==> #[trigger] pending[i].timestamp <= due.timestamp) && (forall|i: int|
                    k <= i < pending.len() ==> due.timestamp < #[trigger] pending[i].timestamp);
            assert(due == due_event(event, memory.clock_cycles()));
            assert(pending == old(self).events());
            assert(self.events() == old(self).events().insert(k, due_event(event, memory.clock_cycles())));
        }
    }

    /// The number of pending events.
    pub fn events_len(&self) -> (r: usize)
        ensures
            r == self.events().len(),
    {
        self.queue.len()
    }

    /// The present time: the bus clock.
    pub fn timestamp(&self, memory: &Memory) -> (r: usize)
        ensures
            r == memory.clock_cycles(),
    {
        memory.get_clock_cycles()
    }

    /// Cycles until the earliest pending event is due (0 if it is due
    /// already); `None` when nothing is pending.
    pub fn time_until_next_event(&self, memory: &Memory) -> (r: Option<usize>)
        requires
            self.wf(),
        ensures
            r == (if self.events().len() == 0 {
                None
            } else if self.events()[0].timestamp <= memory.clock_cycles() {
                Some(0usize)
            } else {
                Some((self.events()[0].timestamp - memory.clock_cycles()) as usize)
            }),
    {
        if self.queue.len() == 0 {
            None
        } else {
            Some(self.queue[0].timestamp.saturating_sub(memory.get_clock_cycles()))
        }
    }

    /// Removes and returns the earliest pending event if it is due.
    pub fn pop(&mut self, memory: &Memory) -> (r: Option<Event>)
        requires
            old(self).wf(),
        ensures
            final(self).wf(),
            if old(self).events().len() > 0 && old(self).events()[0].timestamp <= memory.clock_cycles() {
                r == Some(old(self).events()[0]) && final(self).events() == old(self).events().subrange(
                    1,
                    old(self).events().len() as int,
                )
            } else {
                r is None && final(self).events() == old(self).events()
            },
    {
        if self.queue.len() > 0 && self.queue[0].timestamp <= memory.get_clock_cycles() {
            let e = self.queue.remove(0);
            assert forall|i: int, j: int| 0 <= i <= j < self.queue@.len() implies #[trigger] self.queue@[i].timestamp
                <= #[trigger] self.queue@[j].timestamp by {
                assert(old(self).queue@[i + 1].timestamp <= old(self).queue@[j + 1].timestamp);
            }
            Some(e)
        } else {
            None
        }
    }
}

} // verus!
