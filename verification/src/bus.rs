//! The broadcast bus semantics: a bounded window of retained events, many
//! subscribers each with their own position, and an explicit lag signal a
//! slow subscriber sees exactly once per gap before resuming with the oldest
//! retained event.

use vstd::prelude::*;

use crate::events::DomainEvent;

verus! {

/// What one receive yields: nothing new, a lag signal counting the skipped
/// events, or the position of the next event to read.
#[derive(Debug, Clone, Copy, PartialEq, Eq, Structural)]
pub enum RecvOutcome {
    Empty,
    Lagged(usize),
    Event(usize),
}

/// The bus: everything ever sent, with only the last `capacity` events
/// retained for slow subscribers.
#[derive(Debug)]
pub struct EventBus {
    pub capacity: usize,
    pub events: Vec<DomainEvent>,
}

/// One subscriber's read position into the bus history.
#[derive(Debug, Clone, Copy, PartialEq, Eq, Structural)]
pub struct BusSubscriber {
    pub pos: usize,
}

/// What a receive at the given position yields.
pub open spec fn spec_recv_outcome(len: int, capacity: int, pos: int) -> RecvOutcome {
    if pos >= len {
        RecvOutcome::Empty
    } else if len - pos > capacity {
        RecvOutcome::Lagged(((len - capacity) - pos) as usize)
    } else {
        RecvOutcome::Event(pos as usize)
    }
}

/// Where a receive at the given position leaves the subscriber.
pub open spec fn spec_recv_pos(len: int, capacity: int, pos: int) -> int {
    if pos >= len {
        pos
    } else if len - pos > capacity {
        len - capacity
    } else {
        pos + 1
    }
}

impl EventBus {
    /// A bus retaining up to `capacity` events.
    pub fn new(capacity: usize) -> (r: Self)
        requires
            capacity > 0,
        ensures
            r.capacity == capacity,
            r.events@.len() == 0,
    {
        EventBus { capacity, events: Vec::new() }
    }

    /// A subscriber joining now, which sees only events sent later.
    pub fn subscribe(&self) -> (r: BusSubscriber)
        ensures
            r.pos == self.events@.len(),
    {
        BusSubscriber { pos: self.events.len() }
    }

    /// Publishes one event; the producer never blocks.
    pub fn send(&mut self, event: DomainEvent)
        requires
            old(self).events@.len() < usize::MAX,
        ensures
            final(self).events@ == old(self).events@.push(event),
            final(self).capacity == old(self).capacity,
    {
        self.events.push(event);
    }

    /// One receive: a subscriber behind by more than the retained window is
    /// told exactly how many events it missed and is moved to the oldest
    /// retained event; otherwise it reads the next event in order.
    pub fn recv(&self, subscriber: &mut BusSubscriber) -> (r: RecvOutcome)
        requires
            old(subscriber).pos <= self.events@.len(),
        ensures
            r == spec_recv_outcome(
                self.events@.len() as int,
                self.capacity as int,
                old(subscriber).pos as int,
            ),
            final(subscriber).pos == spec_recv_pos(
                self.events@.len() as int,
                self.capacity as int,
                old(subscriber).pos as int,
            ),
            final(subscriber).pos <= self.events@.len(),
    {
        let len = self.events.len();
        if subscriber.pos >= len {
            RecvOutcome::Empty
        } else if len - subscriber.pos > self.capacity {
            let oldest_retained = len - self.capacity;
            let skipped = oldest_retained - subscriber.pos;
            subscriber.pos = oldest_retained;
            RecvOutcome::Lagged(skipped)
        } else {
            let at = subscriber.pos;
            subscriber.pos = subscriber.pos + 1;
            RecvOutcome::Event(at)
        }
    }

    /// The event a position denotes.
    pub fn event_at(&self, index: usize) -> (r: &DomainEvent)
        requires
            index < self.events@.len(),
        ensures
            *r == self.events@[index as int],
    {
        &self.events[index]
    }
}

/// Subscriber fairness: a subscriber that fell behind by a gap receives the
/// lag signal exactly once — counting exactly the events it missed — and the
/// receive after it (with nothing new sent) is the oldest still-retained
/// event, never a second lag signal.
pub proof fn lemma_lagged_once(len: int, capacity: int, pos: int)
    requires
        capacity > 0,
        0 <= pos,
        len - pos > capacity,
        len <= usize::MAX,
    ensures
        spec_recv_outcome(len, capacity, pos) == RecvOutcome::Lagged(((len - capacity) - pos) as usize),
        spec_recv_pos(len, capacity, pos) == len - capacity,
        spec_recv_outcome(len, capacity, spec_recv_pos(len, capacity, pos)) == RecvOutcome::Event(
            (len - capacity) as usize,
        ),
        spec_recv_pos(len, capacity, spec_recv_pos(len, capacity, pos)) == len - capacity + 1,
{
}

} // verus!
