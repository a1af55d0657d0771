//! The logical clock: a counter that a node advances on every local send and
//! merges with the timestamp of every message it receives.

use vstd::prelude::*;

verus! {

/// A Lamport clock. `time` starts at zero and never moves backwards.
pub struct LamportClock {
    pub time: u64,
}

/// The time that follows `t` on a local event: `t + 1`, held at `u64::MAX`
/// once the counter is full.
pub open spec fn ticked(t: u64) -> u64 {
    if t < u64::MAX {
        (t + 1) as u64
    } else {
        u64::MAX
    }
}

/// The larger of two times.
pub open spec fn later(a: u64, b: u64) -> u64 {
    if a >= b {
        a
    } else {
        b
    }
}

/// The time that follows `t` when a message stamped `other` arrives:
/// one past the later of the two, held at `u64::MAX`.
pub open spec fn merged(t: u64, other: u64) -> u64 {
    ticked(later(t, other))
}

/// One change a clock can undergo.
pub enum ClockEvent {
    /// A local event.
    Tick,
    /// The arrival of a message carrying this time.
    Merge(u64),
}

/// The time that follows `t` on one event.
pub open spec fn stepped(t: u64, event: ClockEvent) -> u64 {
    match event {
        ClockEvent::Tick => ticked(t),
        ClockEvent::Merge(other) => merged(t, other),
    }
}

/// The time of a clock that started at `t` and then saw `events` in order.
pub open spec fn replayed(t: u64, events: Seq<ClockEvent>) -> u64
    decreases events.len(),
{
    if events.len() == 0 {
        t
    } else {
        stepped(replayed(t, events.drop_last()), events.last())
    }
}

impl Default for LamportClock {
    fn default() -> (clock: Self)
        ensures
            clock.time == 0,
    {
        LamportClock { time: 0 }
    }
}

impl LamportClock {
    /// Records a local event.
    pub fn tick(&mut self)
        ensures
            final(self).time == ticked(old(self).time),
            final(self).time >= old(self).time,
    {
        self.time = self.time.saturating_add(1);
    }

    /// Records the arrival of a message stamped `other_time`.
    pub fn update(&mut self, other_time: u64)
        ensures
            final(self).time == merged(old(self).time, other_time),
            final(self).time >= old(self).time,
    {
        let latest: u64 = if self.time >= other_time {
            self.time
        } else {
            other_time
        };
        self.time = latest.saturating_add(1);
    }
}

/// No single event moves a clock backwards: below the ceiling every event
/// moves it strictly forwards, and a full clock stays full instead of
/// wrapping round.
pub proof fn lemma_step_never_decreases(t: u64, event: ClockEvent)
    ensures
        stepped(t, event) >= t,
        t < u64::MAX ==> stepped(t, event) > t,
        t == u64::MAX ==> stepped(t, event) == u64::MAX,
{
}

/// Over any run of ticks and merges the time never decreases: the time
/// after the first `i` events is at most the time after the first `j`,
/// for every `i <= j`.
pub proof fn lemma_time_never_decreases(t: u64, events: Seq<ClockEvent>, i: int, j: int)
    requires
        0 <= i <= j <= events.len(),
    ensures
        replayed(t, events.take(i)) <= replayed(t, events.take(j)),
    decreases j - i,
{
    if i < j {
        lemma_time_never_decreases(t, events, i, j - 1);
        assert(events.take(j).drop_last() =~= events.take(j - 1));
        lemma_step_never_decreases(replayed(t, events.take(j - 1)), events.take(j).last());
    }
}

/// Causality: a message stamped `sent` below the ceiling leaves every
/// receiver, whatever its own time was, strictly later than `sent`.
pub proof fn lemma_receive_is_after_send(receiver: u64, sent: u64)
    requires
        sent < u64::MAX,
    ensures
        merged(receiver, sent) > sent,
{
}

} // verus!
