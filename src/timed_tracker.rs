use vstd::prelude::*;

verus! {

/// A rate limiter: an action may fire only once more than `interval`
/// milliseconds have passed since the last recorded trigger.
#[derive(Clone, Copy, Debug, PartialEq, Eq, Structural)]
pub struct TimedTracker {
    interval: u64,
    last: u64,
}

impl TimedTracker {
    /// The configured interval, in milliseconds.
    pub closed spec fn interval_ms(&self) -> u64 {
        self.interval
    }

    /// The time of the last trigger (or of construction), in milliseconds.
    pub closed spec fn last_ms(&self) -> u64 {
        self.last
    }

    /// Whether the gated action may fire at time `now`.
    pub open spec fn ready(&self, now: u64) -> bool {
        now as int - self.last_ms() as int > self.interval_ms() as int
    }

    /// The tracker after a trigger at `now`.
    pub closed spec fn tracked_at(t: TimedTracker, now: u64) -> TimedTracker {
        TimedTracker { last: now, ..t }
    }

    /// A tracker with the given interval whose last trigger is `now`.
    pub closed spec fn new_spec(interval: u64, now: u64) -> TimedTracker {
        TimedTracker { interval, last: now }
    }

    /// A tracker with the given interval whose last trigger is `now`.
    pub fn new(interval: u64, now: u64) -> (t: TimedTracker)
        ensures
            t == TimedTracker::new_spec(interval, now),
            t.interval_ms() == interval,
            t.last_ms() == now,
    {
        TimedTracker { interval, last: now }
    }

    /// True iff strictly more than the interval has elapsed since the last trigger.
    pub fn can(&self, now: u64) -> (r: bool)
        ensures
            r == self.ready(now),
    {
        now > self.last && now - self.last > self.interval
    }

    /// Records `now` as the time of the last trigger.
    pub fn track(&mut self, now: u64)
        ensures
            *final(self) == TimedTracker::tracked_at(*old(self), now),
            final(self).interval_ms() == old(self).interval_ms(),
            final(self).last_ms() == now,
    {
        self.last = now;
    }
}

/// Right after construction or a trigger at `now`, the action may not fire;
/// once it may fire, it stays so at every later time until the next trigger.
pub proof fn lemma_cooldown(t: TimedTracker, interval: u64, now: u64, later: u64)
    ensures
        !TimedTracker::new_spec(interval, now).ready(now),
        !TimedTracker::tracked_at(t, now).ready(now),
        TimedTracker::tracked_at(t, now).ready(later) == (later > now + t.interval_ms()),
        t.last_ms() == now ==> !t.ready(now),
        t.ready(now) && now <= later ==> t.ready(later),
        t.last_ms() + t.interval_ms() < later ==> t.ready(later),
{
}

} // verus!
