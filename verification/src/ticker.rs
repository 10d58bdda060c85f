//! The timing decisions of the event producer: how long to wait for input,
//! and when the heartbeat is due. Times are counts of one unit of the
//! caller's choice, read off a clock that does not run backwards.

use vstd::prelude::*;

verus! {

/// The state of the heartbeat: its interval, and when it last beat.
#[derive(Clone, Copy, Debug, PartialEq, Eq)]
pub struct Heartbeat {
    pub tick_rate: u64,
    pub last_tick: u64,
}

impl Heartbeat {
    /// The time that has passed since the last beat; none where the clock
    /// reads earlier than the beat.
    pub open spec fn elapsed(self, now: u64) -> int {
        if now >= self.last_tick {
            now - self.last_tick
        } else {
            0
        }
    }

    /// How long to wait for input: what is left of the interval, and
    /// nothing once it has passed.
    pub open spec fn remaining(self, now: u64) -> int {
        if self.elapsed(now) < self.tick_rate {
            self.tick_rate - self.elapsed(now)
        } else {
            0
        }
    }

    /// Whether the interval has fully passed since the last beat.
    pub open spec fn due(self, now: u64) -> bool {
        self.elapsed(now) >= self.tick_rate
    }

    /// A heartbeat of the given interval whose last beat was at `now`.
    pub fn new(tick_rate: u64, now: u64) -> (heartbeat: Heartbeat)
        ensures
            heartbeat.tick_rate == tick_rate,
            heartbeat.last_tick == now,
    {
        Heartbeat { tick_rate, last_tick: now }
    }

    /// The longest time to wait for an input event.
    pub fn timeout(&self, now: u64) -> (wait: u64)
        ensures
            wait == self.remaining(now),
    {
        let elapsed = if now >= self.last_tick {
            now - self.last_tick
        } else {
            0
        };
        if elapsed < self.tick_rate {
            self.tick_rate - elapsed
        } else {
            0
        }
    }

    /// Whether a heartbeat has to be sent now.
    pub fn is_due(&self, now: u64) -> (due: bool)
        ensures
            due == self.due(now),
    {
        let elapsed = if now >= self.last_tick {
            now - self.last_tick
        } else {
            0
        };
        elapsed >= self.tick_rate
    }

    /// Starts the interval anew after a heartbeat that was sent at `now`.
    pub fn restart(&mut self, now: u64)
        ensures
            final(self).last_tick == now,
            final(self).tick_rate == old(self).tick_rate,
    {
        self.last_tick = now;
    }
}

/// The producer never spins: at any time either a heartbeat is due or the
/// wait for input is longer than nothing, and never both.
pub proof fn lemma_due_or_waiting(heartbeat: Heartbeat, now: u64)
    ensures
        heartbeat.due(now) <==> heartbeat.remaining(now) == 0,
{
}

/// The heartbeat is steady: once the wait has passed on a clock that has
/// not run backwards, a heartbeat is due, and it was not due any earlier.
pub proof fn lemma_due_after_wait(heartbeat: Heartbeat, now: u64, later: u64)
    requires
        heartbeat.last_tick <= now <= later,
    ensures
        heartbeat.due(later) <==> later - now >= heartbeat.remaining(now),
{
}

/// After a restart the full interval lies ahead.
pub proof fn lemma_restart_waits_full_interval(heartbeat: Heartbeat, now: u64)
    ensures
        (Heartbeat { last_tick: now, ..heartbeat }).remaining(now) == heartbeat.tick_rate,
{
}

} // verus!
