use vstd::prelude::*;

verus! {

/// Milliseconds in a second.
pub const MILLIS_PER_SECOND: u64 = 1000;

/// Timer decrements per second.
pub const TIMER_RATE: u64 = 60;

/// Instructions per second when no other rate is chosen.
pub const DEFAULT_INSTRUCTION_RATE: u64 = 700;

/// What is due at one poll of the clock.
#[derive(PartialEq, Eq, Structural, Clone, Copy, Debug)]
pub struct Tick {
    /// One processor step is due.
    pub run_cpu: bool,
    /// One timer decrement is due.
    pub tick_timers: bool,
}

/// Milliseconds from `since` to `now`; zero when `now` is earlier.
pub open spec fn elapsed(since: u64, now: u64) -> int {
    if now >= since {
        now - since
    } else {
        0
    }
}

/// The two independent periodic actions: a processor step every `cpu_period_ms` and a
/// timer decrement every `timer_period_ms`, measured on a millisecond clock that the
/// caller reads.
#[derive(Clone, Copy, Debug)]
pub struct Clock {
    pub cpu_period_ms: u64,
    pub timer_period_ms: u64,
    /// When the last processor step was due.
    pub last_cpu_ms: u64,
    /// When the last timer decrement was due.
    pub last_timer_ms: u64,
}

impl Clock {
    /// A clock for `instructions_per_second` steps and 60 timer decrements per second, in
    /// whole milliseconds, started at `now_ms`.
    pub fn new(instructions_per_second: u64, now_ms: u64) -> (r: Self)
        requires
            instructions_per_second > 0,
        ensures
            r.cpu_period_ms == MILLIS_PER_SECOND / instructions_per_second,
            r.timer_period_ms == MILLIS_PER_SECOND / TIMER_RATE,
            r.last_cpu_ms == now_ms,
            r.last_timer_ms == now_ms,
    {
        Clock {
            cpu_period_ms: MILLIS_PER_SECOND / instructions_per_second,
            timer_period_ms: MILLIS_PER_SECOND / TIMER_RATE,
            last_cpu_ms: now_ms,
            last_timer_ms: now_ms,
        }
    }

    /// Reports which actions are due at `now_ms`, each independently of the other, and
    /// restarts the period of each one that is.
    pub fn poll(&mut self, now_ms: u64) -> (r: Tick)
        ensures
            r.run_cpu == (elapsed(old(self).last_cpu_ms, now_ms) >= old(self).cpu_period_ms),
            r.tick_timers == (elapsed(old(self).last_timer_ms, now_ms)
                >= old(self).timer_period_ms),
            final(self).last_cpu_ms == if r.run_cpu {
                now_ms
            } else {
                old(self).last_cpu_ms
            },
            final(self).last_timer_ms == if r.tick_timers {
                now_ms
            } else {
                old(self).last_timer_ms
            },
            final(self).cpu_period_ms == old(self).cpu_period_ms,
            final(self).timer_period_ms == old(self).timer_period_ms,
    {
        let since_cpu = if now_ms >= self.last_cpu_ms {
            now_ms - self.last_cpu_ms
        } else {
            0
        };
        let since_timer = if now_ms >= self.last_timer_ms {
            now_ms - self.last_timer_ms
        } else {
            0
        };
        let run_cpu = since_cpu >= self.cpu_period_ms;
        let tick_timers = since_timer >= self.timer_period_ms;
        if run_cpu {
            self.last_cpu_ms = now_ms;
        }
        if tick_timers {
            self.last_timer_ms = now_ms;
        }
        Tick { run_cpu, tick_timers }
    }
}

} // verus!
