//! Frame timing and accumulating timers; durations are counted in nanoseconds.

use vstd::prelude::*;

use std::time::{Duration, Instant};

verus! {

#[verifier::external_type_specification]
#[verifier::external_body]
pub struct ExInstant(Instant);

/// Relies on `Instant::now`: a reading of the monotonic clock; nothing is known
/// of its value.
pub assume_specification[ Instant::now ]() -> Instant;

/// Relies on `Instant::duration_since`: the time elapsed from `earlier` to
/// `self` (zero when `earlier` is later); it does not panic.
pub assume_specification[ Instant::duration_since ](i: &Instant, earlier: Instant) -> Duration;

/// Relies on `Duration::as_nanos`: the whole length in nanoseconds.
pub assume_specification[ Duration::as_nanos ](d: &Duration) -> u128;

/// Nanoseconds in a second.
pub const NANOS_PER_SECOND: u64 = 1000000000;

/// Frames per second for a frame of `t` nanoseconds, rounded to the nearest
/// integer (halves up); the largest `usize` for an empty frame.
pub open spec fn fps_of(t: int) -> int {
    if t == 0 {
        usize::MAX as int
    } else if 2 * (NANOS_PER_SECOND as int % t) >= t {
        NANOS_PER_SECOND as int / t + 1
    } else {
        NANOS_PER_SECOND as int / t
    }
}

/// Time elapsed between the last two updates.
#[derive(Clone, Copy)]
pub struct DeltaTime {
    time: u64,
    last_time: Instant,
}

impl DeltaTime {
    /// The measured frame time, in nanoseconds.
    pub closed spec fn nanos(&self) -> int {
        self.time as int
    }

    /// A measurement starting now, with an empty frame time.
    pub fn new() -> (r: DeltaTime)
        ensures
            r.nanos() == 0,
    {
        DeltaTime { time: 0, last_time: Instant::now() }
    }

    /// Sets the frame time to the time elapsed since the previous update (or
    /// creation), saturated at the largest `u64`, and restarts the measurement.
    pub fn update(&mut self) {
        let now = Instant::now();
        let elapsed = now.duration_since(self.last_time).as_nanos();
        self.record(elapsed, now);
    }

    /// Takes `elapsed` nanoseconds, saturated at the largest `u64`, as the frame
    /// time, and measures the next frame from `now`.
    pub fn record(&mut self, elapsed: u128, now: Instant)
        ensures
            final(self).nanos() == if elapsed > u64::MAX as u128 {
                u64::MAX as int
            } else {
                elapsed as int
            },
    {
        self.time = if elapsed > u64::MAX as u128 {
            u64::MAX
        } else {
            elapsed as u64
        };
        self.last_time = now;
    }

    /// The frame time in nanoseconds.
    pub fn get(&self) -> (r: u64)
        ensures
            r == self.nanos(),
    {
        self.time
    }

    /// Frames per second at the current frame time, rounded to the nearest integer.
    pub fn fps(&self) -> (r: usize)
        ensures
            r == fps_of(self.nanos()),
    {
        if self.time == 0 {
            return usize::MAX;
        }
        let q = NANOS_PER_SECOND / self.time;
        let rem = NANOS_PER_SECOND % self.time;
        proof {
            assert(rem <= NANOS_PER_SECOND) by (nonlinear_arith)
                requires
                    rem == NANOS_PER_SECOND % self.time,
                    self.time > 0,
            ;
        }
        let rounded = if 2 * rem >= self.time {
            q + 1
        } else {
            q
        };
        proof {
            assert(q <= NANOS_PER_SECOND) by (nonlinear_arith)
                requires
                    q == NANOS_PER_SECOND / self.time,
                    self.time > 0,
            ;
        }
        rounded as usize
    }
}

impl Default for DeltaTime {
    fn default() -> (r: DeltaTime)
        ensures
            r.nanos() == 0,
    {
        DeltaTime::new()
    }
}

/// A timer that accumulates elapsed time and reports when a target is reached.
pub struct Timer {
    accumulator: u64,
    target: u64,
    just_finished: bool,
}

impl Timer {
    /// Time accumulated towards the target.
    pub closed spec fn accumulated(&self) -> int {
        self.accumulator as int
    }

    /// The target interval.
    pub closed spec fn target_nanos(&self) -> int {
        self.target as int
    }

    /// Whether the last update reached the target.
    pub closed spec fn finished(&self) -> bool {
        self.just_finished
    }

    /// A timer with nothing accumulated and the given target.
    pub fn new(target: u64) -> (r: Timer)
        ensures
            r.accumulated() == 0,
            r.target_nanos() == target,
            !r.finished(),
    {
        Timer { accumulator: 0, target, just_finished: false }
    }

    /// Accumulates the frame time of `delta_time`, as `update_duration`.
    pub fn update(&mut self, delta_time: DeltaTime)
        ensures
            final(self).target_nanos() == old(self).target_nanos(),
            final(self).finished() == (sum_capped(old(self).accumulated(), delta_time.nanos())
                >= old(self).target_nanos()),
            final(self).accumulated() == if final(self).finished() {
                sum_capped(old(self).accumulated(), delta_time.nanos()) - old(self).target_nanos()
            } else {
                sum_capped(old(self).accumulated(), delta_time.nanos())
            },
    {
        self.update_duration(delta_time.get());
    }

    /// Adds `delta` (saturating at the largest `u64`); the timer has finished when
    /// the sum reaches the target, and then the target is taken off, keeping the
    /// remainder.
    pub fn update_duration(&mut self, delta: u64)
        ensures
            final(self).target_nanos() == old(self).target_nanos(),
            final(self).finished() == (sum_capped(old(self).accumulated(), delta as int)
                >= old(self).target_nanos()),
            final(self).accumulated() == if final(self).finished() {
                sum_capped(old(self).accumulated(), delta as int) - old(self).target_nanos()
            } else {
                sum_capped(old(self).accumulated(), delta as int)
            },
    {
        self.accumulator = self.accumulator.saturating_add(delta);
        self.just_finished = self.accumulator >= self.target;
        if self.just_finished {
            self.accumulator = self.accumulator - self.target;
        }
    }

    /// Changes the target, keeping what was accumulated.
    pub fn set_target(&mut self, target: u64)
        ensures
            final(self).target_nanos() == target,
            final(self).accumulated() == old(self).accumulated(),
            final(self).finished() == old(self).finished(),
    {
        self.target = target;
    }

    /// Drops what was accumulated and the finished flag.
    pub fn reset(&mut self)
        ensures
            final(self).target_nanos() == old(self).target_nanos(),
            final(self).accumulated() == 0,
            !final(self).finished(),
    {
        self.accumulator = 0;
        self.just_finished = false;
    }

    /// Whether the last update reached the target.
    pub fn just_finished(&self) -> (r: bool)
        ensures
            r == self.finished(),
    {
        self.just_finished
    }
}

/// What a timer holds, and its target, are `u64` values.
pub proof fn lemma_timer_range(t: Timer)
    ensures
        0 <= t.accumulated() <= u64::MAX,
        0 <= t.target_nanos() <= u64::MAX,
{
}

/// `a + b`, saturated at the largest `u64`.
pub open spec fn sum_capped(a: int, b: int) -> int {
    if a + b > u64::MAX {
        u64::MAX as int
    } else {
        a + b
    }
}

impl Default for Timer {
    fn default() -> (r: Timer)
        ensures
            r.accumulated() == 0,
            r.target_nanos() == 0,
            !r.finished(),
    {
        Timer::new(0)
    }
}

} // verus!
