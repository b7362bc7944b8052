//! A plain-data countdown clock. Timers never fire callbacks: the tick
//! loop advances them explicitly and reads `just_finished` afterwards.

use vstd::prelude::*;

verus! {

/// A non-repeating timer. `elapsed_ms` never exceeds `duration_ms`, and
/// `just_finished` reports whether the most recent `tick` call was the one
/// that reached the duration.
#[derive(Clone, Copy, PartialEq, Eq, Structural, Debug)]
pub struct Timer {
    pub duration_ms: u64,
    pub elapsed_ms: u64,
    pub paused: bool,
    pub just_finished: bool,
}

impl Timer {
    /// The timer has reached its duration.
    pub open spec fn spec_finished(self) -> bool {
        self.elapsed_ms >= self.duration_ms
    }

    pub open spec fn wf(self) -> bool {
        self.elapsed_ms <= self.duration_ms
    }

    /// The state a timer has after advancing by `dt_ms` milliseconds:
    /// paused timers stand still, running timers accumulate elapsed time
    /// capped at the duration.
    pub open spec fn spec_tick(self, dt_ms: u64) -> Timer {
        if self.paused {
            Timer { just_finished: false, ..self }
        } else {
            let advanced = if self.elapsed_ms + dt_ms >= self.duration_ms {
                self.duration_ms
            } else {
                (self.elapsed_ms + dt_ms) as u64
            };
            Timer {
                elapsed_ms: advanced,
                just_finished: !self.spec_finished() && advanced >= self.duration_ms,
                ..self
            }
        }
    }

    pub fn new(duration_ms: u64) -> (r: Timer)
        ensures
            r == (Timer { duration_ms, elapsed_ms: 0, paused: false, just_finished: false }),
            r.wf(),
    {
        Timer { duration_ms, elapsed_ms: 0, paused: false, just_finished: false }
    }

    pub fn finished(&self) -> (r: bool)
        ensures
            r == self.spec_finished(),
    {
        self.elapsed_ms >= self.duration_ms
    }

    /// Advance the timer by `dt_ms` milliseconds.
    pub fn tick(&mut self, dt_ms: u64)
        requires
            old(self).wf(),
        ensures
            *final(self) == old(self).spec_tick(dt_ms),
            final(self).wf(),
    {
        if self.paused {
            self.just_finished = false;
        } else {
            let was_finished = self.elapsed_ms >= self.duration_ms;
            if dt_ms >= self.duration_ms - self.elapsed_ms {
                self.elapsed_ms = self.duration_ms;
            } else {
                self.elapsed_ms = self.elapsed_ms + dt_ms;
            }
            self.just_finished = !was_finished && self.elapsed_ms >= self.duration_ms;
        }
    }

    /// Rewind to zero elapsed time; the paused state is kept.
    pub fn reset(&mut self)
        ensures
            *final(self) == (Timer { elapsed_ms: 0, just_finished: false, ..*old(self) }),
            final(self).wf(),
    {
        self.elapsed_ms = 0;
        self.just_finished = false;
    }

    pub fn pause(&mut self)
        ensures
            *final(self) == (Timer { paused: true, ..*old(self) }),
    {
        self.paused = true;
    }

    pub fn unpause(&mut self)
        ensures
            *final(self) == (Timer { paused: false, ..*old(self) }),
    {
        self.paused = false;
    }
}

} // verus!
