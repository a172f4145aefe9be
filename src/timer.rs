use vstd::prelude::*;

verus! {

/// A one-shot countdown in milliseconds: it fills up to `duration` and then
/// stays finished until it is reset.
#[derive(Clone, Copy, Debug, PartialEq, Eq, Structural)]
pub struct Timer {
    pub duration: u64,
    pub elapsed: u64,
}

impl Timer {
    pub open spec fn wf(&self) -> bool {
        self.elapsed <= self.duration
    }

    pub open spec fn spec_finished(&self) -> bool {
        self.elapsed >= self.duration
    }

    /// The timer after `delta` more milliseconds.
    pub open spec fn spec_ticked(self, delta: int) -> Timer {
        Timer {
            elapsed: vstd::math::min(self.duration as int, self.elapsed + delta) as u64,
            ..self
        }
    }

    /// A timer that starts from zero.
    pub fn new(duration: u64) -> (r: Timer)
        ensures
            r.wf(),
            r.duration == duration,
            r.elapsed == 0,
    {
        Timer { duration, elapsed: 0 }
    }

    /// A timer that is already finished.
    pub fn new_finished(duration: u64) -> (r: Timer)
        ensures
            r.wf(),
            r.duration == duration,
            r.elapsed == duration,
            r.spec_finished(),
    {
        Timer { duration, elapsed: duration }
    }

    /// Advances the timer by `delta` milliseconds, stopping at its duration.
    pub fn tick(&mut self, delta: u64)
        requires
            old(self).wf(),
        ensures
            final(self).wf(),
            *final(self) == old(self).spec_ticked(delta as int),
    {
        if delta >= self.duration - self.elapsed {
            self.elapsed = self.duration;
        } else {
            self.elapsed = self.elapsed + delta;
        }
    }

    pub fn finished(&self) -> (r: bool)
        ensures
            r == self.spec_finished(),
    {
        self.elapsed >= self.duration
    }

    /// Starts the countdown again from zero.
    pub fn reset(&mut self)
        ensures
            final(self).wf(),
            final(self).duration == old(self).duration,
            final(self).elapsed == 0,
    {
        self.elapsed = 0;
    }
}

} // verus!
