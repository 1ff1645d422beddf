use vstd::prelude::*;

verus! {

/// A one-shot timer counted in microseconds. It reports `finished` from the tick on
/// which its elapsed time reaches its duration; the elapsed time then stays there.
#[derive(Clone, Copy, Debug, PartialEq, Eq, Structural)]
pub struct Countdown {
    pub duration: u64,
    pub elapsed: u64,
    pub done: bool,
}

impl Countdown {
    pub open spec fn wf(self) -> bool {
        &&& self.elapsed <= self.duration
        &&& self.done == (self.elapsed >= self.duration) || !self.done && self.elapsed == 0
    }

    pub open spec fn new_spec(duration: u64) -> Countdown {
        Countdown { duration, elapsed: 0, done: false }
    }

    /// A fresh timer of the given duration, not yet ticked.
    pub fn new(duration: u64) -> (r: Countdown)
        ensures
            r == Countdown::new_spec(duration),
            r.wf(),
    {
        Countdown { duration, elapsed: 0, done: false }
    }

    /// Whether the timer ran out on some earlier tick.
    pub fn finished(&self) -> (r: bool)
        ensures
            r == self.done,
    {
        self.done
    }

    /// What one tick of `delta` microseconds makes of the timer.
    pub open spec fn ticked(self, delta: u64) -> Countdown {
        if self.done {
            self
        } else {
            let e = if self.elapsed + delta >= self.duration {
                self.duration
            } else {
                (self.elapsed + delta) as u64
            };
            Countdown { duration: self.duration, elapsed: e, done: e >= self.duration }
        }
    }

    /// Advances the timer by `delta` microseconds.
    pub fn tick(&mut self, delta: u64)
        requires
            old(self).wf(),
        ensures
            *final(self) == old(self).ticked(delta),
            final(self).wf(),
    {
        if !self.done {
            let e = if delta >= self.duration - self.elapsed {
                self.duration
            } else {
                self.elapsed + delta
            };
            self.elapsed = e;
            self.done = e >= self.duration;
        }
    }
}

} // verus!
