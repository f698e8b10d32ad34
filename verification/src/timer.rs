use vstd::prelude::*;

verus! {

/// The delay and sound timers, which count down once per frame.
#[derive(Debug)]
pub struct Timer {
    pub dt: u8,
    pub st: u8,
}

/// One countdown step of a timer: down by one, stopping at zero.
pub open spec fn count_down(t: u8) -> u8 {
    if t == 0 {
        0
    } else {
        (t - 1) as u8
    }
}

impl Timer {
    /// Both timers at zero.
    pub fn new() -> (t: Self)
        ensures
            t.dt == 0,
            t.st == 0,
    {
        Timer { dt: 0, st: 0 }
    }

    /// Counts both timers down by one, stopping at zero.
    pub fn tick(&mut self)
        ensures
            final(self).dt == count_down(old(self).dt),
            final(self).st == count_down(old(self).st),
    {
        self.dt = self.dt.saturating_sub(1);
        self.st = self.st.saturating_sub(1);
    }
}

impl Default for Timer {
    fn default() -> (t: Self)
        ensures
            t.dt == 0,
            t.st == 0,
    {
        Timer::new()
    }
}

} // verus!
