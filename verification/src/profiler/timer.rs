//! An accumulating frame timer.
use vstd::prelude::*;

verus! {

#[derive(Clone, Copy)]
pub struct ProfilerTimer {
    pub start_tick: u64,
    pub accumulated: u64,
    pub count: u32,
}

/// The ticks between a start and a stop, counted modulo 2^64 so that a tick
/// counter that wrapped still gives the elapsed time.
pub open spec fn elapsed(start: u64, stop: u64) -> u64 {
    if stop >= start {
        (stop - start) as u64
    } else {
        (stop + 0x1_0000_0000_0000_0000 - start) as u64
    }
}

/// The average measured time, or 0 before any measurement.
pub open spec fn timer_average(t: ProfilerTimer) -> u64 {
    if t.count > 0 {
        (t.accumulated / (t.count as u64)) as u64
    } else {
        0
    }
}

impl ProfilerTimer {
    pub fn new() -> (t: Self)
        ensures
            t == (ProfilerTimer { start_tick: 0, accumulated: 0, count: 0 }),
    {
        ProfilerTimer { start_tick: 0, accumulated: 0, count: 0 }
    }

    pub fn start(&mut self, tick: u64)
        ensures
            *final(self) == (ProfilerTimer { start_tick: tick, ..*old(self) }),
    {
        self.start_tick = tick;
    }

    /// Add the time since the start to the total and count one measurement.
    pub fn stop(&mut self, tick: u64)
        requires
            old(self).accumulated + elapsed(old(self).start_tick, tick) <= u64::MAX,
            old(self).count < u32::MAX,
        ensures
            *final(self) == (ProfilerTimer {
                accumulated: (old(self).accumulated + elapsed(old(self).start_tick, tick)) as u64,
                count: (old(self).count + 1) as u32,
                ..*old(self)
            }),
    {
        self.accumulated += tick.wrapping_sub(self.start_tick);
        self.count += 1;
    }

    pub fn avg(&self) -> (r: u64)
        ensures
            r == timer_average(*self),
    {
        if self.count > 0 {
            self.accumulated / self.count as u64
        } else {
            0
        }
    }

    pub fn reset(&mut self)
        ensures
            *final(self) == (ProfilerTimer { accumulated: 0, count: 0, ..*old(self) }),
    {
        self.accumulated = 0;
        self.count = 0;
    }
}

} // verus!
