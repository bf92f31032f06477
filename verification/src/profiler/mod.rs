//! Frame profiler: timers, counters, memory figures and the metrics snapshot.
pub mod counter;
pub mod memory;
pub mod metrics;
pub mod timer;
pub mod trace;

use vstd::prelude::*;
pub use counter::ProfilerCounter;
pub use memory::MemoryStats;
pub use metrics::MetricsSnapshot;
pub use timer::{ProfilerTimer, timer_average};

verus! {

pub struct Profiler {
    pub frame_timer: ProfilerTimer,
    pub event_counter: ProfilerCounter,
    pub dirty_region_counter: ProfilerCounter,
    pub memory_stats: MemoryStats,
}

impl Profiler {
    pub fn new() -> (p: Self)
        ensures
            p.frame_timer == (ProfilerTimer { start_tick: 0, accumulated: 0, count: 0 }),
            p.event_counter.value == 0,
            p.dirty_region_counter.value == 0,
            p.memory_stats.heap_usage == 0,
    {
        Profiler {
            frame_timer: ProfilerTimer::new(),
            event_counter: ProfilerCounter::new(),
            dirty_region_counter: ProfilerCounter::new(),
            memory_stats: MemoryStats::new(),
        }
    }

    /// The current figures: the average frame time, the dirty-region and
    /// event counts, and the heap usage; figures the profiler does not track
    /// are zero.
    pub fn snapshot(&self) -> (s: MetricsSnapshot)
        ensures
            s == (MetricsSnapshot {
                frame_time_avg: timer_average(self.frame_timer),
                draw_calls: 0,
                dirty_regions: self.dirty_region_counter.value,
                flush_time_avg: 0,
                event_dispatch_count: self.event_counter.value,
                heap_usage: self.memory_stats.heap_usage,
                peak_heap: 0,
                alloc_count: 0,
                free_count: 0,
            }),
    {
        MetricsSnapshot {
            frame_time_avg: self.frame_timer.avg(),
            draw_calls: 0,
            dirty_regions: self.dirty_region_counter.value,
            flush_time_avg: 0,
            event_dispatch_count: self.event_counter.value,
            heap_usage: self.memory_stats.heap_usage,
            peak_heap: 0,
            alloc_count: 0,
            free_count: 0,
        }
    }
}

} // verus!
