//! Crash diagnostics: the last events before a crash, and the panic record.
use vstd::prelude::*;

verus! {

/// Number of recent events kept.
pub const EVENT_SLOTS: usize = 16;

pub struct CrashDiagnostics {
    pub panic_reason: Option<&'static str>,
    pub last_events: [&'static str; 16],
    pub last_event_index: usize,
    pub last_event_count: usize,
    pub last_focused_window: Option<u32>,
    pub last_notification: Option<&'static str>,
    pub uptime_at_crash: u64,
    pub restart_count: u32,
}

impl CrashDiagnostics {
    pub fn new() -> (d: Self)
        ensures
            d.panic_reason is None,
            forall|i: int| 0 <= i < 16 ==> #[trigger] d.last_events@[i] == "",
            d.last_event_index == 0,
            d.last_event_count == 0,
            d.last_focused_window is None,
            d.last_notification is None,
            d.uptime_at_crash == 0,
            d.restart_count == 0,
    {
        CrashDiagnostics {
            panic_reason: None,
            last_events: [""; 16],
            last_event_index: 0,
            last_event_count: 0,
            last_focused_window: None,
            last_notification: None,
            uptime_at_crash: 0,
            restart_count: 0,
        }
    }

    /// Write `event` into the slot at the cursor, advance the cursor round the
    /// sixteen slots, and count the event up to sixteen.
    pub fn record_event(&mut self, event: &'static str)
        requires
            old(self).last_event_index < 16,
        ensures
            final(self).last_events@ == old(self).last_events@.update(
                old(self).last_event_index as int,
                event,
            ),
            final(self).last_event_index == (old(self).last_event_index + 1) % 16,
            final(self).last_event_count == if old(self).last_event_count < 16 {
                old(self).last_event_count + 1
            } else {
                old(self).last_event_count as int
            },
            final(self).panic_reason == old(self).panic_reason,
            final(self).last_focused_window == old(self).last_focused_window,
            final(self).last_notification == old(self).last_notification,
            final(self).uptime_at_crash == old(self).uptime_at_crash,
            final(self).restart_count == old(self).restart_count,
    {
        self.last_events[self.last_event_index] = event;
        self.last_event_index = (self.last_event_index + 1) % 16;
        if self.last_event_count < 16 {
            self.last_event_count += 1;
        }
    }

    /// Record a panic: its reason, the uptime it came at, and one more restart.
    pub fn record_panic(&mut self, reason: &'static str, uptime: u64)
        requires
            old(self).restart_count < u32::MAX,
        ensures
            final(self).panic_reason == Some(reason),
            final(self).uptime_at_crash == uptime,
            final(self).restart_count == old(self).restart_count + 1,
            final(self).last_events@ == old(self).last_events@,
            final(self).last_event_index == old(self).last_event_index,
            final(self).last_event_count == old(self).last_event_count,
            final(self).last_focused_window == old(self).last_focused_window,
            final(self).last_notification == old(self).last_notification,
    {
        self.panic_reason = Some(reason);
        self.uptime_at_crash = uptime;
        self.restart_count += 1;
    }
}

} // verus!
