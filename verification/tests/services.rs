use ade::clipboard_service::ClipboardService;
use ade::crash_diagnostics::CrashDiagnostics;
use ade::crash_manager::{ApplicationId, CrashManager};

#[test]
fn clipboard_copy_then_paste() {
    let mut c = ClipboardService::new();
    assert!(c.is_empty());
    assert_eq!(c.paste(), None);
    assert_eq!(c.history.len(), 1);
    c.copy("héllo");
    assert!(!c.is_empty());
    assert_eq!(c.paste(), Some("héllo"));
    c.copy("");
    assert_eq!(c.paste(), None);
}

#[test]
fn clipboard_invalid_utf8_pastes_nothing() {
    let mut c = ClipboardService::new();
    c.buf = vec![b'a', 0xff];
    assert_eq!(c.paste(), None);
    c.buf = vec![b'o', b'k'];
    assert_eq!(c.paste(), Some("ok"));
}

#[test]
fn clipboard_history_dedupes_and_caps() {
    let mut c = ClipboardService::new();
    c.copy("a");
    c.copy("b");
    c.copy("a");
    assert_eq!(c.history.len(), 3);
    assert_eq!(c.history[0].text, "a");
    assert_eq!(c.history[1].text, "b");
    assert_eq!(c.history[2].text, "");
    for i in 0..30 {
        c.copy(&format!("t{}", i));
    }
    assert_eq!(c.history.len(), 20);
    assert_eq!(c.history[0].text, "t29");
    assert_eq!(c.history[19].text, "t10");
}

#[test]
fn clipboard_toggle_pin() {
    let mut c = ClipboardService::new();
    c.copy("x");
    c.toggle_pin(0);
    assert!(c.history[0].pinned);
    c.toggle_pin(5);
    c.toggle_pin(0);
    assert!(!c.history[0].pinned);
    c.toggle_pin(0);
    c.copy("x");
    assert!(!c.history[0].pinned);
}

#[test]
fn crash_diagnostics_event_ring() {
    let mut d = CrashDiagnostics::new();
    for i in 0..17 {
        d.record_event(if i % 2 == 0 { "even" } else { "odd" });
    }
    assert_eq!(d.last_event_count, 16);
    assert_eq!(d.last_event_index, 1);
    assert_eq!(d.last_events[0], "even");
    assert_eq!(d.last_events[1], "odd");
    d.record_panic("oops", 99);
    d.record_panic("again", 100);
    assert_eq!(d.panic_reason, Some("again"));
    assert_eq!(d.uptime_at_crash, 100);
    assert_eq!(d.restart_count, 2);
}

#[test]
fn crash_manager_restart_policy() {
    let mut m = CrashManager::new();
    let a = ApplicationId(7);
    let b = ApplicationId(8);
    assert!(!m.should_restart(a));
    m.report_crash(a, 10, Some("segv"));
    assert!(m.should_restart(a));
    m.report_crash(a, 20, None);
    assert!(m.should_restart(a));
    m.report_crash(a, 30, None);
    assert!(!m.should_restart(a));
    assert_eq!(m.entries.len(), 1);
    assert_eq!(m.entries[0].crash_count, 3);
    assert_eq!(m.entries[0].last_crash_tick, 30);
    assert_eq!(m.entries[0].panic_reason, None);
    m.report_crash(b, 5, None);
    assert!(m.should_restart(b));
    m.request_restart(b);
    assert!(!m.should_restart(b));
    m.request_restart(ApplicationId(9));
    m.tick();
    assert_eq!(m.entries.len(), 2);
}
