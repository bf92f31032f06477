use ade::log::levels::LogLevel;
use ade::log::logger::Logger;
use ade::log::ring_buffer::LogRingBuffer;
use ade::profiler::trace::TraceBuffer;
use ade::profiler::{Profiler, ProfilerCounter, ProfilerTimer};
use ade::vfs::{parse_dir_entries, VfsContext};
use ade::window::{AppWindow, VisualFlags, WindowState};

#[test]
fn log_ring_wraps() {
    let mut b = LogRingBuffer::new();
    assert_eq!(b.iter().count(), 0);
    for i in 0..514u64 {
        b.push(i, LogLevel::Info, "m");
    }
    assert_eq!(b.count, 512);
    assert_eq!(b.head, 2);
    assert_eq!(b.entries[0].tick, 512);
    assert_eq!(b.entries[2].tick, 2);
    assert_eq!(b.iter().count(), 512);
    let mut l = Logger::new();
    l.info(0, "ignored");
}

#[test]
fn trace_ring_wraps() {
    let mut t = TraceBuffer::new();
    t.push(1, "a", 10);
    t.push(2, "b", 20);
    assert_eq!(t.iter().map(|e| e.data).collect::<Vec<_>>(), vec![10, 20]);
    for i in 0..300u64 {
        t.push(i, "x", i);
    }
    assert_eq!(t.count, 256);
    assert_eq!(t.index, 302 % 256);
}

#[test]
fn timer_average() {
    let mut t = ProfilerTimer::new();
    assert_eq!(t.avg(), 0);
    t.start(10);
    t.stop(20);
    t.start(100);
    t.stop(105);
    assert_eq!(t.count, 2);
    assert_eq!(t.accumulated, 15);
    assert_eq!(t.avg(), 7);
    t.start(u64::MAX - 1);
    t.stop(3);
    assert_eq!(t.accumulated, 20);
    t.reset();
    assert_eq!((t.accumulated, t.count), (0, 0));
}

#[test]
fn profiler_snapshot() {
    let mut p = Profiler::new();
    p.frame_timer.start(0);
    p.frame_timer.stop(8);
    p.event_counter = ProfilerCounter { value: 3 };
    p.dirty_region_counter.value = 4;
    p.memory_stats.heap_usage = 1024;
    let s = p.snapshot();
    assert_eq!(s.frame_time_avg, 8);
    assert_eq!(s.event_dispatch_count, 3);
    assert_eq!(s.dirty_regions, 4);
    assert_eq!(s.heap_usage, 1024);
    assert_eq!(s.draw_calls, 0);
}

fn record(buf: &mut Vec<u8>, ino: u64, kind: u8, name: &[u8]) {
    buf.extend_from_slice(&ino.to_ne_bytes());
    buf.extend_from_slice(&(17 + name.len() as u64 + 1).to_ne_bytes());
    buf.push(kind);
    buf.extend_from_slice(name);
    buf.push(0);
}

#[test]
fn directory_listing_from_stream() {
    let mut buf = Vec::new();
    record(&mut buf, 5, 1, b".");
    record(&mut buf, 6, 1, b"docs");
    record(&mut buf, 7, 0, b"notes.txt");
    record(&mut buf, 8, 0, &[0xff, 0xfe]);
    record(&mut buf, 9, 0, b"after");
    let n = buf.len();
    buf.resize(4096, 0);
    let entries = parse_dir_entries("/home", &buf, n);
    let got: Vec<(String, String, bool)> =
        entries.iter().map(|e| (e.name.clone(), e.path.clone(), e.is_dir)).collect();
    assert_eq!(
        got,
        vec![
            (String::from("docs"), String::from("/home/docs"), true),
            (String::from("notes.txt"), String::from("/home/notes.txt"), false),
            (String::from("after"), String::from("/home/after"), false),
        ]
    );
    let entries = parse_dir_entries("/", &buf, n);
    assert_eq!(entries[0].path, "/docs");
    assert_eq!(entries[0].size, 0);
}

#[test]
fn directory_listing_stops_at_zero_inode_and_short_tail() {
    let mut buf = Vec::new();
    record(&mut buf, 3, 0, b"a");
    record(&mut buf, 0, 0, b"hidden");
    let n = buf.len();
    assert_eq!(parse_dir_entries("/d", &buf, n).len(), 1);
    assert_eq!(parse_dir_entries("/d", &buf, 18).len(), 0);
}

#[test]
fn vfs_folders() {
    let v = VfsContext::new();
    assert_eq!(v.home, "/home");
    assert_eq!(v.desktop, "/home/desktop");
    assert_eq!(v.mnt, "/mnt");
}

fn window(x: i32, y: i32, w: u32, h: u32) -> AppWindow {
    AppWindow {
        x,
        y,
        w,
        h,
        prev_x: x,
        prev_y: y,
        prev_w: w,
        prev_h: h,
        title: String::from("t"),
        content: vec![String::new()],
        scroll: 0,
        pid: None,
        focused: true,
        dragging: false,
        drag_ox: 0,
        drag_oy: 0,
        state: WindowState::Normal,
        prev_state: WindowState::Normal,
        flags: VisualFlags::new(),
        selection: None,
        anim: None,
        always_on_top: false,
        explorer_id: None,
    }
}

#[test]
fn animation_interpolates_and_lands() {
    let mut w = window(0, 0, 100, 40);
    assert!(!w.tick_animation());
    w.animate_to(-15, 100, 50, 200);
    assert!(w.tick_animation());
    assert_eq!((w.x, w.y, w.w, w.h), (-1, 10, 95, 56));
    for _ in 0..4 {
        w.tick_animation();
    }
    assert_eq!((w.x, w.y, w.w, w.h), (-7, 50, 75, 120));
    for _ in 0..5 {
        assert!(w.tick_animation());
    }
    assert_eq!((w.x, w.y, w.w, w.h), (-15, 100, 50, 200));
    assert!(w.anim.is_none());
    assert_eq!(w.title, "t");
    let f = VisualFlags::new();
    assert!(f.shadow && f.rounded && f.border && f.active);
    assert_eq!(f.opacity, 255);
}

#[test]
fn animation_of_very_wide_windows() {
    let mut w = window(0, 0, 3_000_000_000, 40);
    w.animate_to(0, 0, 3_000_000_010, 40);
    assert!(w.tick_animation());
    assert_eq!(w.w, 3_000_000_001);
    for _ in 0..9 {
        assert!(w.tick_animation());
    }
    assert_eq!(w.w, 3_000_000_010);
    assert!(!w.tick_animation());
    assert_eq!(w.w, 3_000_000_010);
}

#[test]
fn log_ring_keeps_push_order() {
    let mut b = LogRingBuffer::new();
    for i in 0..5u64 {
        b.push(i * 10, LogLevel::Warn, "w");
    }
    let ticks: Vec<u64> = b.iter().map(|e| e.tick).collect();
    assert_eq!(ticks, vec![0, 10, 20, 30, 40]);
    for i in 5..600u64 {
        b.push(i * 10, LogLevel::Warn, "w");
    }
    assert_eq!(b.head, 600 % 512);
    for j in 88..600u64 {
        assert_eq!(b.entries[(j % 512) as usize].tick, j * 10);
    }
}
