use ade::developer::{
    CpuStats, DeveloperPlatform, LogLevel, MemoryStats, PerformanceMetric, ProcessInfo,
    WindowInspection,
};

#[test]
fn test_developer_platform_creation() {
    let dp = DeveloperPlatform::new();
    assert!(dp.is_logging_enabled());
    assert!(!dp.is_profiling_enabled());
}

#[test]
fn test_logging() {
    let mut dp = DeveloperPlatform::new();
    dp.log(0, LogLevel::Info, "test", "Hello");
    assert_eq!(dp.get_logs(10).len(), 1);
}

#[test]
fn test_log_filtering() {
    let mut dp = DeveloperPlatform::new();
    dp.set_log_level_filter(LogLevel::Warn);
    dp.log(0, LogLevel::Debug, "test", "Debug message");
    dp.log(0, LogLevel::Error, "test", "Error message");
    assert_eq!(dp.get_logs(10).len(), 1);
}

#[test]
fn test_memory_tracking() {
    let mut dp = DeveloperPlatform::new();
    dp.set_memory_stats(MemoryStats {
        total_kb: 1000,
        used_kb: 500,
        free_kb: 500,
        peak_usage_kb: 0,
    });
    assert_eq!(dp.memory_stats().used_kb, 500);
}

#[test]
fn test_processes() {
    let mut dp = DeveloperPlatform::new();
    let proc = ProcessInfo {
        pid: 1,
        name: String::from("test"),
        memory_kb: 100,
        state: 1,
    };
    dp.register_process(proc);
    assert_eq!(dp.processes().len(), 1);
}

fn metric(fps: u16) -> PerformanceMetric {
    PerformanceMetric {
        timestamp_ms: 0,
        frame_time_ms: 16,
        fps,
        memory_used_kb: 0,
        memory_available_kb: 0,
    }
}

fn window(id: u32, visible: bool, focused: bool) -> WindowInspection {
    WindowInspection {
        id,
        title: format!("w{}", id),
        x: 0,
        y: 0,
        width: 10,
        height: 10,
        visible,
        focused,
    }
}

#[test]
fn logging_disabled_drops_messages() {
    let mut dp = DeveloperPlatform::new();
    dp.set_logging_enabled(false);
    dp.log(1, LogLevel::Fatal, "m", "lost");
    assert_eq!(dp.get_logs(10).len(), 0);
}

#[test]
fn log_cap_keeps_most_recent_ten_thousand() {
    let mut dp = DeveloperPlatform::new();
    for i in 0..10_001u64 {
        dp.log(i, LogLevel::Info, "m", "x");
    }
    let logs = dp.get_logs(usize::MAX);
    assert_eq!(logs.len(), 10_000);
    assert_eq!(logs[0].timestamp_ms, 1);
    assert_eq!(logs[9_999].timestamp_ms, 10_000);
}

#[test]
fn get_logs_returns_the_most_recent() {
    let mut dp = DeveloperPlatform::new();
    for i in 0..5u64 {
        dp.log(i, LogLevel::Info, "m", "x");
    }
    let logs = dp.get_logs(2);
    assert_eq!(logs.len(), 2);
    assert_eq!(logs[0].timestamp_ms, 3);
    assert_eq!(logs[1].timestamp_ms, 4);
}

#[test]
fn logs_by_level_and_module() {
    let mut dp = DeveloperPlatform::new();
    dp.log(0, LogLevel::Info, "net", "a");
    dp.log(1, LogLevel::Error, "net", "b");
    dp.log(2, LogLevel::Info, "ui", "c");
    assert_eq!(dp.get_logs_by_level(LogLevel::Info).len(), 2);
    let net = dp.get_logs_by_module("net");
    assert_eq!(net.len(), 2);
    assert_eq!(net[1].message, "b");
    dp.clear_logs();
    assert_eq!(dp.get_logs(10).len(), 0);
}

#[test]
fn metrics_only_while_profiling_and_average() {
    let mut dp = DeveloperPlatform::new();
    dp.record_metric(metric(10));
    assert_eq!(dp.get_metrics().len(), 0);
    assert_eq!(dp.average_fps(5), 0);
    dp.set_profiling_enabled(true);
    dp.record_metric(metric(10));
    dp.record_metric(metric(20));
    dp.record_metric(metric(61));
    assert_eq!(dp.get_metrics().len(), 3);
    assert_eq!(dp.average_fps(2), 40);
    assert_eq!(dp.average_fps(10), 30);
}

#[test]
fn metric_cap_keeps_an_hour() {
    let mut dp = DeveloperPlatform::new();
    dp.set_profiling_enabled(true);
    for i in 0..3_601u32 {
        dp.record_metric(metric((i % 100) as u16));
    }
    assert_eq!(dp.get_metrics().len(), 3_600);
    assert_eq!(dp.get_metrics()[0].fps, 1);
}

#[test]
fn memory_peak_is_larger_of_peak_and_usage() {
    let mut dp = DeveloperPlatform::new();
    dp.set_memory_stats(MemoryStats { total_kb: 10, used_kb: 7, free_kb: 3, peak_usage_kb: 2 });
    assert_eq!(dp.memory_stats().peak_usage_kb, 7);
    dp.set_memory_stats(MemoryStats { total_kb: 10, used_kb: 1, free_kb: 9, peak_usage_kb: 5 });
    assert_eq!(dp.memory_stats().peak_usage_kb, 5);
}

#[test]
fn cpu_stats_round_trip() {
    let mut dp = DeveloperPlatform::new();
    dp.set_cpu_stats(CpuStats { usage_percent: 42, frequency_mhz: 3000, temperature_c: 55 });
    assert_eq!(dp.cpu_stats().usage_percent, 42);
    assert_eq!(dp.cpu_stats().frequency_mhz, 3000);
}

#[test]
fn process_registry() {
    let mut dp = DeveloperPlatform::new();
    dp.register_process(ProcessInfo { pid: 1, name: String::from("a"), memory_kb: 100, state: 0 });
    dp.register_process(ProcessInfo { pid: 1, name: String::from("dup"), memory_kb: 5, state: 0 });
    dp.register_process(ProcessInfo { pid: 2, name: String::from("b"), memory_kb: 50, state: 0 });
    assert_eq!(dp.processes().len(), 2);
    assert_eq!(dp.processes()[0].name, "a");
    assert_eq!(dp.total_process_memory_kb(), 150);
    dp.update_process(2, 70);
    assert_eq!(dp.total_process_memory_kb(), 170);
    dp.update_process(9, 1000);
    assert_eq!(dp.total_process_memory_kb(), 170);
    dp.unregister_process(1);
    assert_eq!(dp.processes().len(), 1);
    assert_eq!(dp.processes()[0].pid, 2);
}

#[test]
fn window_registry() {
    let mut dp = DeveloperPlatform::new();
    dp.register_window(window(1, true, false));
    dp.register_window(window(2, false, true));
    dp.register_window(window(2, true, true));
    assert_eq!(dp.windows().len(), 2);
    assert_eq!(dp.visible_window_count(), 1);
    assert_eq!(dp.focused_window().unwrap().id, 2);
    dp.update_window(2, true, false);
    assert_eq!(dp.visible_window_count(), 2);
    assert!(dp.focused_window().is_none());
    dp.unregister_window(1);
    assert_eq!(dp.windows().len(), 1);
}

#[test]
fn diagnostics_dump_text() {
    let mut dp = DeveloperPlatform::new();
    dp.set_memory_stats(MemoryStats { total_kb: 2048, used_kb: 512, free_kb: 1536, peak_usage_kb: 0 });
    dp.set_cpu_stats(CpuStats { usage_percent: 7, frequency_mhz: 1, temperature_c: 1 });
    dp.register_process(ProcessInfo { pid: 3, name: String::from("p"), memory_kb: 1, state: 0 });
    dp.log(0, LogLevel::Warn, "m", "x");
    dp.log(0, LogLevel::Warn, "m", "y");
    assert_eq!(
        dp.generate_diagnostics(),
        "=== System Diagnostics ===\nMemory: 512 KB used / 2048 KB total\nCPU Usage: 7%\nProcesses: 1\nWindows: 0\nLog Entries: 2\n"
    );
}
