//! Developer platform: developer console, logs, performance monitor, inspectors.
//!
//! Provides developer tools for debugging, performance analysis, and system inspection.
use vstd::prelude::*;
use crate::search::{first_match, keep, keep_all, count_matching, lemma_first_match, lemma_first_match_spec};
use crate::text::{copy_str, string_eq_str, decimal, decimal_string};

verus! {

/// Log level
#[derive(Clone, Copy, Debug, PartialEq, Eq, Structural)]
pub enum LogLevel {
    Trace,
    Debug,
    Info,
    Warn,
    Error,
    Fatal,
}

/// Severity rank of a level: Trace is lowest, Fatal highest.
pub open spec fn level_rank(l: LogLevel) -> u32 {
    match l {
        LogLevel::Trace => 0,
        LogLevel::Debug => 1,
        LogLevel::Info => 2,
        LogLevel::Warn => 3,
        LogLevel::Error => 4,
        LogLevel::Fatal => 5,
    }
}

fn rank(l: LogLevel) -> (r: u32)
    ensures
        r == level_rank(l),
{
    match l {
        LogLevel::Trace => 0,
        LogLevel::Debug => 1,
        LogLevel::Info => 2,
        LogLevel::Warn => 3,
        LogLevel::Error => 4,
        LogLevel::Fatal => 5,
    }
}

/// Log entry
pub struct LogEntry {
    pub timestamp_ms: u64,
    pub level: LogLevel,
    pub module: String,
    pub message: String,
}

/// A log entry as plain values.
pub struct LogRecord {
    pub timestamp_ms: u64,
    pub level: LogLevel,
    pub module: Seq<char>,
    pub message: Seq<char>,
}

impl View for LogEntry {
    type V = LogRecord;

    open spec fn view(&self) -> LogRecord {
        LogRecord {
            timestamp_ms: self.timestamp_ms,
            level: self.level,
            module: self.module@,
            message: self.message@,
        }
    }
}

/// Performance metric
#[derive(Clone, Copy, Debug)]
pub struct PerformanceMetric {
    pub timestamp_ms: u64,
    pub frame_time_ms: u16,
    pub fps: u16,
    pub memory_used_kb: u32,
    pub memory_available_kb: u32,
}

/// Memory statistics
#[derive(Clone, Copy, Debug)]
pub struct MemoryStats {
    pub total_kb: u32,
    pub used_kb: u32,
    pub free_kb: u32,
    pub peak_usage_kb: u32,
}

/// CPU statistics
#[derive(Clone, Copy, Debug)]
pub struct CpuStats {
    pub usage_percent: u8,
    pub frequency_mhz: u16,
    pub temperature_c: u8,
}

/// Window inspection data
pub struct WindowInspection {
    pub id: u32,
    pub title: String,
    pub x: i32,
    pub y: i32,
    pub width: u32,
    pub height: u32,
    pub visible: bool,
    pub focused: bool,
}

/// A window inspection as plain values.
pub struct WindowRecord {
    pub id: u32,
    pub title: Seq<char>,
    pub x: i32,
    pub y: i32,
    pub width: u32,
    pub height: u32,
    pub visible: bool,
    pub focused: bool,
}

impl View for WindowInspection {
    type V = WindowRecord;

    open spec fn view(&self) -> WindowRecord {
        WindowRecord {
            id: self.id,
            title: self.title@,
            x: self.x,
            y: self.y,
            width: self.width,
            height: self.height,
            visible: self.visible,
            focused: self.focused,
        }
    }
}

/// Process information
pub struct ProcessInfo {
    pub pid: u32,
    pub name: String,
    pub memory_kb: u32,
    pub state: u8,
}

/// A process as plain values.
pub struct ProcessRecord {
    pub pid: u32,
    pub name: Seq<char>,
    pub memory_kb: u32,
    pub state: u8,
}

impl View for ProcessInfo {
    type V = ProcessRecord;

    open spec fn view(&self) -> ProcessRecord {
        ProcessRecord { pid: self.pid, name: self.name@, memory_kb: self.memory_kb, state: self.state }
    }
}

pub open spec fn log_records(s: Seq<LogEntry>) -> Seq<LogRecord> {
    s.map_values(|e: LogEntry| e@)
}

pub open spec fn log_ref_records(s: Seq<&LogEntry>) -> Seq<LogRecord> {
    s.map_values(|e: &LogEntry| e@)
}

pub open spec fn process_records(s: Seq<ProcessInfo>) -> Seq<ProcessRecord> {
    s.map_values(|p: ProcessInfo| p@)
}

pub open spec fn window_records(s: Seq<WindowInspection>) -> Seq<WindowRecord> {
    s.map_values(|w: WindowInspection| w@)
}

/// The platform's state as plain values.
pub struct DeveloperModel {
    pub logs: Seq<LogRecord>,
    pub metrics: Seq<PerformanceMetric>,
    pub memory_stats: MemoryStats,
    pub cpu_stats: CpuStats,
    pub processes: Seq<ProcessRecord>,
    pub windows: Seq<WindowRecord>,
    pub log_level_filter: LogLevel,
    pub logging_enabled: bool,
    pub profiling_enabled: bool,
}

/// Most log entries kept.
pub const MAX_LOGS: usize = 10000;

/// Most metrics kept (an hour at one per second).
pub const MAX_METRICS: usize = 3600;

/// A message at `level` passes the filter.
pub open spec fn passes_filter(m: DeveloperModel, level: LogLevel) -> bool {
    m.logging_enabled && level_rank(level) >= level_rank(m.log_level_filter)
}

/// Levels rank in their order of severity, Trace lowest and Fatal highest,
/// so while logging is on a Fatal message passes every filter, and a message
/// that passes a filter also passes it at any more severe level.
pub proof fn law_log_levels_ordered(m: DeveloperModel, l: LogLevel)
    ensures
        level_rank(LogLevel::Trace) < level_rank(LogLevel::Debug),
        level_rank(LogLevel::Debug) < level_rank(LogLevel::Info),
        level_rank(LogLevel::Info) < level_rank(LogLevel::Warn),
        level_rank(LogLevel::Warn) < level_rank(LogLevel::Error),
        level_rank(LogLevel::Error) < level_rank(LogLevel::Fatal),
        m.logging_enabled ==> passes_filter(m, LogLevel::Fatal),
        m.logging_enabled ==> passes_filter(m, m.log_level_filter),
        passes_filter(m, l) ==> m.logging_enabled && passes_filter(m, LogLevel::Fatal),
        !m.logging_enabled ==> !passes_filter(m, l),
{
}

/// `s` with `x` appended, dropping the oldest element when it grows past `cap`.
pub open spec fn push_capped<T>(s: Seq<T>, x: T, cap: nat) -> Seq<T> {
    let t = s.push(x);
    if t.len() > cap {
        t.drop_first()
    } else {
        t
    }
}

/// Where the last `n` elements of a sequence of length `len` start.
pub open spec fn tail_start(len: nat, n: nat) -> int {
    if len > n {
        len - n
    } else {
        0
    }
}

/// Sum of the frame rates.
pub open spec fn fps_sum(s: Seq<PerformanceMetric>) -> nat
    decreases s.len(),
{
    if s.len() == 0 {
        0
    } else {
        fps_sum(s.drop_last()) + s.last().fps as nat
    }
}

/// The newest `n` of `len` items start at `tail_start(len, n)`: there are
/// `n` of them, or all `len` when there are fewer.
pub proof fn law_tail_start(len: nat, n: nat)
    ensures
        0 <= tail_start(len, n) <= len,
        len - tail_start(len, n) == if n < len {
            n
        } else {
            len
        },
{
}

/// Appending to a capped list keeps the new item as the newest, keeps at
/// most `cap` items when there were at most `cap`, and drops only from the
/// oldest end: the result is the newest items of the list with `x` appended.
pub proof fn law_push_capped<T>(s: Seq<T>, x: T, cap: nat)
    requires
        0 < cap,
        s.len() <= cap,
    ensures
        ({
            let t = push_capped(s, x, cap);
            let all = s.push(x);
            &&& t.len() == if s.len() + 1 > cap {
                cap
            } else {
                s.len() + 1
            }
            &&& t.last() == x
            &&& t == all.subrange(all.len() - t.len(), all.len() as int)
        }),
{
    let all = s.push(x);
    let t = push_capped(s, x, cap);
    if all.len() > cap {
        assert(t =~= all.subrange(1, all.len() as int));
    } else {
        assert(t =~= all.subrange(0, all.len() as int));
    }
}

/// The frame-rate sum adds up: the sum of two runs of metrics is the sum of
/// their sums, and one metric sums to its frame rate.
pub proof fn law_fps_sum(a: Seq<PerformanceMetric>, b: Seq<PerformanceMetric>, m: PerformanceMetric)
    ensures
        fps_sum(a + b) == fps_sum(a) + fps_sum(b),
        fps_sum(seq![m]) == m.fps,
        fps_sum(Seq::<PerformanceMetric>::empty()) == 0,
    decreases b.len(),
{
    if b.len() > 0 {
        law_fps_sum(a, b.drop_last(), m);
        assert((a + b).drop_last() =~= a + b.drop_last());
        assert((a + b).last() == b.last());
        assert(fps_sum(a + b) == fps_sum((a + b).drop_last()) + (a + b).last().fps as nat);
    } else {
        assert(a + b =~= a);
    }
    assert(seq![m].drop_last() =~= Seq::<PerformanceMetric>::empty());
    assert(seq![m].last() == m);
    assert(fps_sum(seq![m].drop_last()) == 0);
}

/// Sum of the process memory figures.
pub open spec fn memory_sum(s: Seq<ProcessRecord>) -> nat
    decreases s.len(),
{
    if s.len() == 0 {
        0
    } else {
        memory_sum(s.drop_last()) + s.last().memory_kb as nat
    }
}

/// The memory sum adds up: the sum of two runs of processes is the sum of
/// their sums, and one process sums to its memory figure.
pub proof fn law_memory_sum(a: Seq<ProcessRecord>, b: Seq<ProcessRecord>, p: ProcessRecord)
    ensures
        memory_sum(a + b) == memory_sum(a) + memory_sum(b),
        memory_sum(seq![p]) == p.memory_kb,
        memory_sum(Seq::<ProcessRecord>::empty()) == 0,
    decreases b.len(),
{
    if b.len() > 0 {
        law_memory_sum(a, b.drop_last(), p);
        assert((a + b).drop_last() =~= a + b.drop_last());
        assert((a + b).last() == b.last());
        assert(memory_sum(a + b) == memory_sum((a + b).drop_last()) + (a + b).last().memory_kb as nat);
    } else {
        assert(a + b =~= a);
    }
    assert(seq![p].drop_last() =~= Seq::<ProcessRecord>::empty());
    assert(seq![p].last() == p);
    assert(memory_sum(seq![p].drop_last()) == 0);
}

pub open spec fn has_level(level: LogLevel) -> spec_fn(LogRecord) -> bool {
    |r: LogRecord| r.level == level
}

pub open spec fn in_module(module: Seq<char>) -> spec_fn(LogRecord) -> bool {
    |r: LogRecord| r.module == module
}

pub open spec fn has_pid(pid: u32) -> spec_fn(ProcessRecord) -> bool {
    |p: ProcessRecord| p.pid == pid
}

pub open spec fn other_pid(pid: u32) -> spec_fn(ProcessRecord) -> bool {
    |p: ProcessRecord| p.pid != pid
}

pub open spec fn has_window_id(id: u32) -> spec_fn(WindowRecord) -> bool {
    |w: WindowRecord| w.id == id
}

pub open spec fn other_window_id(id: u32) -> spec_fn(WindowRecord) -> bool {
    |w: WindowRecord| w.id != id
}

pub open spec fn is_focused() -> spec_fn(WindowRecord) -> bool {
    |w: WindowRecord| w.focused
}

pub open spec fn is_visible() -> spec_fn(WindowRecord) -> bool {
    |w: WindowRecord| w.visible
}

/// No two processes share a pid.
pub open spec fn unique_pids(s: Seq<ProcessRecord>) -> bool {
    forall|i: int, j: int| 0 <= i < j < s.len() ==> s[i].pid != s[j].pid
}

/// No two windows share an id.
pub open spec fn unique_window_ids(s: Seq<WindowRecord>) -> bool {
    forall|i: int, j: int| 0 <= i < j < s.len() ==> s[i].id != s[j].id
}

/// The diagnostic dump for a state.
pub open spec fn diagnostics_text(m: DeveloperModel) -> Seq<char> {
    "=== System Diagnostics ===\n"@ + "Memory: "@ + decimal(m.memory_stats.used_kb as nat)
        + " KB used / "@ + decimal(m.memory_stats.total_kb as nat) + " KB total\n"@
        + "CPU Usage: "@ + decimal(m.cpu_stats.usage_percent as nat) + "%\n"@ + "Processes: "@
        + decimal(m.processes.len()) + "\n"@ + "Windows: "@ + decimal(m.windows.len()) + "\n"@
        + "Log Entries: "@ + decimal(m.logs.len()) + "\n"@
}

fn copy_process(p: &ProcessInfo) -> (r: ProcessInfo)
    ensures
        r@ == p@,
{
    ProcessInfo { pid: p.pid, name: p.name.clone(), memory_kb: p.memory_kb, state: p.state }
}

fn copy_window(w: &WindowInspection) -> (r: WindowInspection)
    ensures
        r@ == w@,
{
    WindowInspection {
        id: w.id,
        title: w.title.clone(),
        x: w.x,
        y: w.y,
        width: w.width,
        height: w.height,
        visible: w.visible,
        focused: w.focused,
    }
}

/// Developer Platform
pub struct DeveloperPlatform {
    /// Log buffer
    logs: Vec<LogEntry>,
    /// Performance history
    metrics: Vec<PerformanceMetric>,
    /// Current memory stats
    memory_stats: MemoryStats,
    /// Current CPU stats
    cpu_stats: CpuStats,
    /// Running processes
    processes: Vec<ProcessInfo>,
    /// Window list
    windows: Vec<WindowInspection>,
    /// Log level filter
    log_level_filter: LogLevel,
    /// Enable logging
    logging_enabled: bool,
    /// Enable profiling
    profiling_enabled: bool,
}

impl View for DeveloperPlatform {
    type V = DeveloperModel;

    closed spec fn view(&self) -> DeveloperModel {
        DeveloperModel {
            logs: log_records(self.logs@),
            metrics: self.metrics@,
            memory_stats: self.memory_stats,
            cpu_stats: self.cpu_stats,
            processes: process_records(self.processes@),
            windows: window_records(self.windows@),
            log_level_filter: self.log_level_filter,
            logging_enabled: self.logging_enabled,
            profiling_enabled: self.profiling_enabled,
        }
    }
}

impl DeveloperPlatform {
    /// The log and the metric history stay within their caps.
    pub open spec fn wf(&self) -> bool {
        self@.logs.len() <= MAX_LOGS && self@.metrics.len() <= MAX_METRICS
    }

    /// Create a new developer platform
    pub fn new() -> (d: Self)
        ensures
            d@ == (DeveloperModel {
                logs: Seq::empty(),
                metrics: Seq::empty(),
                memory_stats: MemoryStats { total_kb: 0, used_kb: 0, free_kb: 0, peak_usage_kb: 0 },
                cpu_stats: CpuStats { usage_percent: 0, frequency_mhz: 0, temperature_c: 0 },
                processes: Seq::empty(),
                windows: Seq::empty(),
                log_level_filter: LogLevel::Info,
                logging_enabled: true,
                profiling_enabled: false,
            }),
            d.wf(),
    {
        let d = DeveloperPlatform {
            logs: Vec::new(),
            metrics: Vec::new(),
            memory_stats: MemoryStats { total_kb: 0, used_kb: 0, free_kb: 0, peak_usage_kb: 0 },
            cpu_stats: CpuStats { usage_percent: 0, frequency_mhz: 0, temperature_c: 0 },
            processes: Vec::new(),
            windows: Vec::new(),
            log_level_filter: LogLevel::Info,
            logging_enabled: true,
            profiling_enabled: false,
        };
        assert(log_records(d.logs@) =~= Seq::empty());
        assert(process_records(d.processes@) =~= Seq::empty());
        assert(window_records(d.windows@) =~= Seq::empty());
        d
    }

    /// Whether logging is on.
    pub fn is_logging_enabled(&self) -> (r: bool)
        ensures
            r == self@.logging_enabled,
    {
        self.logging_enabled
    }

    /// Log a message: kept when logging is on and its level is at or above the
    /// filter; the oldest entry goes when more than 10000 are kept.
    pub fn log(&mut self, timestamp_ms: u64, level: LogLevel, module: &str, message: &str)
        ensures
            final(self)@ == (DeveloperModel {
                logs: if passes_filter(old(self)@, level) {
                    push_capped(
                        old(self)@.logs,
                        LogRecord { timestamp_ms, level, module: module@, message: message@ },
                        MAX_LOGS as nat,
                    )
                } else {
                    old(self)@.logs
                },
                ..old(self)@
            }),
            old(self).wf() ==> final(self).wf(),
    {
        if !self.logging_enabled || rank(level) < rank(self.log_level_filter) {
            return;
        }
        let ghost before = self.logs@;
        self.logs.push(
            LogEntry { timestamp_ms, level, module: copy_str(module), message: copy_str(message) },
        );
        assert(log_records(self.logs@) =~= log_records(before).push(
            LogRecord { timestamp_ms, level, module: module@, message: message@ },
        ));
        if self.logs.len() > MAX_LOGS {
            let ghost pushed = self.logs@;
            self.logs.remove(0);
            assert(log_records(self.logs@) =~= log_records(pushed).drop_first());
        }
    }

    /// Get recent logs: the last `max_count` entries, oldest first.
    pub fn get_logs(&self, max_count: usize) -> (r: Vec<&LogEntry>)
        ensures
            log_ref_records(r@) == self@.logs.subrange(
                tail_start(self@.logs.len(), max_count as nat),
                self@.logs.len() as int,
            ),
    {
        let len = self.logs.len();
        let start = if len > max_count {
            len - max_count
        } else {
            0
        };
        let mut r: Vec<&LogEntry> = Vec::new();
        let mut i = start;
        while i < len
            invariant
                len == self.logs@.len(),
                start <= i <= len,
                start == tail_start(len as nat, max_count as nat),
                r@.len() == i - start,
                log_ref_records(r@) == log_records(self.logs@).subrange(start as int, i as int),
            decreases len - i,
        {
            let ghost before = r@;
            r.push(&self.logs[i]);
            assert forall|t: int| 0 <= t < r@.len() implies #[trigger] log_ref_records(r@)[t]
                == log_records(self.logs@).subrange(start as int, i + 1)[t] by {
                if t < before.len() {
                    assert(log_ref_records(before)[t] == log_records(self.logs@).subrange(
                        start as int,
                        i as int,
                    )[t]);
                }
            }
            assert(log_ref_records(r@) =~= log_records(self.logs@).subrange(start as int, i + 1));
            i = i + 1;
        }
        r
    }

    /// Get logs by level
    pub fn get_logs_by_level(&self, level: LogLevel) -> (r: Vec<&LogEntry>)
        ensures
            log_ref_records(r@) == keep_all(self@.logs, has_level(level)),
    {
        let mut r: Vec<&LogEntry> = Vec::new();
        let mut i: usize = 0;
        while i < self.logs.len()
            invariant
                i <= self.logs@.len(),
                log_ref_records(r@) == keep(log_records(self.logs@), has_level(level), i as int),
            decreases self.logs@.len() - i,
        {
            let ghost before = r@;
            if self.logs[i].level == level {
                r.push(&self.logs[i]);
                assert(log_ref_records(r@) =~= log_ref_records(before).push(self.logs@[i as int]@));
            }
            i = i + 1;
        }
        r
    }

    /// Get logs by module
    pub fn get_logs_by_module(&self, module: &str) -> (r: Vec<&LogEntry>)
        ensures
            log_ref_records(r@) == keep_all(self@.logs, in_module(module@)),
    {
        let mut r: Vec<&LogEntry> = Vec::new();
        let mut i: usize = 0;
        while i < self.logs.len()
            invariant
                i <= self.logs@.len(),
                log_ref_records(r@) == keep(log_records(self.logs@), in_module(module@), i as int),
            decreases self.logs@.len() - i,
        {
            let ghost before = r@;
            if string_eq_str(&self.logs[i].module, module) {
                r.push(&self.logs[i]);
                assert(log_ref_records(r@) =~= log_ref_records(before).push(self.logs@[i as int]@));
            }
            i = i + 1;
        }
        r
    }

    /// Clear logs
    pub fn clear_logs(&mut self)
        ensures
            final(self)@ == (DeveloperModel { logs: Seq::empty(), ..old(self)@ }),
            final(self).wf() == (old(self)@.metrics.len() <= MAX_METRICS),
    {
        self.logs.clear();
        assert(log_records(self.logs@) =~= Seq::empty());
    }

    /// Set log level filter
    pub fn set_log_level_filter(&mut self, level: LogLevel)
        ensures
            final(self)@ == (DeveloperModel { log_level_filter: level, ..old(self)@ }),
    {
        self.log_level_filter = level;
    }

    /// Enable/disable logging
    pub fn set_logging_enabled(&mut self, enabled: bool)
        ensures
            final(self)@ == (DeveloperModel { logging_enabled: enabled, ..old(self)@ }),
    {
        self.logging_enabled = enabled;
    }

    /// Record performance metric: kept only while profiling, the oldest going
    /// when more than 3600 are kept.
    pub fn record_metric(&mut self, metric: PerformanceMetric)
        ensures
            final(self)@ == (DeveloperModel {
                metrics: if old(self)@.profiling_enabled {
                    push_capped(old(self)@.metrics, metric, MAX_METRICS as nat)
                } else {
                    old(self)@.metrics
                },
                ..old(self)@
            }),
            old(self).wf() ==> final(self).wf(),
    {
        if self.profiling_enabled {
            self.metrics.push(metric);
            if self.metrics.len() > MAX_METRICS {
                self.metrics.remove(0);
            }
        }
    }

    /// Get performance metrics
    pub fn get_metrics(&self) -> (r: &[PerformanceMetric])
        ensures
            r@ == self@.metrics,
    {
        self.metrics.as_slice()
    }

    /// Average frame rate over the last `last_n` metrics (all of them when
    /// fewer are kept); 0 when none are kept.
    pub fn average_fps(&self, last_n: usize) -> (r: u16)
        requires
            self.wf(),
            self@.metrics.len() == 0 || last_n > 0,
        ensures
            ({
                let m = self@.metrics;
                let start = tail_start(m.len(), last_n as nat);
                r == if m.len() == 0 {
                    0
                } else {
                    (fps_sum(m.subrange(start, m.len() as int)) / ((m.len() - start) as nat)) as u16
                }
            }),
    {
        if self.metrics.len() == 0 {
            return 0;
        }
        let len = self.metrics.len();
        let start = if len > last_n {
            len - last_n
        } else {
            0
        };
        let mut sum: u32 = 0;
        let mut i = start;
        while i < len
            invariant
                len == self.metrics@.len(),
                len <= MAX_METRICS,
                start <= i <= len,
                sum == fps_sum(self.metrics@.subrange(start as int, i as int)),
                sum <= (i - start) * 65535,
            decreases len - i,
        {
            assert(self.metrics@.subrange(start as int, i + 1).drop_last() =~= self.metrics@.subrange(
                start as int,
                i as int,
            ));
            assert((i + 1 - start) * 65535 <= 3600 * 65535) by (nonlinear_arith)
                requires
                    i + 1 - start <= 3600,
            ;
            sum = sum + self.metrics[i].fps as u32;
            i = i + 1;
        }
        (sum / (len - start) as u32) as u16
    }

    /// Update memory stats; the peak becomes the larger of the given peak and
    /// the given usage.
    pub fn set_memory_stats(&mut self, stats: MemoryStats)
        ensures
            final(self)@ == (DeveloperModel {
                memory_stats: MemoryStats {
                    peak_usage_kb: if stats.used_kb > stats.peak_usage_kb {
                        stats.used_kb
                    } else {
                        stats.peak_usage_kb
                    },
                    ..stats
                },
                ..old(self)@
            }),
    {
        self.memory_stats = stats;
        if stats.used_kb > self.memory_stats.peak_usage_kb {
            self.memory_stats.peak_usage_kb = stats.used_kb;
        }
    }

    /// Get memory stats
    pub fn memory_stats(&self) -> (r: MemoryStats)
        ensures
            r == self@.memory_stats,
    {
        self.memory_stats
    }

    /// Update CPU stats
    pub fn set_cpu_stats(&mut self, stats: CpuStats)
        ensures
            final(self)@ == (DeveloperModel { cpu_stats: stats, ..old(self)@ }),
    {
        self.cpu_stats = stats;
    }

    /// Get CPU stats
    pub fn cpu_stats(&self) -> (r: CpuStats)
        ensures
            r == self@.cpu_stats,
    {
        self.cpu_stats
    }

    /// Index of the first process with `pid`.
    fn find_process(&self, pid: u32) -> (r: Option<usize>)
        ensures
            match r {
                Some(k) => k as int == first_match(self@.processes, has_pid(pid)),
                None => first_match(self@.processes, has_pid(pid)) < 0,
            },
    {
        let ghost recs = process_records(self.processes@);
        let mut k: usize = 0;
        while k < self.processes.len()
            invariant
                recs == process_records(self.processes@),
                k <= self.processes@.len(),
                forall|j: int| 0 <= j < k ==> !has_pid(pid)(#[trigger] recs[j]),
            decreases self.processes@.len() - k,
        {
            if self.processes[k].pid == pid {
                proof {
                    lemma_first_match(recs, has_pid(pid), k as int);
                }
                return Some(k);
            }
            k = k + 1;
        }
        proof {
            lemma_first_match(recs, has_pid(pid), k as int);
        }
        None
    }

    /// Register process, unless one with the same pid is registered.
    pub fn register_process(&mut self, info: ProcessInfo)
        ensures
            final(self)@ == (DeveloperModel {
                processes: if first_match(old(self)@.processes, has_pid(info.pid)) >= 0 {
                    old(self)@.processes
                } else {
                    old(self)@.processes.push(info@)
                },
                ..old(self)@
            }),
            unique_pids(old(self)@.processes) ==> unique_pids(final(self)@.processes),
    {
        proof {
            lemma_first_match_spec(self@.processes, has_pid(info.pid));
        }
        if self.find_process(info.pid).is_none() {
            let ghost before = self.processes@;
            let ghost rec = info@;
            self.processes.push(info);
            assert(process_records(self.processes@) =~= process_records(before).push(rec));
        }
    }

    /// Update the memory figure of the first process with `pid`.
    pub fn update_process(&mut self, pid: u32, memory_kb: u32)
        ensures
            ({
                let k = first_match(old(self)@.processes, has_pid(pid));
                final(self)@ == (DeveloperModel {
                    processes: if k >= 0 {
                        old(self)@.processes.update(
                            k,
                            ProcessRecord { memory_kb, ..old(self)@.processes[k] },
                        )
                    } else {
                        old(self)@.processes
                    },
                    ..old(self)@
                })
            }),
    {
        proof {
            lemma_first_match_spec(self@.processes, has_pid(pid));
        }
        match self.find_process(pid) {
            Some(k) => {
                let ghost before = self.processes@;
                let p = self.processes.remove(k);
                let q = ProcessInfo { pid: p.pid, name: p.name, memory_kb, state: p.state };
                self.processes.insert(k, q);
                assert(self.processes@ =~= before.update(k as int, self.processes@[k as int]));
                assert(process_records(self.processes@) =~= process_records(before).update(
                    k as int,
                    ProcessRecord { memory_kb, ..process_records(before)[k as int] },
                ));
            },
            None => {},
        }
    }

    /// Unregister every process with `pid`.
    pub fn unregister_process(&mut self, pid: u32)
        ensures
            final(self)@ == (DeveloperModel {
                processes: keep_all(old(self)@.processes, other_pid(pid)),
                ..old(self)@
            }),
    {
        let ghost recs = process_records(self.processes@);
        let mut kept: Vec<ProcessInfo> = Vec::new();
        let mut i: usize = 0;
        while i < self.processes.len()
            invariant
                recs == process_records(self.processes@),
                i <= self.processes@.len(),
                process_records(kept@) == keep(recs, other_pid(pid), i as int),
            decreases self.processes@.len() - i,
        {
            if self.processes[i].pid != pid {
                let ghost before = kept@;
                let p = copy_process(&self.processes[i]);
                kept.push(p);
                assert(process_records(kept@) =~= process_records(before).push(recs[i as int]));
            }
            i = i + 1;
        }
        self.processes = kept;
    }

    /// Get all processes
    pub fn processes(&self) -> (r: &[ProcessInfo])
        ensures
            process_records(r@) == self@.processes,
    {
        self.processes.as_slice()
    }

    /// Get total process memory
    pub fn total_process_memory_kb(&self) -> (r: u32)
        requires
            memory_sum(self@.processes) <= u32::MAX,
        ensures
            r == memory_sum(self@.processes),
    {
        let ghost recs = process_records(self.processes@);
        let mut sum: u32 = 0;
        let mut i: usize = 0;
        while i < self.processes.len()
            invariant
                recs == process_records(self.processes@),
                memory_sum(recs) <= u32::MAX,
                i <= self.processes@.len(),
                sum == memory_sum(recs.subrange(0, i as int)),
            decreases self.processes@.len() - i,
        {
            assert(recs.subrange(0, i + 1).drop_last() =~= recs.subrange(0, i as int));
            proof {
                lemma_memory_sum_prefix(recs, i + 1);
            }
            sum = sum + self.processes[i].memory_kb;
            i = i + 1;
        }
        assert(recs.subrange(0, i as int) =~= recs);
        sum
    }

    /// Index of the first window with `id`.
    fn find_window(&self, id: u32) -> (r: Option<usize>)
        ensures
            match r {
                Some(k) => k as int == first_match(self@.windows, has_window_id(id)),
                None => first_match(self@.windows, has_window_id(id)) < 0,
            },
    {
        let ghost recs = window_records(self.windows@);
        let mut k: usize = 0;
        while k < self.windows.len()
            invariant
                recs == window_records(self.windows@),
                k <= self.windows@.len(),
                forall|j: int| 0 <= j < k ==> !has_window_id(id)(#[trigger] recs[j]),
            decreases self.windows@.len() - k,
        {
            if self.windows[k].id == id {
                proof {
                    lemma_first_match(recs, has_window_id(id), k as int);
                }
                return Some(k);
            }
            k = k + 1;
        }
        proof {
            lemma_first_match(recs, has_window_id(id), k as int);
        }
        None
    }

    /// Register window, unless one with the same id is registered.
    pub fn register_window(&mut self, info: WindowInspection)
        ensures
            final(self)@ == (DeveloperModel {
                windows: if first_match(old(self)@.windows, has_window_id(info.id)) >= 0 {
                    old(self)@.windows
                } else {
                    old(self)@.windows.push(info@)
                },
                ..old(self)@
            }),
            unique_window_ids(old(self)@.windows) ==> unique_window_ids(final(self)@.windows),
    {
        proof {
            lemma_first_match_spec(self@.windows, has_window_id(info.id));
        }
        if self.find_window(info.id).is_none() {
            let ghost before = self.windows@;
            let ghost rec = info@;
            self.windows.push(info);
            assert(window_records(self.windows@) =~= window_records(before).push(rec));
        }
    }

    /// Update the visibility and focus of the first window with `id`.
    pub fn update_window(&mut self, id: u32, visible: bool, focused: bool)
        ensures
            ({
                let k = first_match(old(self)@.windows, has_window_id(id));
                final(self)@ == (DeveloperModel {
                    windows: if k >= 0 {
                        old(self)@.windows.update(
                            k,
                            WindowRecord { visible, focused, ..old(self)@.windows[k] },
                        )
                    } else {
                        old(self)@.windows
                    },
                    ..old(self)@
                })
            }),
    {
        proof {
            lemma_first_match_spec(self@.windows, has_window_id(id));
        }
        match self.find_window(id) {
            Some(k) => {
                let ghost before = self.windows@;
                let w = self.windows.remove(k);
                let v = WindowInspection {
                    id: w.id,
                    title: w.title,
                    x: w.x,
                    y: w.y,
                    width: w.width,
                    height: w.height,
                    visible,
                    focused,
                };
                self.windows.insert(k, v);
                assert(self.windows@ =~= before.update(k as int, self.windows@[k as int]));
                assert(window_records(self.windows@) =~= window_records(before).update(
                    k as int,
                    WindowRecord { visible, focused, ..window_records(before)[k as int] },
                ));
            },
            None => {},
        }
    }

    /// Unregister every window with `id`.
    pub fn unregister_window(&mut self, id: u32)
        ensures
            final(self)@ == (DeveloperModel {
                windows: keep_all(old(self)@.windows, other_window_id(id)),
                ..old(self)@
            }),
    {
        let ghost recs = window_records(self.windows@);
        let mut kept: Vec<WindowInspection> = Vec::new();
        let mut i: usize = 0;
        while i < self.windows.len()
            invariant
                recs == window_records(self.windows@),
                i <= self.windows@.len(),
                window_records(kept@) == keep(recs, other_window_id(id), i as int),
            decreases self.windows@.len() - i,
        {
            if self.windows[i].id != id {
                let ghost before = kept@;
                let w = copy_window(&self.windows[i]);
                kept.push(w);
                assert(window_records(kept@) =~= window_records(before).push(recs[i as int]));
            }
            i = i + 1;
        }
        self.windows = kept;
    }

    /// Get all windows
    pub fn windows(&self) -> (r: &[WindowInspection])
        ensures
            window_records(r@) == self@.windows,
    {
        self.windows.as_slice()
    }

    /// Get the first focused window
    pub fn focused_window(&self) -> (r: Option<&WindowInspection>)
        ensures
            ({
                let k = first_match(self@.windows, is_focused());
                match r {
                    Some(w) => k >= 0 && w@ == self@.windows[k],
                    None => k < 0,
                }
            }),
    {
        let ghost recs = window_records(self.windows@);
        let mut k: usize = 0;
        while k < self.windows.len()
            invariant
                recs == window_records(self.windows@),
                k <= self.windows@.len(),
                forall|j: int| 0 <= j < k ==> !is_focused()(#[trigger] recs[j]),
            decreases self.windows@.len() - k,
        {
            if self.windows[k].focused {
                proof {
                    lemma_first_match(recs, is_focused(), k as int);
                }
                return Some(&self.windows[k]);
            }
            k = k + 1;
        }
        proof {
            lemma_first_match(recs, is_focused(), k as int);
        }
        None
    }

    /// Get visible window count
    pub fn visible_window_count(&self) -> (r: u32)
        ensures
            r == count_matching(self@.windows, is_visible(), self@.windows.len() as int) as u32,
    {
        let ghost recs = window_records(self.windows@);
        let mut n: usize = 0;
        let mut i: usize = 0;
        while i < self.windows.len()
            invariant
                recs == window_records(self.windows@),
                i <= self.windows@.len(),
                n == count_matching(recs, is_visible(), i as int),
                n <= i,
            decreases self.windows@.len() - i,
        {
            if self.windows[i].visible {
                n = n + 1;
            }
            i = i + 1;
        }
        n as u32
    }

    /// Enable/disable profiling
    pub fn set_profiling_enabled(&mut self, enabled: bool)
        ensures
            final(self)@ == (DeveloperModel { profiling_enabled: enabled, ..old(self)@ }),
    {
        self.profiling_enabled = enabled;
    }

    /// Get profiling status
    pub fn is_profiling_enabled(&self) -> (r: bool)
        ensures
            r == self@.profiling_enabled,
    {
        self.profiling_enabled
    }

    /// Generate diagnostic dump
    pub fn generate_diagnostics(&self) -> (r: String)
        ensures
            r@ == diagnostics_text(self@),
    {
        let mut dump = copy_str("=== System Diagnostics ===\n");
        dump.append("Memory: ");
        dump.append(decimal_string(self.memory_stats.used_kb as u64).as_str());
        dump.append(" KB used / ");
        dump.append(decimal_string(self.memory_stats.total_kb as u64).as_str());
        dump.append(" KB total\n");
        dump.append("CPU Usage: ");
        dump.append(decimal_string(self.cpu_stats.usage_percent as u64).as_str());
        dump.append("%\n");
        dump.append("Processes: ");
        dump.append(decimal_string(self.processes.len() as u64).as_str());
        dump.append("\n");
        dump.append("Windows: ");
        dump.append(decimal_string(self.windows.len() as u64).as_str());
        dump.append("\n");
        dump.append("Log Entries: ");
        dump.append(decimal_string(self.logs.len() as u64).as_str());
        dump.append("\n");
        dump
    }
}

/// Sums over a prefix never exceed the sum over the whole.
proof fn lemma_memory_sum_prefix(s: Seq<ProcessRecord>, n: int)
    requires
        0 <= n <= s.len(),
    ensures
        memory_sum(s.subrange(0, n)) <= memory_sum(s),
    decreases s.len(),
{
    if n < s.len() {
        lemma_memory_sum_prefix(s.drop_last(), n);
        assert(s.drop_last().subrange(0, n) =~= s.subrange(0, n));
    } else {
        assert(s.subrange(0, n) =~= s);
    }
}

} // verus!
