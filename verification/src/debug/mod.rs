//! Diagnostics: log levels and the logger's filter, timing statistics,
//! error records and connection health.
pub mod error_analysis;
pub mod client_server;

use vstd::prelude::*;
use crate::keyed::{as_map, entries_view, find_key, keys_unique, lemma_index_of_key, upsert};
use crate::platform::local_now_text;

verus! {

/// How serious a log message is, from least to most.
#[derive(Debug, Clone, Copy, PartialEq, Eq, Structural)]
pub enum LogLevel {
    Trace,
    Debug,
    Info,
    Warning,
    Error,
}

impl View for LogLevel {
    type V = LogLevel;

    open spec fn view(&self) -> LogLevel {
        *self
    }
}

/// The position of a level in the order Trace < Debug < Info < Warning < Error.
pub open spec fn level_rank(l: LogLevel) -> nat {
    match l {
        LogLevel::Trace => 0,
        LogLevel::Debug => 1,
        LogLevel::Info => 2,
        LogLevel::Warning => 3,
        LogLevel::Error => 4,
    }
}

/// The label of a level in log lines.
pub open spec fn level_label(l: LogLevel) -> Seq<char> {
    match l {
        LogLevel::Trace => "TRACE"@,
        LogLevel::Debug => "DEBUG"@,
        LogLevel::Info => "INFO"@,
        LogLevel::Warning => "WARN"@,
        LogLevel::Error => "ERROR"@,
    }
}

impl LogLevel {
    /// The position of this level in the order of seriousness.
    pub fn rank(&self) -> (r: u8)
        ensures
            r == level_rank(*self),
    {
        match self {
            LogLevel::Trace => 0,
            LogLevel::Debug => 1,
            LogLevel::Info => 2,
            LogLevel::Warning => 3,
            LogLevel::Error => 4,
        }
    }

    /// The label of this level in log lines.
    pub fn to_string(&self) -> (s: String)
        ensures
            s@ == level_label(*self),
    {
        let s = match self {
            LogLevel::Trace => "TRACE",
            LogLevel::Debug => "DEBUG",
            LogLevel::Info => "INFO",
            LogLevel::Warning => "WARN",
            LogLevel::Error => "ERROR",
        };
        String::from_str(s)
    }
}

/// Where log lines go and which of them are kept: a global level and
/// levels for single modules.
#[derive(Debug)]
pub struct Logger {
    pub file_path: Option<String>,
    pub print_to_console: bool,
    pub global_level: LogLevel,
    pub module_levels: Vec<(String, LogLevel)>,
}

impl Logger {
    /// Each module is stored once.
    pub open spec fn wf(&self) -> bool {
        keys_unique(entries_view(self.module_levels@))
    }

    /// The levels set for single modules.
    pub open spec fn levels(&self) -> Map<Seq<char>, LogLevel> {
        as_map(entries_view(self.module_levels@))
    }

    /// The level that applies to `module`.
    pub open spec fn level_for(&self, module: Seq<char>) -> LogLevel {
        if self.levels().dom().contains(module) {
            self.levels()[module]
        } else {
            self.global_level
        }
    }

    /// A logger printing to the console at level Info, with no file and no
    /// module levels.
    pub fn new() -> (l: Logger)
        ensures
            l.wf(),
            l.file_path is None,
            l.print_to_console,
            l.global_level == LogLevel::Info,
            l.levels() == Map::<Seq<char>, LogLevel>::empty(),
    {
        let l = Logger { file_path: None, print_to_console: true, global_level: LogLevel::Info, module_levels: Vec::new() };
        assert(l.levels() =~= Map::<Seq<char>, LogLevel>::empty());
        l
    }

    /// Sets where lines go and the global level; module levels stay.
    pub fn init(&mut self, file_path: Option<&str>, print_to_console: bool, global_level: LogLevel)
        requires
            old(self).wf(),
        ensures
            final(self).wf(),
            final(self).file_path matches Some(p) ==> file_path matches Some(q) && p@ == q@,
            final(self).file_path is None <==> file_path is None,
            final(self).print_to_console == print_to_console,
            final(self).global_level == global_level,
            final(self).module_levels@ == old(self).module_levels@,
    {
        self.file_path = match file_path {
            Some(p) => Some(String::from_str(p)),
            None => None,
        };
        self.print_to_console = print_to_console;
        self.global_level = global_level;
    }
}

/// Sets the level that applies to `module`.
pub fn set_module_level(logger: &mut Logger, module: &str, level: LogLevel)
    requires
        old(logger).wf(),
    ensures
        final(logger).wf(),
        final(logger).levels() == old(logger).levels().insert(module@, level),
        final(logger).global_level == old(logger).global_level,
        final(logger).print_to_console == old(logger).print_to_console,
        final(logger).file_path == old(logger).file_path,
{
    upsert(&mut logger.module_levels, String::from_str(module), level);
}

/// The level that applies to `module`: its own if set, else the global one.
pub fn get_module_level(logger: &Logger, module: &str) -> (l: LogLevel)
    requires
        logger.wf(),
    ensures
        l == logger.level_for(module@),
{
    let ghost s = entries_view(logger.module_levels@);
    proof {
        lemma_index_of_key(s, module@);
    }
    match find_key(&logger.module_levels, module) {
        Some(i) => logger.module_levels[i].1,
        None => logger.global_level,
    }
}

/// The level named by `name` ("trace", "debug", "info", "warn" or
/// "warning", "error"); Info for any other name or none.
pub open spec fn level_named(name: Option<Seq<char>>) -> LogLevel {
    match name {
        Some(n) => if n == "trace"@ {
            LogLevel::Trace
        } else if n == "debug"@ {
            LogLevel::Debug
        } else if n == "info"@ {
            LogLevel::Info
        } else if n == "warn"@ || n == "warning"@ {
            LogLevel::Warning
        } else if n == "error"@ {
            LogLevel::Error
        } else {
            LogLevel::Info
        },
        None => LogLevel::Info,
    }
}

/// The level named by a setting such as the DEBUG_LEVEL variable.
pub fn log_level_from_name(name: Option<&str>) -> (l: LogLevel)
    ensures
        l == level_named(match name {
            Some(n) => Some(n@),
            None => None,
        }),
{
    match name {
        Some(n) => if crate::text::str_eq(n, "trace") {
            LogLevel::Trace
        } else if crate::text::str_eq(n, "debug") {
            LogLevel::Debug
        } else if crate::text::str_eq(n, "info") {
            LogLevel::Info
        } else if crate::text::str_eq(n, "warn") || crate::text::str_eq(n, "warning") {
            LogLevel::Warning
        } else if crate::text::str_eq(n, "error") {
            LogLevel::Error
        } else {
            LogLevel::Info
        },
        None => LogLevel::Info,
    }
}

/// A log line: "[time] [LEVEL] [module] message".
pub open spec fn log_line(time: Seq<char>, level: LogLevel, module: Seq<char>, message: Seq<char>) -> Seq<char> {
    "["@ + time + "] ["@ + level_label(level) + "] ["@ + module + "] "@ + message
}

/// The log line for `message`, stamped with the time text `time`.
pub fn format_log_line(time: &str, level: LogLevel, module: &str, message: &str) -> (s: String)
    ensures
        s@ == log_line(time@, level, module@, message@),
{
    let mut s = String::from_str("[");
    s.append(time);
    s.append("] [");
    s.append(level.to_string().as_str());
    s.append("] [");
    s.append(module);
    s.append("] ");
    s.append(message);
    s
}

/// Whether a message at `level` from `module` passes the logger's filter.
pub open spec fn passes(logger: Logger, level: LogLevel, module: Seq<char>) -> bool {
    level_rank(level) >= level_rank(logger.level_for(module))
}

/// The line to write for a message, stamped with the local time, or `None`
/// when the message is below the level that applies to its module.
pub fn log_internal(logger: &Logger, level: LogLevel, module: &str, message: &str) -> (r: Option<String>)
    requires
        logger.wf(),
    ensures
        r is Some <==> passes(*logger, level, module@),
        r matches Some(s) ==> exists|time: Seq<char>| s@ == #[trigger] log_line(time, level, module@, message@),
{
    let applies = get_module_level(logger, module);
    if level.rank() < applies.rank() {
        return None;
    }
    let time = local_now_text();
    let s = format_log_line(time.as_str(), level, module, message);
    assert(s@ == log_line(time@, level, module@, message@));
    Some(s)
}

/// The line for an Info message from "main", if it passes the filter.
pub fn info(logger: &Logger, msg: &str) -> (r: Option<String>)
    requires
        logger.wf(),
    ensures
        r is Some <==> passes(*logger, LogLevel::Info, "main"@),
        r matches Some(s) ==> exists|time: Seq<char>| s@ == #[trigger] log_line(time, LogLevel::Info, "main"@, msg@),
{
    log_internal(logger, LogLevel::Info, "main", msg)
}

/// The line for a Debug message from "main", if it passes the filter.
pub fn debug(logger: &Logger, msg: &str) -> (r: Option<String>)
    requires
        logger.wf(),
    ensures
        r is Some <==> passes(*logger, LogLevel::Debug, "main"@),
        r matches Some(s) ==> exists|time: Seq<char>| s@ == #[trigger] log_line(time, LogLevel::Debug, "main"@, msg@),
{
    log_internal(logger, LogLevel::Debug, "main", msg)
}

/// The line for an Error message from "main", if it passes the filter.
pub fn error(logger: &Logger, msg: &str) -> (r: Option<String>)
    requires
        logger.wf(),
    ensures
        r is Some <==> passes(*logger, LogLevel::Error, "main"@),
        r matches Some(s) ==> exists|time: Seq<char>| s@ == #[trigger] log_line(time, LogLevel::Error, "main"@, msg@),
{
    log_internal(logger, LogLevel::Error, "main", msg)
}

/// The line for a Warning message from "main", if it passes the filter.
pub fn warning(logger: &Logger, msg: &str) -> (r: Option<String>)
    requires
        logger.wf(),
    ensures
        r is Some <==> passes(*logger, LogLevel::Warning, "main"@),
        r matches Some(s) ==> exists|time: Seq<char>| s@ == #[trigger] log_line(time, LogLevel::Warning, "main"@, msg@),
{
    log_internal(logger, LogLevel::Warning, "main", msg)
}

/// The line for a Trace message from "main", if it passes the filter.
pub fn trace(logger: &Logger, msg: &str) -> (r: Option<String>)
    requires
        logger.wf(),
    ensures
        r is Some <==> passes(*logger, LogLevel::Trace, "main"@),
        r matches Some(s) ==> exists|time: Seq<char>| s@ == #[trigger] log_line(time, LogLevel::Trace, "main"@, msg@),
{
    log_internal(logger, LogLevel::Trace, "main", msg)
}

/// Durations recorded per operation, in nanoseconds, oldest first.
#[derive(Debug)]
pub struct Timings {
    pub entries: Vec<(String, Vec<u64>)>,
}

impl Timings {
    /// Each operation is stored once.
    pub open spec fn wf(&self) -> bool {
        keys_unique(entries_view(self.entries@))
    }

    /// The durations recorded for each operation.
    pub open spec fn series(&self) -> Map<Seq<char>, Seq<u64>> {
        as_map(entries_view(self.entries@))
    }

    /// No timings yet.
    pub fn new() -> (t: Timings)
        ensures
            t.wf(),
            t.series() == Map::<Seq<char>, Seq<u64>>::empty(),
    {
        let t = Timings { entries: Vec::new() };
        assert(t.series() =~= Map::<Seq<char>, Seq<u64>>::empty());
        t
    }
}

/// The durations recorded for `op` (none when it was never timed).
pub open spec fn series_for(t: Timings, op: Seq<char>) -> Seq<u64> {
    if t.series().dom().contains(op) {
        t.series()[op]
    } else {
        Seq::empty()
    }
}

/// Records one duration of `operation`.
pub fn record_timing(timings: &mut Timings, operation: &str, duration: u64)
    requires
        old(timings).wf(),
    ensures
        final(timings).wf(),
        final(timings).series() == old(timings).series().insert(operation@, series_for(*old(timings), operation@).push(duration)),
{
    let ghost s = entries_view(timings.entries@);
    proof {
        lemma_index_of_key(s, operation@);
    }
    let mut series: Vec<u64> = match find_key(&timings.entries, operation) {
        Some(i) => timings.entries[i].1.clone(),
        None => Vec::new(),
    };
    proof {
        assert(series@ == series_for(*timings, operation@));
    }
    series.push(duration);
    upsert(&mut timings.entries, String::from_str(operation), series);
}

/// The sum of a series of durations.
pub open spec fn total_of(s: Seq<u64>) -> nat
    decreases s.len(),
{
    if s.len() == 0 {
        0
    } else {
        total_of(s.drop_last()) + (s.last() as nat)
    }
}

/// The shortest duration of a non-empty series.
pub open spec fn shortest(s: Seq<u64>) -> u64
    decreases s.len(),
{
    if s.len() <= 1 {
        s[0]
    } else if s.last() < shortest(s.drop_last()) {
        s.last()
    } else {
        shortest(s.drop_last())
    }
}

/// The longest duration of a non-empty series.
pub open spec fn longest(s: Seq<u64>) -> u64
    decreases s.len(),
{
    if s.len() <= 1 {
        s[0]
    } else if s.last() > longest(s.drop_last()) {
        s.last()
    } else {
        longest(s.drop_last())
    }
}

proof fn lemma_total_grows(s: Seq<u64>, i: int)
    requires
        0 <= i <= s.len(),
    ensures
        total_of(s.take(i)) <= total_of(s),
    decreases s.len(),
{
    if i < s.len() {
        lemma_total_grows(s.drop_last(), i);
        assert(s.drop_last().take(i) =~= s.take(i));
    } else {
        assert(s.take(i) =~= s);
    }
}

/// The most nanoseconds a `Duration` holds.
pub open spec fn duration_max_nanos() -> nat {
    0xffff_ffff_ffff_ffff * 1_000_000_000 + 999_999_999
}

/// What the average divides by: the number of recorded durations, as a
/// `u32` (its low 32 bits).
pub open spec fn count_divisor(s: Seq<u64>) -> nat {
    (s.len() as u32) as nat
}

/// The shortest, average (rounded down) and longest duration recorded for
/// `operation`, in nanoseconds, or `None` when it has none. The total of
/// the durations has to fit in a `Duration`; the average divides it by the
/// number of durations taken as a `u32`.
pub fn get_timing_stats(timings: &Timings, operation: &str) -> (r: Option<(u64, u64, u64)>)
    requires
        timings.wf(),
        total_of(series_for(*timings, operation@)) <= duration_max_nanos(),
        series_for(*timings, operation@).len() > 0 ==> count_divisor(series_for(*timings, operation@)) > 0,
        series_for(*timings, operation@).len() > u32::MAX ==> total_of(series_for(*timings, operation@))
            / count_divisor(series_for(*timings, operation@)) <= u64::MAX,
    ensures
        r is None <==> series_for(*timings, operation@).len() == 0,
        r matches Some((lo, avg, hi)) ==> {
            let s = series_for(*timings, operation@);
            &&& lo == shortest(s)
            &&& avg == total_of(s) / count_divisor(s)
            &&& hi == longest(s)
        },
        r matches Some((lo, avg, hi)) ==> series_for(*timings, operation@).len() <= u32::MAX ==> lo <= avg <= hi,
{
    let ghost s = entries_view(timings.entries@);
    proof {
        lemma_index_of_key(s, operation@);
    }
    let i = match find_key(&timings.entries, operation) {
        Some(i) => i,
        None => {
            return None;
        },
    };
    let series = &timings.entries[i].1;
    let ghost sv = series@;
    assert(sv == series_for(*timings, operation@));
    let n = series.len();
    if n == 0 {
        return None;
    }
    let mut total: u128 = series[0] as u128;
    let mut lo: u64 = series[0];
    let mut hi: u64 = series[0];
    proof {
        assert(sv.take(1).drop_last().len() == 0);
        assert(total_of(sv.take(1).drop_last()) == 0);
        assert(sv.take(1).last() == sv[0]);
        assert(total_of(sv.take(1)) == sv[0]);
        lemma_total_grows(sv, 1);
    }
    let mut j: usize = 1;
    while j < n
        invariant
            1 <= j <= n,
            n == sv.len(),
            sv == series@,
            total_of(sv) <= duration_max_nanos(),
            total == total_of(sv.take(j as int)),
            lo == shortest(sv.take(j as int)),
            hi == longest(sv.take(j as int)),
        decreases n - j,
    {
        let d = series[j];
        proof {
            assert(sv.take(j + 1).drop_last() =~= sv.take(j as int));
            assert(sv.take(j + 1).last() == d);
            lemma_total_grows(sv, j + 1);
        }
        total = total + d as u128;
        if d < lo {
            lo = d;
        }
        if d > hi {
            hi = d;
        }
        j = j + 1;
    }
    proof {
        assert(sv.take(n as int) =~= sv);
    }
    let divisor = n as u32;
    let avg = total / (divisor as u128);
    proof {
        if n <= u32::MAX {
            assert(divisor == n);
            law_average_between_extremes(sv);
        }
    }
    Some((lo, avg as u64, hi))
}

/// After a module's level is set, that module reads back the level set,
/// and every other module reads what it read before.
pub proof fn law_module_level_read_back(before: Logger, after: Logger, module: Seq<char>, level: LogLevel)
    requires
        after.levels() == before.levels().insert(module, level),
        after.global_level == before.global_level,
    ensures
        after.level_for(module) == level,
        forall|other: Seq<char>| other != module ==> #[trigger] after.level_for(other) == before.level_for(other),
{
}

proof fn lemma_total_bounds(s: Seq<u64>)
    requires
        s.len() > 0,
    ensures
        shortest(s) * s.len() <= total_of(s) <= longest(s) * s.len(),
        shortest(s) <= longest(s),
    decreases s.len(),
{
    if s.len() == 1 {
        assert(s.drop_last().len() == 0);
        assert(total_of(s.drop_last()) == 0);
        assert(total_of(s) == s[0]);
    } else {
        let p = s.drop_last();
        lemma_total_bounds(p);
        assert(total_of(s) == total_of(p) + s.last());
        assert(shortest(s) <= s.last() <= longest(s));
        let lo = shortest(s);
        let hi = longest(s);
        let n = p.len();
        assert(lo <= shortest(p) && hi >= longest(p));
        assert(lo * n <= shortest(p) * n) by (nonlinear_arith)
            requires
                lo <= shortest(p),
        ;
        assert(longest(p) * n <= hi * n) by (nonlinear_arith)
            requires
                longest(p) <= hi,
        ;
        assert(lo * (n + 1) == lo * n + lo) by (nonlinear_arith);
        assert(hi * (n + 1) == hi * n + hi) by (nonlinear_arith);
    }
}

/// The average of recorded durations lies between the shortest and the longest.
pub proof fn law_average_between_extremes(s: Seq<u64>)
    requires
        s.len() > 0,
    ensures
        shortest(s) <= total_of(s) / s.len() <= longest(s),
{
    lemma_total_bounds(s);
    let n = s.len();
    let t = total_of(s);
    assert(shortest(s) <= t / n) by (nonlinear_arith)
        requires
            shortest(s) * n <= t,
            n > 0,
    ;
    assert(t / n <= longest(s)) by (nonlinear_arith)
        requires
            t <= longest(s) * n,
            n > 0,
    ;
}

} // verus!
