//! CPU time accounting read from `/proc/stat`.

use crate::monitor::error::MonitorError;
use crate::monitor::text::{
    has_char_prefix, parse_u64, parsed_u64, split_lines, split_words, str_starts_with, text_lines,
    trim_chars, trim_str, words,
};
use vstd::prelude::*;

verus! {

/// CPU frequency information.
#[derive(Debug, Clone, Copy, PartialEq, Eq, Structural, Default)]
pub struct CpuFrequency {
    /// Current frequency in MHz.
    pub current_mhz: u64,
    /// Minimum frequency in MHz.
    pub min_mhz: u64,
    /// Maximum frequency in MHz.
    pub max_mhz: u64,
}

/// CPU time counters of one `/proc/stat` line, in clock ticks.
#[derive(Debug, Clone, Copy, PartialEq, Eq, Structural)]
pub struct CpuStats {
    /// Time in user mode.
    pub user: u64,
    /// Time in user mode with low priority.
    pub nice: u64,
    /// Time in system mode.
    pub system: u64,
    /// Idle time.
    pub idle: u64,
    /// Time waiting for I/O.
    pub iowait: u64,
    /// Time servicing interrupts.
    pub irq: u64,
    /// Time servicing soft interrupts.
    pub softirq: u64,
    /// Time stolen by other guests.
    pub steal: u64,
}

/// All counters at zero.
pub open spec fn zero_stats() -> CpuStats {
    CpuStats { user: 0, nice: 0, system: 0, idle: 0, iowait: 0, irq: 0, softirq: 0, steal: 0 }
}

/// The sum of all counters.
pub open spec fn total_ticks(s: CpuStats) -> int {
    s.user + s.nice + s.system + s.idle + s.iowait + s.irq + s.softirq + s.steal
}

/// Idle plus I/O wait.
pub open spec fn idle_ticks(s: CpuStats) -> int {
    s.idle + s.iowait
}

impl Default for CpuStats {
    /// All counters at zero.
    fn default() -> (s: Self)
        ensures
            s == zero_stats(),
    {
        CpuStats { user: 0, nice: 0, system: 0, idle: 0, iowait: 0, irq: 0, softirq: 0, steal: 0 }
    }
}

impl CpuStats {
    /// Total CPU time: the sum of all counters.
    pub fn total(&self) -> (r: u64)
        requires
            total_ticks(*self) <= u64::MAX,
        ensures
            r == total_ticks(*self),
    {
        self.user + self.nice + self.system + self.idle + self.iowait + self.irq + self.softirq
            + self.steal
    }

    /// Idle time: idle plus I/O wait.
    pub fn idle_time(&self) -> (r: u64)
        requires
            idle_ticks(*self) <= u64::MAX,
        ensures
            r == idle_ticks(*self),
    {
        self.idle + self.iowait
    }
}

/// `a - b`, or 0 when `b` exceeds `a`.
pub open spec fn sat_sub(a: int, b: int) -> int {
    if a >= b {
        a - b
    } else {
        0
    }
}

/// The busy and the total ticks elapsed between two samples (each floored at zero).
/// The busy share of the total is the CPU usage.
pub fn usage_deltas(prev: &CpuStats, curr: &CpuStats) -> (r: (u64, u64))
    requires
        total_ticks(*prev) <= u64::MAX,
        total_ticks(*curr) <= u64::MAX,
    ensures
        r.1 == sat_sub(total_ticks(*curr), total_ticks(*prev)),
        r.0 == sat_sub(
            r.1 as int,
            sat_sub(idle_ticks(*curr), idle_ticks(*prev)),
        ),
        r.0 <= r.1,
{
    let total_delta = curr.total().saturating_sub(prev.total());
    let idle_delta = curr.idle_time().saturating_sub(prev.idle_time());
    let used_delta = total_delta.saturating_sub(idle_delta);
    (used_delta, total_delta)
}

/// The counter in word `k` of a line, 0 when the word is missing or not a number.
pub open spec fn tick_field(w: Seq<Seq<char>>, k: int) -> u64 {
    if k < w.len() {
        match parsed_u64(w[k]) {
            Some(v) => v,
            None => 0,
        }
    } else {
        0
    }
}

/// The counters of a `/proc/stat` CPU line: words 1 to 8 after the `cpu` label.
pub open spec fn stats_of_words(w: Seq<Seq<char>>) -> CpuStats {
    CpuStats {
        user: tick_field(w, 1),
        nice: tick_field(w, 2),
        system: tick_field(w, 3),
        idle: tick_field(w, 4),
        iowait: tick_field(w, 5),
        irq: tick_field(w, 6),
        softirq: tick_field(w, 7),
        steal: tick_field(w, 8),
    }
}

/// A CPU line is accepted when it has at least eight words.
pub open spec fn valid_cpu_line(line: Seq<char>) -> bool {
    words(line).len() >= 8
}

/// The error raised for a malformed `/proc/stat` line.
pub open spec fn is_format_error(e: MonitorError) -> bool {
    e matches MonitorError::CollectionFailed { collector, message } && collector@ == "cpu"@
        && message@ == "Invalid /proc/stat format"@
}

fn word_ticks(w: &Vec<&str>, k: usize) -> (r: u64)
    ensures
        r == tick_field(w@.map_values(|s: &str| s@), k as int),
{
    if k < w.len() {
        match parse_u64(w[k]) {
            Some(v) => v,
            None => 0,
        }
    } else {
        0
    }
}

/// The counters of a `/proc/stat` CPU line with words `w` (word 0 is the label): user,
/// nice, system, idle, I/O wait, interrupts, soft interrupts and steal are words 1 to 8
/// (0 when missing or not a number).
pub open spec fn cpu_line_columns(s: CpuStats, w: Seq<Seq<char>>) -> bool {
    &&& s.user == (match parsed_u64(w[1]) { Some(v) => v, None => 0 })
    &&& s.nice == (match parsed_u64(w[2]) { Some(v) => v, None => 0 })
    &&& s.system == (match parsed_u64(w[3]) { Some(v) => v, None => 0 })
    &&& s.idle == (match parsed_u64(w[4]) { Some(v) => v, None => 0 })
    &&& s.iowait == (match parsed_u64(w[5]) { Some(v) => v, None => 0 })
    &&& s.irq == (match parsed_u64(w[6]) { Some(v) => v, None => 0 })
    &&& s.softirq == (match parsed_u64(w[7]) { Some(v) => v, None => 0 })
    &&& s.steal == (if w.len() > 8 { match parsed_u64(w[8]) { Some(v) => v, None => 0 } } else { 0 })
}

/// The counters read from a CPU line of at least eight words come each from its own
/// column: user time from word 1, system time from word 3, idle time from word 4, and so on.
pub proof fn lemma_cpu_line_columns(w: Seq<Seq<char>>)
    requires
        w.len() >= 8,
    ensures
        cpu_line_columns(stats_of_words(w), w),
{
}

/// Parses one CPU line of `/proc/stat` (`cpu user nice system idle iowait irq softirq [steal]`).
pub fn parse_cpu_line(line: &str) -> (r: Result<CpuStats, MonitorError>)
    ensures
        valid_cpu_line(line@) <==> r is Ok,
        r matches Ok(s) ==> s == stats_of_words(words(line@)),
        r matches Err(e) ==> is_format_error(e),
        r is Ok <==> words(line@).len() >= 8,
        r matches Ok(s) ==> cpu_line_columns(s, words(line@)),
{
    let parts = split_words(line);
    let ghost w = words(line@);
    proof {
        assert(parts@.map_values(|s: &str| s@) =~= w);
    }
    if parts.len() < 8 {
        return Err(MonitorError::CollectionFailed {
            collector: "cpu",
            message: "Invalid /proc/stat format".to_string(),
        });
    }
    Ok(CpuStats {
        user: word_ticks(&parts, 1),
        nice: word_ticks(&parts, 2),
        system: word_ticks(&parts, 3),
        idle: word_ticks(&parts, 4),
        iowait: word_ticks(&parts, 5),
        irq: word_ticks(&parts, 6),
        softirq: word_ticks(&parts, 7),
        steal: word_ticks(&parts, 8),
    })
}

/// Reading `/proc/stat` line by line: the aggregate `cpu ` line sets the total, each
/// `cpuN` line adds a core, other lines are skipped; `None` when a CPU line is malformed.
pub open spec fn scan_stat_lines(lines: Seq<Seq<char>>) -> Option<(CpuStats, Seq<CpuStats>)>
    decreases lines.len(),
{
    if lines.len() == 0 {
        Some((zero_stats(), Seq::empty()))
    } else {
        match scan_stat_lines(lines.drop_last()) {
            None => None,
            Some((total, cores)) => {
                let l = lines.last();
                if has_char_prefix(l, "cpu "@) {
                    if valid_cpu_line(l) {
                        Some((stats_of_words(words(l)), cores))
                    } else {
                        None
                    }
                } else if has_char_prefix(l, "cpu"@) {
                    if valid_cpu_line(l) {
                        Some((total, cores.push(stats_of_words(words(l)))))
                    } else {
                        None
                    }
                } else {
                    Some((total, cores))
                }
            },
        }
    }
}

/// The per-core lines of `/proc/stat` (starting with `cpu` but not `cpu `), in order.
pub open spec fn core_lines(lines: Seq<Seq<char>>) -> Seq<Seq<char>>
    decreases lines.len(),
{
    if lines.len() == 0 {
        Seq::empty()
    } else if has_char_prefix(lines.last(), "cpu"@) && !has_char_prefix(lines.last(), "cpu "@) {
        core_lines(lines.drop_last()).push(lines.last())
    } else {
        core_lines(lines.drop_last())
    }
}

/// Reading `/proc/stat` fails exactly when a line starting with `cpu` has fewer than
/// eight words. Otherwise there is one set of per-core figures per core line, as many as
/// the core lines counted, each read from its own line's columns; without an aggregate
/// `cpu ` line the aggregate figures are all 0.
pub proof fn lemma_proc_stat_cores(lines: Seq<Seq<char>>)
    ensures
        scan_stat_lines(lines) is None <==> exists|j: int|
            0 <= j < lines.len() && has_char_prefix(#[trigger] lines[j], "cpu"@) && words(lines[j]).len() < 8,
        scan_stat_lines(lines) matches Some((t, cs)) ==> {
            &&& cs.len() == core_line_count(lines)
            &&& cs.len() == core_lines(lines).len()
            &&& forall|k: int| 0 <= k < cs.len() ==> cpu_line_columns(#[trigger] cs[k], words(core_lines(lines)[k]))
            &&& (forall|j: int| 0 <= j < lines.len() ==> !has_char_prefix(#[trigger] lines[j], "cpu "@)) ==> t == zero_stats()
        },
    decreases lines.len(),
{
    if lines.len() > 0 {
        let init = lines.drop_last();
        let l = lines.last();
        lemma_proc_stat_cores(init);
        lemma_prefix_cpu(l);
        assert forall|j: int| 0 <= j < init.len() implies #[trigger] init[j] == lines[j] by {}
        if scan_stat_lines(init) is None {
            let j = choose|j: int| 0 <= j < init.len() && has_char_prefix(#[trigger] init[j], "cpu"@) && words(init[j]).len() < 8;
            assert(lines[j] == init[j]);
        } else {
            if exists|j: int| 0 <= j < lines.len() && has_char_prefix(#[trigger] lines[j], "cpu"@) && words(lines[j]).len() < 8 {
                let j = choose|j: int| 0 <= j < lines.len() && has_char_prefix(#[trigger] lines[j], "cpu"@) && words(lines[j]).len() < 8;
                if j < init.len() {
                    assert(init[j] == lines[j]);
                } else {
                    assert(j == lines.len() - 1);
                }
            }
            let (t0, cs0) = scan_stat_lines(init)->0;
            if has_char_prefix(l, "cpu"@) && valid_cpu_line(l) {
                lemma_cpu_line_columns(words(l));
            }
            if scan_stat_lines(lines) is Some && (forall|j: int| 0 <= j < lines.len() ==> !has_char_prefix(#[trigger] lines[j], "cpu "@)) {
                assert forall|j: int| 0 <= j < init.len() implies !has_char_prefix(#[trigger] init[j], "cpu "@) by {
                    assert(init[j] == lines[j]);
                }
                assert(!has_char_prefix(lines[lines.len() - 1], "cpu "@));
            }
        }
    }
}

/// A line starting with `cpu ` starts with `cpu`.
proof fn lemma_prefix_cpu(l: Seq<char>)
    ensures
        has_char_prefix(l, "cpu "@) ==> has_char_prefix(l, "cpu"@),
{
    reveal_strlit("cpu ");
    reveal_strlit("cpu");
    if has_char_prefix(l, "cpu "@) {
        assert(l.subrange(0, 3) =~= "cpu"@);
    }
}

/// Parses the content of `/proc/stat` into the aggregate counters and the per-core counters.
pub fn parse_proc_stat_content(content: &str) -> (r: Result<(CpuStats, Vec<CpuStats>), MonitorError>)
    ensures
        scan_stat_lines(text_lines(content@)) is None <==> r is Err,
        r matches Ok((t, cs)) ==> scan_stat_lines(text_lines(content@)) == Some((t, cs@)),
        r matches Err(e) ==> is_format_error(e),
        r is Err <==> exists|j: int|
            0 <= j < text_lines(content@).len() && has_char_prefix(#[trigger] text_lines(content@)[j], "cpu"@)
                && words(text_lines(content@)[j]).len() < 8,
        r matches Ok((t, cs)) ==> {
            &&& cs@.len() == core_line_count(text_lines(content@))
            &&& forall|k: int| 0 <= k < cs@.len() ==> cpu_line_columns(#[trigger] cs@[k], words(core_lines(text_lines(content@))[k]))
            &&& (forall|j: int| 0 <= j < text_lines(content@).len() ==> !has_char_prefix(#[trigger] text_lines(content@)[j], "cpu "@)) ==> t == zero_stats()
        },
{
    proof {
        lemma_proc_stat_cores(text_lines(content@));
    }
    let lines = split_lines(content);
    let ghost ls = text_lines(content@);
    let mut total = CpuStats::default();
    let mut cores: Vec<CpuStats> = Vec::new();
    let mut i: usize = 0;
    while i < lines.len()
        invariant
            0 <= i <= lines@.len(),
            ls == text_lines(content@),
            lines@.len() == ls.len(),
            forall|j: int| 0 <= j < lines@.len() ==> #[trigger] lines@[j]@ == ls[j],
            scan_stat_lines(ls.subrange(0, i as int)) == Some((total, cores@)),
        decreases lines@.len() - i,
    {
        let line = lines[i];
        proof {
            assert(ls.subrange(0, i + 1).drop_last() =~= ls.subrange(0, i as int));
            assert(ls.subrange(0, i + 1).last() == line@);
        }
        if str_starts_with(line, "cpu ") {
            match parse_cpu_line(line) {
                Ok(s) => total = s,
                Err(e) => {
                    proof {
                        let pre = ls.subrange(0, i + 1);
                        assert(pre.drop_last() =~= ls.subrange(0, i as int));
                        assert(pre.last() == line@);
                        assert(scan_stat_lines(pre) is None);
                        lemma_scan_none_extends(ls, i as int + 1);
                        lemma_proc_stat_cores(ls);
                    }
                    return Err(e);
                },
            }
        } else if str_starts_with(line, "cpu") {
            match parse_cpu_line(line) {
                Ok(s) => cores.push(s),
                Err(e) => {
                    proof {
                        let pre = ls.subrange(0, i + 1);
                        assert(pre.drop_last() =~= ls.subrange(0, i as int));
                        assert(pre.last() == line@);
                        assert(scan_stat_lines(pre) is None);
                        lemma_scan_none_extends(ls, i as int + 1);
                        lemma_proc_stat_cores(ls);
                    }
                    return Err(e);
                },
            }
        }
        i = i + 1;
    }
    proof {
        assert(ls.subrange(0, i as int) =~= ls);
    }
    Ok((total, cores))
}

/// Once a prefix of the lines is rejected, the whole text is.
proof fn lemma_scan_none_extends(ls: Seq<Seq<char>>, k: int)
    requires
        0 <= k <= ls.len(),
        scan_stat_lines(ls.subrange(0, k)) is None,
    ensures
        scan_stat_lines(ls) is None,
    decreases ls.len() - k,
{
    if k == ls.len() {
        assert(ls.subrange(0, k) =~= ls);
    } else {
        assert(ls.subrange(0, k + 1).drop_last() =~= ls.subrange(0, k));
        lemma_scan_none_extends(ls, k + 1);
    }
}

/// The number of per-core lines (`cpuN`, not the aggregate `cpu `) among `lines`.
pub open spec fn core_line_count(lines: Seq<Seq<char>>) -> nat
    decreases lines.len(),
{
    if lines.len() == 0 {
        0
    } else {
        core_line_count(lines.drop_last()) + if has_char_prefix(lines.last(), "cpu"@)
            && !has_char_prefix(lines.last(), "cpu "@) {
            1nat
        } else {
            0nat
        }
    }
}

proof fn lemma_core_line_count_bound(lines: Seq<Seq<char>>)
    ensures
        core_line_count(lines) <= lines.len(),
    decreases lines.len(),
{
    if lines.len() > 0 {
        lemma_core_line_count_bound(lines.drop_last());
    }
}

/// The number of CPU cores listed in the content of `/proc/stat`.
pub fn count_core_lines(content: &str) -> (n: usize)
    ensures
        n == core_line_count(text_lines(content@)),
{
    let lines = split_lines(content);
    let ghost ls = text_lines(content@);
    let mut n: usize = 0;
    let mut i: usize = 0;
    while i < lines.len()
        invariant
            0 <= i <= lines@.len(),
            ls == text_lines(content@),
            lines@.len() == ls.len(),
            forall|j: int| 0 <= j < lines@.len() ==> #[trigger] lines@[j]@ == ls[j],
            n == core_line_count(ls.subrange(0, i as int)),
        decreases lines@.len() - i,
    {
        proof {
            assert(ls.subrange(0, i + 1).drop_last() =~= ls.subrange(0, i as int));
            lemma_core_line_count_bound(ls.subrange(0, i as int));
        }
        if str_starts_with(lines[i], "cpu") && !str_starts_with(lines[i], "cpu ") {
            n = n + 1;
        }
        i = i + 1;
    }
    proof {
        assert(ls.subrange(0, i as int) =~= ls);
    }
    n
}

/// A frequency file of `cpufreq` (kHz, surrounded by whitespace) in MHz: 0 when it is
/// not a number.
pub open spec fn khz_text_mhz(text: Seq<char>) -> u64 {
    match parsed_u64(trim_chars(text)) {
        Some(khz) => khz / 1000,
        None => 0,
    }
}

/// Reads a `cpufreq` frequency file (in kHz) as MHz.
pub fn mhz_from_khz_text(text: &str) -> (mhz: u64)
    ensures
        mhz == khz_text_mhz(text@),
{
    match parse_u64(trim_str(text)) {
        Some(khz) => khz / 1000,
        None => 0,
    }
}

/// The frequencies of a core from the contents of its `scaling_cur_freq`,
/// `scaling_min_freq` and `scaling_max_freq` files (an unreadable file reads as empty).
pub fn frequency_from_sysfs(current: &str, min: &str, max: &str) -> (f: CpuFrequency)
    ensures
        f.current_mhz == khz_text_mhz(current@),
        f.min_mhz == khz_text_mhz(min@),
        f.max_mhz == khz_text_mhz(max@),
{
    CpuFrequency {
        current_mhz: mhz_from_khz_text(current),
        min_mhz: mhz_from_khz_text(min),
        max_mhz: mhz_from_khz_text(max),
    }
}

/// The sum of the current frequencies.
pub open spec fn current_mhz_sum(fs: Seq<CpuFrequency>) -> int
    decreases fs.len(),
{
    if fs.len() == 0 {
        0
    } else {
        current_mhz_sum(fs.drop_last()) + fs.last().current_mhz
    }
}

proof fn lemma_current_sum_grows(fs: Seq<CpuFrequency>, i: int)
    requires
        0 <= i <= fs.len(),
    ensures
        current_mhz_sum(fs.subrange(0, i)) <= current_mhz_sum(fs),
    decreases fs.len() - i,
{
    if i < fs.len() {
        lemma_current_sum_grows(fs, i + 1);
        assert(fs.subrange(0, i + 1).drop_last() =~= fs.subrange(0, i));
    } else {
        assert(fs.subrange(0, i) =~= fs);
    }
}

/// The average current frequency over `core_count` cores: the sum of the current
/// frequencies divided by the core count, 0 without cores.
pub fn average_frequency_mhz(freqs: &[CpuFrequency], core_count: usize) -> (avg: u64)
    requires
        current_mhz_sum(freqs@) <= u64::MAX,
    ensures
        avg == (if core_count == 0 {
            0
        } else {
            current_mhz_sum(freqs@) / (core_count as int)
        }),
{
    let mut sum: u64 = 0;
    let mut i: usize = 0;
    while i < freqs.len()
        invariant
            0 <= i <= freqs@.len(),
            current_mhz_sum(freqs@) <= u64::MAX,
            sum == current_mhz_sum(freqs@.subrange(0, i as int)),
        decreases freqs@.len() - i,
    {
        proof {
            assert(freqs@.subrange(0, i + 1).drop_last() =~= freqs@.subrange(0, i as int));
            lemma_current_sum_grows(freqs@, i + 1);
        }
        sum = sum + freqs[i].current_mhz;
        i = i + 1;
    }
    proof {
        assert(freqs@.subrange(0, i as int) =~= freqs@);
    }
    if core_count == 0 {
        0
    } else {
        sum / (core_count as u64)
    }
}

/// Core `i` of a processor load table (four ticks per core: user, system, idle, nice);
/// the other counters are not reported and count as 0.
pub open spec fn load_core(t: Seq<u64>, i: int) -> CpuStats {
    CpuStats {
        user: t[4 * i],
        nice: t[4 * i + 3],
        system: t[4 * i + 1],
        idle: t[4 * i + 2],
        iowait: 0,
        irq: 0,
        softirq: 0,
        steal: 0,
    }
}

/// The sum of column `k` (0 user, 1 system, 2 idle, 3 nice) over the first `n` cores.
pub open spec fn column_sum(t: Seq<u64>, k: int, n: nat) -> int
    decreases n,
{
    if n == 0 {
        0
    } else {
        column_sum(t, k, (n - 1) as nat) + t[4 * (n - 1) + k]
    }
}

proof fn lemma_column_sum_mono(t: Seq<u64>, k: int, a: nat, b: nat)
    requires
        a <= b,
    ensures
        column_sum(t, k, a) <= column_sum(t, k, b),
    decreases b,
{
    if a < b {
        lemma_column_sum_mono(t, k, a, (b - 1) as nat);
    }
}

/// The cores of a processor load table and their column sums fit in `u64`.
pub open spec fn load_sums_fit(t: Seq<u64>) -> bool {
    forall|k: int| 0 <= k < 4 ==> #[trigger] column_sum(t, k, t.len() / 4) <= u64::MAX
}

/// Per-core counters of a processor load table (four ticks per core, in the order user,
/// system, idle, nice; a trailing partial group is ignored), and their sum over all cores.
pub fn cpu_stats_from_load_ticks(ticks: &[u64]) -> (r: (CpuStats, Vec<CpuStats>))
    requires
        load_sums_fit(ticks@),
    ensures
        r.1@.len() == ticks@.len() / 4,
        forall|i: int| 0 <= i < r.1@.len() ==> #[trigger] r.1@[i] == load_core(ticks@, i),
        forall|i: int| 0 <= i < r.1@.len() ==> {
            &&& (#[trigger] r.1@[i]).user == ticks@[4 * i]
            &&& r.1@[i].system == ticks@[4 * i + 1]
            &&& r.1@[i].idle == ticks@[4 * i + 2]
            &&& r.1@[i].nice == ticks@[4 * i + 3]
            &&& r.1@[i].iowait == 0 && r.1@[i].irq == 0 && r.1@[i].softirq == 0 && r.1@[i].steal == 0
        },
        r.0.user == column_sum(ticks@, 0, ticks@.len() / 4),
        r.0.system == column_sum(ticks@, 1, ticks@.len() / 4),
        r.0.idle == column_sum(ticks@, 2, ticks@.len() / 4),
        r.0.nice == column_sum(ticks@, 3, ticks@.len() / 4),
        r.0.iowait == 0 && r.0.irq == 0 && r.0.softirq == 0 && r.0.steal == 0,
{
    let total_len = ticks.len();
    let n = total_len / 4;
    let mut cores: Vec<CpuStats> = Vec::new();
    let mut user: u64 = 0;
    let mut system: u64 = 0;
    let mut idle: u64 = 0;
    let mut nice: u64 = 0;
    let mut i: usize = 0;
    while i < n
        invariant
            0 <= i <= n,
            n == ticks@.len() / 4,
            total_len == ticks@.len(),
            load_sums_fit(ticks@),
            cores@.len() == i,
            forall|j: int| 0 <= j < i ==> #[trigger] cores@[j] == load_core(ticks@, j),
            user == column_sum(ticks@, 0, i as nat),
            system == column_sum(ticks@, 1, i as nat),
            idle == column_sum(ticks@, 2, i as nat),
            nice == column_sum(ticks@, 3, i as nat),
        decreases n - i,
    {
        proof {
            let len = ticks@.len() as int;
            assert(4 * (i as int) + 4 <= len) by (nonlinear_arith)
                requires (i as int) < len / 4, 0 <= len;
        }
        let base = i * 4;
        proof {
            assert(base == 4 * i);
            assert(column_sum(ticks@, 0, 0) == 0);
            lemma_column_sum_mono(ticks@, 0, (i + 1) as nat, n as nat);
            lemma_column_sum_mono(ticks@, 1, (i + 1) as nat, n as nat);
            lemma_column_sum_mono(ticks@, 2, (i + 1) as nat, n as nat);
            lemma_column_sum_mono(ticks@, 3, (i + 1) as nat, n as nat);
            assert(column_sum(ticks@, 0, n as nat) <= u64::MAX);
            assert(column_sum(ticks@, 1, n as nat) <= u64::MAX);
            assert(column_sum(ticks@, 2, n as nat) <= u64::MAX);
            assert(column_sum(ticks@, 3, n as nat) <= u64::MAX);
        }
        let core = CpuStats {
            user: ticks[base],
            nice: ticks[base + 3],
            system: ticks[base + 1],
            idle: ticks[base + 2],
            iowait: 0,
            irq: 0,
            softirq: 0,
            steal: 0,
        };
        cores.push(core);
        user = user + ticks[base];
        system = system + ticks[base + 1];
        idle = idle + ticks[base + 2];
        nice = nice + ticks[base + 3];
        i = i + 1;
    }
    let total = CpuStats { user, nice, system, idle, iowait: 0, irq: 0, softirq: 0, steal: 0 };
    (total, cores)
}

} // verus!
