//! Process states as reported in `/proc/[pid]/stat`.

use crate::monitor::collectors::network::numbers_of;
use crate::monitor::text::{
    first_char, first_index_of, has_char_prefix, last_index_of, lemma_index_bounds, lemma_words_nonempty, parse_u64,
    parsed_u64, split_lines, split_words, str_chars, str_starts_with, string_of_chars,
    text_lines, trim_chars, trim_str, words,
};
use std::collections::BTreeMap;
use vstd::prelude::*;

verus! {

/// Process state.
#[derive(Debug, Clone, Copy, PartialEq, Eq, Structural)]
pub enum ProcessState {
    /// Running or runnable (on run queue).
    Running,
    /// Interruptible sleep (waiting for an event).
    Sleeping,
    /// Uninterruptible sleep (usually IO).
    DiskWait,
    /// Defunct/zombie process.
    Zombie,
    /// Stopped (on signal or by debugger).
    Stopped,
    /// Tracing stop (by debugger).
    Traced,
    /// Dead (should never be seen).
    Dead,
    /// Unknown state.
    Unknown,
}

/// The state that a `/proc/[pid]/stat` state character denotes.
pub open spec fn state_of_char(c: char) -> ProcessState {
    if c == 'R' {
        ProcessState::Running
    } else if c == 'S' {
        ProcessState::Sleeping
    } else if c == 'D' {
        ProcessState::DiskWait
    } else if c == 'Z' {
        ProcessState::Zombie
    } else if c == 'T' {
        ProcessState::Stopped
    } else if c == 't' {
        ProcessState::Traced
    } else if c == 'X' || c == 'x' {
        ProcessState::Dead
    } else {
        ProcessState::Unknown
    }
}

/// The display character of a state.
pub open spec fn char_of_state(s: ProcessState) -> char {
    match s {
        ProcessState::Running => 'R',
        ProcessState::Sleeping => 'S',
        ProcessState::DiskWait => 'D',
        ProcessState::Zombie => 'Z',
        ProcessState::Stopped => 'T',
        ProcessState::Traced => 't',
        ProcessState::Dead => 'X',
        ProcessState::Unknown => '?',
    }
}

impl ProcessState {
    /// Parses a state character from `/proc/[pid]/stat`.
    pub fn from_char(c: char) -> (s: Self)
        ensures
            s == state_of_char(c),
    {
        match c {
            'R' => ProcessState::Running,
            'S' => ProcessState::Sleeping,
            'D' => ProcessState::DiskWait,
            'Z' => ProcessState::Zombie,
            'T' => ProcessState::Stopped,
            't' => ProcessState::Traced,
            'X' | 'x' => ProcessState::Dead,
            _ => ProcessState::Unknown,
        }
    }

    /// Returns the display character.
    pub fn as_char(&self) -> (c: char)
        ensures
            c == char_of_state(*self),
    {
        match self {
            ProcessState::Running => 'R',
            ProcessState::Sleeping => 'S',
            ProcessState::DiskWait => 'D',
            ProcessState::Zombie => 'Z',
            ProcessState::Stopped => 'T',
            ProcessState::Traced => 't',
            ProcessState::Dead => 'X',
            ProcessState::Unknown => '?',
        }
    }
}

/// Every known state reads back from its display character.
pub proof fn lemma_char_round_trip(s: ProcessState)
    requires
        s != ProcessState::Unknown,
    ensures
        state_of_char(char_of_state(s)) == s,
{
}

/// What `str::parse::<u32>` accepts: what `str::parse::<u64>` accepts, when it fits.
pub open spec fn parsed_u32(s: Seq<char>) -> Option<u32> {
    match parsed_u64(s) {
        Some(v) => if v <= u32::MAX {
            Some(v as u32)
        } else {
            None
        },
        None => None,
    }
}

/// `str::parse::<u32>`, with the error dropped.
pub fn parse_u32(s: &str) -> (r: Option<u32>)
    ensures
        r == parsed_u32(s@),
{
    match parse_u64(s) {
        Some(v) => if v <= 0xffff_ffffu64 {
            Some(v as u32)
        } else {
            None
        },
        None => None,
    }
}

/// A character that UTF-8 encodes in one byte.
pub open spec fn is_one_byte(c: char) -> bool {
    (c as u32) < 128
}

/// The inputs on which the byte slicing of a `/proc/[pid]/stat` line stays inside the
/// text and on character boundaries: there is a `)` followed by a one-byte character,
/// and the name starts after the first `(` (or after a one-byte first character when
/// there is none) no later than the last `)`.
pub open spec fn pid_stat_sliceable(s: Seq<char>) -> bool {
    let open = first_index_of(s, '(');
    let close = last_index_of(s, ')');
    &&& close >= 0
    &&& close + 1 < s.len()
    &&& is_one_byte(s[close + 1])
    &&& if open >= 0 {
        open < close
    } else {
        close >= 1 && is_one_byte(s[0])
    }
}

/// The process name: the text between the first `(` and the last `)`.
pub open spec fn pid_stat_name(s: Seq<char>) -> Seq<char> {
    let open = first_index_of(s, '(');
    let start = if open >= 0 {
        open + 1
    } else {
        1
    };
    s.subrange(start, last_index_of(s, ')'))
}

/// The fields after the name: the words from the second character after the last `)`.
pub open spec fn pid_stat_fields(s: Seq<char>) -> Seq<Seq<char>> {
    words(s.skip(last_index_of(s, ')') + 2))
}

/// Field `k` read as a `u64`, or `default` when it is missing or not a number.
pub open spec fn u64_field(f: Seq<Seq<char>>, k: int, default: u64) -> u64 {
    if k < f.len() {
        match parsed_u64(f[k]) {
            Some(v) => v,
            None => default,
        }
    } else {
        default
    }
}

/// Field `k` read as a `u32`, or `default` when it is missing or not a number.
pub open spec fn u32_field(f: Seq<Seq<char>>, k: int, default: u32) -> u32 {
    if k < f.len() {
        match parsed_u32(f[k]) {
            Some(v) => v,
            None => default,
        }
    } else {
        default
    }
}

/// The figures of one `/proc/[pid]/stat` line that the process table shows.
#[derive(Debug, Clone)]
pub struct PidStat {
    /// Process name (between the parentheses).
    pub name: String,
    /// Process state.
    pub state: ProcessState,
    /// Parent process ID (0 when unreadable).
    pub ppid: u32,
    /// User-mode CPU time in clock ticks (0 when unreadable).
    pub utime: u64,
    /// Kernel-mode CPU time in clock ticks (0 when unreadable).
    pub stime: u64,
    /// Thread count (1 when unreadable).
    pub threads: u32,
}

/// `p` holds what the line `s` gives: the name, the state of the first field's first
/// character, the parent (field 1), the CPU times (fields 11, 12) and the thread count
/// (field 17).
pub open spec fn holds_pid_stat(p: PidStat, s: Seq<char>) -> bool {
    let f = pid_stat_fields(s);
    &&& p.name@ == pid_stat_name(s)
    &&& p.state == (if f.len() > 0 && f[0].len() > 0 {
        state_of_char(f[0][0])
    } else {
        ProcessState::Unknown
    })
    &&& p.ppid == u32_field(f, 1, 0)
    &&& p.utime == u64_field(f, 11, 0)
    &&& p.stime == u64_field(f, 12, 0)
    &&& p.threads == u32_field(f, 17, 1)
}

fn u64_field_of(ws: &Vec<&str>, k: usize, default: u64) -> (r: u64)
    ensures
        r == u64_field(ws@.map_values(|w: &str| w@), k as int, default),
{
    if k < ws.len() {
        match parse_u64(ws[k]) {
            Some(v) => v,
            None => default,
        }
    } else {
        default
    }
}

fn u32_field_of(ws: &Vec<&str>, k: usize, default: u32) -> (r: u32)
    ensures
        r == u32_field(ws@.map_values(|w: &str| w@), k as int, default),
{
    if k < ws.len() {
        match parse_u32(ws[k]) {
            Some(v) => v,
            None => default,
        }
    } else {
        default
    }
}

/// The columns of a `/proc/[pid]/stat` line, counted in the words `f` after the last `)`
/// (word 0 is the state): the parent is word 1, the user and kernel CPU times words 11
/// and 12, the thread count word 17; a missing or unreadable parent or CPU time counts 0,
/// a missing or unreadable thread count 1.
pub open spec fn pid_stat_columns(p: PidStat, f: Seq<Seq<char>>) -> bool {
    &&& p.ppid == (if f.len() > 1 { match parsed_u32(f[1]) { Some(v) => v, None => 0 } } else { 0 })
    &&& p.utime == (if f.len() > 11 { match parsed_u64(f[11]) { Some(v) => v, None => 0 } } else { 0 })
    &&& p.stime == (if f.len() > 12 { match parsed_u64(f[12]) { Some(v) => v, None => 0 } } else { 0 })
    &&& p.threads == (if f.len() > 17 { match parsed_u32(f[17]) { Some(v) => v, None => 1 } } else { 1 })
    &&& p.state == (if f.len() > 0 && f[0].len() > 0 { state_of_char(f[0][0]) } else { ProcessState::Unknown })
}

/// What is read from a `/proc/[pid]/stat` line comes from its own column of the words
/// after the last `)`: the thread count from word 17, the parent from word 1, the CPU
/// times from words 11 and 12, the state from the first character of word 0; the name
/// is the text between the first `(` and the last `)`.
pub proof fn lemma_pid_stat_columns(p: PidStat, s: Seq<char>)
    requires
        holds_pid_stat(p, s),
    ensures
        pid_stat_columns(p, words(s.skip(last_index_of(s, ')') + 2))),
        p.name@ == s.subrange(
            if first_index_of(s, '(') >= 0 { first_index_of(s, '(') + 1 } else { 1 },
            last_index_of(s, ')'),
        ),
{
}

/// Reads the name, state, parent, CPU times and thread count from the content of
/// `/proc/[pid]/stat` (`pid (name) state ppid ...`).
pub fn parse_pid_stat(stat: &str) -> (r: PidStat)
    requires
        pid_stat_sliceable(stat@),
    ensures
        holds_pid_stat(r, stat@),
        pid_stat_columns(r, words(stat@.skip(last_index_of(stat@, ')') + 2))),
        r.name@ == stat@.subrange(
            if first_index_of(stat@, '(') >= 0 { first_index_of(stat@, '(') + 1 } else { 1 },
            last_index_of(stat@, ')'),
        ),
{
    let cs = str_chars(stat);
    let ghost s = stat@;
    let mut open: usize = 0;
    let mut has_open = false;
    let mut close: usize = 0;
    let mut has_close = false;
    let mut i: usize = 0;
    while i < cs.len()
        invariant
            0 <= i <= cs@.len(),
            cs@ == s,
            has_open <==> first_index_of(s.subrange(0, i as int), '(') >= 0,
            has_open ==> open == first_index_of(s.subrange(0, i as int), '('),
            has_close <==> last_index_of(s.subrange(0, i as int), ')') >= 0,
            has_close ==> close == last_index_of(s.subrange(0, i as int), ')'),
        decreases cs@.len() - i,
    {
        proof {
            assert(s.subrange(0, i + 1).drop_last() =~= s.subrange(0, i as int));
        }
        if cs[i] == '(' && !has_open {
            open = i;
            has_open = true;
        }
        if cs[i] == ')' {
            close = i;
            has_close = true;
        }
        i = i + 1;
    }
    proof {
        assert(s.subrange(0, i as int) =~= s);
        lemma_index_bounds(s, '(');
        lemma_index_bounds(s, ')');
    }
    let start = if has_open {
        open + 1
    } else {
        1
    };
    let name = string_of_chars(&cs, start, close);
    let after = string_of_chars(&cs, close + 2, cs.len());
    proof {
        assert(after@ =~= s.skip(close + 2));
    }
    let ws = split_words(after.as_str());
    proof {
        assert(ws@.map_values(|w: &str| w@) =~= pid_stat_fields(s));
    }
    let state = if ws.len() > 0 {
        match first_char(ws[0]) {
            Some(c) => ProcessState::from_char(c),
            None => ProcessState::Unknown,
        }
    } else {
        ProcessState::Unknown
    };
    let ppid = u32_field_of(&ws, 1, 0);
    let utime = u64_field_of(&ws, 11, 0);
    let stime = u64_field_of(&ws, 12, 0);
    let threads = u32_field_of(&ws, 17, 1);
    PidStat { name, state, ppid, utime, stime, threads }
}

impl PidStat {
    /// User plus kernel CPU time.
    pub fn cpu_time(&self) -> (r: u64)
        requires
            self.utime + self.stime <= u64::MAX,
        ensures
            r == self.utime + self.stime,
    {
        self.utime + self.stime
    }
}

/// Resident memory in bytes from `/proc/[pid]/statm`: the second number, in 4096-byte
/// pages, or 0 when it is missing or not a number.
pub open spec fn statm_bytes(s: Seq<char>) -> int {
    let w = words(s);
    if w.len() > 1 {
        match parsed_u64(w[1]) {
            Some(pages) => pages * 4096,
            None => 0,
        }
    } else {
        0
    }
}

/// Reads the resident memory in bytes from the content of `/proc/[pid]/statm`.
pub fn parse_statm_bytes(statm: &str) -> (r: u64)
    requires
        statm_bytes(statm@) <= u64::MAX,
    ensures
        r == statm_bytes(statm@),
        words(statm@).len() > 1 && parsed_u64(words(statm@)[1]) is Some ==> r == parsed_u64(
            words(statm@)[1],
        )->0 * 4096,
        words(statm@).len() <= 1 || parsed_u64(words(statm@)[1]) is None ==> r == 0,
{
    let ws = split_words(statm);
    if ws.len() > 1 {
        match parse_u64(ws[1]) {
            Some(pages) => pages * 4096,
            None => 0,
        }
    } else {
        0
    }
}

/// `s` with each NUL character replaced by a space.
pub open spec fn nul_to_space(s: Seq<char>) -> Seq<char> {
    s.map_values(|c: char| if c == '\0' { ' ' } else { c })
}

/// The command line as shown: the NUL-separated arguments of `/proc/[pid]/cmdline`
/// joined by spaces, with surrounding whitespace trimmed.
pub fn format_cmdline(raw: &str) -> (r: String)
    ensures
        r@ == trim_chars(nul_to_space(raw@)),
{
    let mut cs = str_chars(raw);
    let ghost s = raw@;
    let mut i: usize = 0;
    while i < cs.len()
        invariant
            0 <= i <= cs@.len(),
            cs@.len() == s.len(),
            forall|j: int| 0 <= j < i ==> cs@[j] == nul_to_space(s)[j],
            forall|j: int| i <= j < cs@.len() ==> cs@[j] == s[j],
        decreases cs@.len() - i,
    {
        if cs[i] == '\0' {
            cs.set(i, ' ');
        }
        i = i + 1;
    }
    let len = cs.len();
    let spaced = string_of_chars(&cs, 0, len);
    proof {
        assert(spaced@ =~= nul_to_space(s));
    }
    trim_str(spaced.as_str()).to_string()
}

/// The sum of a sequence of counters.
pub open spec fn sum_u64s(v: Seq<u64>) -> int
    decreases v.len(),
{
    if v.len() == 0 {
        0
    } else {
        sum_u64s(v.drop_last()) + v.last()
    }
}

/// The first line that starts with `prefix`.
pub open spec fn first_line_with_prefix(lines: Seq<Seq<char>>, prefix: Seq<char>) -> Option<Seq<char>>
    decreases lines.len(),
{
    if lines.len() == 0 {
        None
    } else if has_char_prefix(lines[0], prefix) {
        Some(lines[0])
    } else {
        first_line_with_prefix(lines.drop_first(), prefix)
    }
}

/// Line `k` is the first of `lines` that starts with `prefix`.
pub open spec fn first_prefixed_at(lines: Seq<Seq<char>>, prefix: Seq<char>, k: int) -> bool {
    &&& 0 <= k < lines.len()
    &&& has_char_prefix(lines[k], prefix)
    &&& forall|j: int| 0 <= j < k ==> !has_char_prefix(#[trigger] lines[j], prefix)
}

/// The search for a line by its prefix finds the first line that starts with it, and
/// finds nothing exactly when no line does.
pub proof fn lemma_first_line_with_prefix(lines: Seq<Seq<char>>, prefix: Seq<char>, k: int)
    ensures
        first_prefixed_at(lines, prefix, k) ==> first_line_with_prefix(lines, prefix) == Some(lines[k]),
        first_line_with_prefix(lines, prefix) is None <==> (forall|j: int|
            0 <= j < lines.len() ==> !has_char_prefix(#[trigger] lines[j], prefix)),
    decreases lines.len(),
{
    if lines.len() > 0 {
        let rest = lines.drop_first();
        lemma_first_line_with_prefix(rest, prefix, k - 1);
        if first_prefixed_at(lines, prefix, k) && k > 0 {
            assert(!has_char_prefix(lines[0], prefix));
            assert forall|j: int| 0 <= j < k - 1 implies !has_char_prefix(#[trigger] rest[j], prefix) by {
                assert(rest[j] == lines[j + 1]);
            }
            assert(rest[k - 1] == lines[k]);
        }
        if !has_char_prefix(lines[0], prefix) {
            if (forall|j: int| 0 <= j < rest.len() ==> !has_char_prefix(#[trigger] rest[j], prefix)) {
                assert forall|j: int| 0 <= j < lines.len() implies !has_char_prefix(#[trigger] lines[j], prefix) by {
                    if j > 0 {
                        assert(lines[j] == rest[j - 1]);
                    }
                }
            } else {
                let j = choose|j: int| 0 <= j < rest.len() && has_char_prefix(#[trigger] rest[j], prefix);
                assert(lines[j + 1] == rest[j]);
            }
        }
    }
}

/// All but the first word.
pub open spec fn after_first(w: Seq<Seq<char>>) -> Seq<Seq<char>> {
    if w.len() > 0 {
        w.skip(1)
    } else {
        Seq::empty()
    }
}

/// The total CPU time of `/proc/stat`: the sum of the numbers after the first word of
/// the first line that starts with `"cpu "`, or 0 without such a line.
pub open spec fn total_cpu_ticks(content: Seq<char>) -> int {
    match first_line_with_prefix(text_lines(content), "cpu "@) {
        Some(l) => sum_u64s(numbers_of(after_first(words(l)))),
        None => 0,
    }
}

proof fn lemma_numbers_prefix_sum_grows(ws: Seq<Seq<char>>, i: int, j: int)
    requires
        1 <= i <= j <= ws.len(),
    ensures
        sum_u64s(numbers_of(ws.subrange(1, i))) <= sum_u64s(numbers_of(ws.subrange(1, j))),
    decreases j - i,
{
    if i < j {
        lemma_numbers_prefix_sum_grows(ws, i, j - 1);
        lemma_numbers_step(ws, j - 1);
    }
}

proof fn lemma_numbers_step(ws: Seq<Seq<char>>, i: int)
    requires
        1 <= i < ws.len(),
    ensures
        sum_u64s(numbers_of(ws.subrange(1, i + 1))) == sum_u64s(numbers_of(ws.subrange(1, i)))
            + match parsed_u64(ws[i]) {
            Some(v) => v as int,
            None => 0,
        },
{
    let x = ws.subrange(1, i + 1);
    assert(x.drop_last() =~= ws.subrange(1, i));
    match parsed_u64(ws[i]) {
        Some(v) => {
            assert(numbers_of(x.drop_last()).push(v).drop_last() =~= numbers_of(x.drop_last()));
        },
        None => {},
    }
}

/// Sums the numbers after the first word of a line.
fn sum_after_first_word(line: &str) -> (r: u64)
    requires
        sum_u64s(numbers_of(after_first(words(line@)))) <= u64::MAX,
    ensures
        r == sum_u64s(numbers_of(after_first(words(line@)))),
{
    let ws = split_words(line);
    let ghost wv = ws@.map_values(|w: &str| w@);
    proof {
        assert(wv =~= words(line@));
    }
    if ws.len() == 0 {
        return 0;
    }
    proof {
        assert(wv.subrange(1, 1) =~= Seq::<Seq<char>>::empty());
        assert(wv.subrange(1, wv.len() as int) =~= wv.skip(1));
    }
    let mut total: u64 = 0;
    let mut i: usize = 1;
    while i < ws.len()
        invariant
            1 <= i <= ws@.len(),
            wv == ws@.map_values(|w: &str| w@),
            wv.subrange(1, wv.len() as int) =~= wv.skip(1),
            sum_u64s(numbers_of(wv.skip(1))) <= u64::MAX,
            total == sum_u64s(numbers_of(wv.subrange(1, i as int))),
        decreases ws@.len() - i,
    {
        proof {
            lemma_numbers_step(wv, i as int);
            lemma_numbers_prefix_sum_grows(wv, i + 1, wv.len() as int);
        }
        match parse_u64(ws[i]) {
            Some(v) => {
                total = total + v;
            },
            None => {},
        }
        i = i + 1;
    }
    total
}

/// The position of the first line of `lines` that starts with `prefix`.
fn first_line_index(lines: &Vec<&str>, prefix: &str) -> (r: Option<usize>)
    ensures
        match r {
            Some(k) => k < lines@.len() && first_line_with_prefix(
                lines@.map_values(|l: &str| l@),
                prefix@,
            ) == Some(lines@[k as int]@),
            None => first_line_with_prefix(lines@.map_values(|l: &str| l@), prefix@) is None,
        },
{
    let ghost ls = lines@.map_values(|l: &str| l@);
    proof {
        assert(ls.skip(0) =~= ls);
    }
    let mut i: usize = 0;
    while i < lines.len()
        invariant
            0 <= i <= lines@.len(),
            ls == lines@.map_values(|l: &str| l@),
            first_line_with_prefix(ls, prefix@) == first_line_with_prefix(ls.skip(i as int), prefix@),
        decreases lines@.len() - i,
    {
        proof {
            assert(ls.skip(i as int)[0] == lines@[i as int]@);
            assert(ls.skip(i as int).drop_first() =~= ls.skip(i + 1));
        }
        if str_starts_with(lines[i], prefix) {
            return Some(i);
        }
        i = i + 1;
    }
    proof {
        assert(ls.skip(i as int) =~= Seq::<Seq<char>>::empty());
    }
    None
}

/// The total CPU time in clock ticks from the content of `/proc/stat`.
pub fn parse_total_cpu_ticks(content: &str) -> (r: u64)
    requires
        total_cpu_ticks(content@) <= u64::MAX,
    ensures
        r == total_cpu_ticks(content@),
        forall|k: int| #[trigger] first_prefixed_at(text_lines(content@), "cpu "@, k) ==> r == sum_u64s(
            numbers_of(after_first(words(text_lines(content@)[k]))),
        ),
        (forall|k: int| 0 <= k < text_lines(content@).len() ==> !has_char_prefix(
            #[trigger] text_lines(content@)[k],
            "cpu "@,
        )) ==> r == 0,
{
    proof {
        assert forall|k: int| #[trigger] first_prefixed_at(text_lines(content@), "cpu "@, k) implies total_cpu_ticks(content@) == sum_u64s(
            numbers_of(after_first(words(text_lines(content@)[k]))),
        ) by {
            lemma_first_line_with_prefix(text_lines(content@), "cpu "@, k);
        }
        lemma_first_line_with_prefix(text_lines(content@), "cpu "@, 0);
    }
    let lines = split_lines(content);
    proof {
        assert(lines@.map_values(|l: &str| l@) =~= text_lines(content@));
    }
    match first_line_index(&lines, "cpu ") {
        Some(k) => sum_after_first_word(lines[k]),
        None => 0,
    }
}

/// The memory assumed when `/proc/meminfo` gives none: 8 GiB.
pub open spec fn default_total_memory() -> int {
    8589934592int
}

/// The total memory in bytes that `/proc/meminfo` gives: the second word of the first
/// line that starts with `MemTotal:`, in KiB, or 8 GiB when there is no such number.
pub open spec fn mem_total_bytes(content: Seq<char>) -> int {
    match first_line_with_prefix(text_lines(content), "MemTotal:"@) {
        Some(l) => {
            let w = words(l);
            if w.len() > 1 {
                match parsed_u64(w[1]) {
                    Some(kb) => kb * 1024,
                    None => default_total_memory(),
                }
            } else {
                default_total_memory()
            }
        },
        None => default_total_memory(),
    }
}

/// The total memory in bytes from the content of `/proc/meminfo`.
pub fn parse_mem_total(content: &str) -> (r: u64)
    requires
        mem_total_bytes(content@) <= u64::MAX,
    ensures
        r == mem_total_bytes(content@),
        forall|k: int| #[trigger] first_prefixed_at(text_lines(content@), "MemTotal:"@, k) ==> {
            let w = words(text_lines(content@)[k]);
            r == (if w.len() > 1 && parsed_u64(w[1]) is Some {
                parsed_u64(w[1])->0 * 1024
            } else {
                8589934592int
            })
        },
        (forall|k: int| 0 <= k < text_lines(content@).len() ==> !has_char_prefix(
            #[trigger] text_lines(content@)[k],
            "MemTotal:"@,
        )) ==> r == 8589934592,
{
    proof {
        assert forall|k: int| #[trigger] first_prefixed_at(text_lines(content@), "MemTotal:"@, k) implies mem_total_bytes(content@) == {
            let w = words(text_lines(content@)[k]);
            if w.len() > 1 && parsed_u64(w[1]) is Some {
                parsed_u64(w[1])->0 * 1024
            } else {
                8589934592int
            }
        } by {
            lemma_first_line_with_prefix(text_lines(content@), "MemTotal:"@, k);
        }
        lemma_first_line_with_prefix(text_lines(content@), "MemTotal:"@, 0);
    }
    let lines = split_lines(content);
    proof {
        assert(lines@.map_values(|l: &str| l@) =~= text_lines(content@));
    }
    match first_line_index(&lines, "MemTotal:") {
        Some(k) => {
            let ws = split_words(lines[k]);
            if ws.len() > 1 {
                match parse_u64(ws[1]) {
                    Some(kb) => kb * 1024,
                    None => 8 * 1024 * 1024 * 1024,
                }
            } else {
                8 * 1024 * 1024 * 1024
            }
        },
        None => 8 * 1024 * 1024 * 1024,
    }
}

/// The children of `parent` in `(pid, ppid)` entries, in entry order.
pub open spec fn children_of(entries: Seq<(u32, u32)>, parent: u32) -> Seq<u32>
    decreases entries.len(),
{
    if entries.len() == 0 {
        Seq::empty()
    } else {
        let rest = children_of(entries.drop_last(), parent);
        if entries.last().1 == parent {
            rest.push(entries.last().0)
        } else {
            rest
        }
    }
}

/// Some entry has `parent` as its parent.
pub open spec fn has_child(entries: Seq<(u32, u32)>, parent: u32) -> bool {
    exists|i: int| 0 <= i < entries.len() && #[trigger] entries[i].1 == parent
}

/// The process tree: each parent PID mapped to its children's PIDs, in entry order,
/// from `(pid, ppid)` entries.
pub fn build_tree(entries: &[(u32, u32)]) -> (tree: BTreeMap<u32, Vec<u32>>)
    ensures
        forall|p: u32| #[trigger] tree@.contains_key(p) <==> has_child(entries@, p),
        forall|p: u32| #[trigger] tree@.contains_key(p) ==> tree@[p]@ == children_of(entries@, p),
{
    let mut tree: BTreeMap<u32, Vec<u32>> = BTreeMap::new();
    let mut i: usize = 0;
    while i < entries.len()
        invariant
            0 <= i <= entries@.len(),
            forall|p: u32| #[trigger] tree@.contains_key(p) <==> has_child(entries@.subrange(0, i as int), p),
            forall|p: u32| #[trigger] tree@.contains_key(p) ==> tree@[p]@ == children_of(entries@.subrange(0, i as int), p),
        decreases entries@.len() - i,
    {
        let (pid, ppid) = entries[i];
        let ghost pre = entries@.subrange(0, i as int);
        let ghost next = entries@.subrange(0, i + 1);
        proof {
            assert(next.drop_last() =~= pre);
            assert(next.last() == (pid, ppid));
        }
        let children = match tree.remove(&ppid) {
            Some(mut v) => {
                v.push(pid);
                v
            },
            None => {
                let mut v: Vec<u32> = Vec::new();
                v.push(pid);
                v
            },
        };
        tree.insert(ppid, children);
        proof {
            assert forall|p: u32| #[trigger] tree@.contains_key(p) <==> has_child(next, p) by {
                if p == ppid {
                    assert(next[i as int].1 == p);
                } else {
                    if has_child(next, p) {
                        let k = choose|k: int| 0 <= k < next.len() && #[trigger] next[k].1 == p;
                        assert(pre[k].1 == p);
                    }
                    if has_child(pre, p) {
                        let k = choose|k: int| 0 <= k < pre.len() && #[trigger] pre[k].1 == p;
                        assert(next[k].1 == p);
                    }
                }
            }
            assert forall|p: u32| #[trigger] tree@.contains_key(p) implies tree@[p]@ == children_of(next, p) by {
                if p == ppid {
                    if !has_child(pre, p) {
                        lemma_no_children(pre, p);
                    }
                }
            }
        }
        i = i + 1;
    }
    proof {
        assert(entries@.subrange(0, i as int) =~= entries@);
    }
    tree
}

proof fn lemma_no_children(entries: Seq<(u32, u32)>, parent: u32)
    requires
        !has_child(entries, parent),
    ensures
        children_of(entries, parent) == Seq::<u32>::empty(),
    decreases entries.len(),
{
    if entries.len() > 0 {
        assert(!has_child(entries.drop_last(), parent)) by {
            if has_child(entries.drop_last(), parent) {
                let k = choose|k: int| 0 <= k < entries.drop_last().len() && #[trigger] entries.drop_last()[k].1 == parent;
                assert(entries[k].1 == parent);
            }
        }
        assert(entries[entries.len() - 1].1 != parent);
        lemma_no_children(entries.drop_last(), parent);
    }
}

/// The state that a `ps` state letter denotes (`I`, idle, counts as sleeping; `U` is an
/// uninterruptible wait).
pub open spec fn ps_state_of_char(c: char) -> ProcessState {
    if c == 'R' {
        ProcessState::Running
    } else if c == 'S' || c == 'I' {
        ProcessState::Sleeping
    } else if c == 'U' {
        ProcessState::DiskWait
    } else if c == 'Z' {
        ProcessState::Zombie
    } else if c == 'T' {
        ProcessState::Stopped
    } else {
        ProcessState::Unknown
    }
}

/// The words joined with single spaces.
pub open spec fn joined_words(ws: Seq<Seq<char>>) -> Seq<char>
    decreases ws.len(),
{
    if ws.len() == 0 {
        Seq::empty()
    } else if ws.len() == 1 {
        ws[0]
    } else {
        joined_words(ws.drop_last()) + seq![' '] + ws.last()
    }
}

/// A `ps -axo pid,ppid,state,%cpu,%mem,rss,user,comm` line describes a process: it has
/// at least eight words and the first is a process id.
pub open spec fn ps_line_ok(line: Seq<char>) -> bool {
    words(line).len() >= 8 && parsed_u32(words(line)[0]) is Some
}

/// The resident size of a `ps` line (in KiB) fits in a `u64` once turned into bytes.
pub open spec fn ps_rss_fits(line: Seq<char>) -> bool {
    u64_field(words(line), 5, 0) * 1024 <= u64::MAX
}

/// One process as `ps` reports it; the CPU and memory shares are kept as the text `ps`
/// printed.
#[derive(Debug, Clone)]
pub struct PsEntry {
    /// Process id.
    pub pid: u32,
    /// Parent process id (0 when unreadable).
    pub ppid: u32,
    /// Process state.
    pub state: ProcessState,
    /// CPU share column, as printed.
    pub cpu_percent_text: String,
    /// Memory share column, as printed.
    pub mem_percent_text: String,
    /// Resident memory in bytes (0 when unreadable).
    pub mem_bytes: u64,
    /// Owner.
    pub user: String,
    /// Command name (the remaining words, joined with single spaces).
    pub name: String,
}

/// `p` is what the `ps` line `line` says.
pub open spec fn holds_ps_entry(p: PsEntry, line: Seq<char>) -> bool {
    let ws = words(line);
    &&& p.pid == parsed_u32(ws[0])->0
    &&& p.ppid == u32_field(ws, 1, 0)
    &&& p.state == ps_state_of_char(ws[2][0])
    &&& p.cpu_percent_text@ == ws[3]
    &&& p.mem_percent_text@ == ws[4]
    &&& p.mem_bytes == u64_field(ws, 5, 0) * 1024
    &&& p.user@ == ws[6]
    &&& p.name@ == joined_words(ws.skip(7))
}

/// The columns of a `ps -axo pid,ppid,state,%cpu,%mem,rss,user,comm` line with words `w`:
/// process id in word 0, parent in word 1 (0 when unreadable), the state from the first
/// letter of word 2 (`R` running; `S` or `I` sleeping; `U` waiting on disk; `Z` zombie;
/// `T` stopped; anything else unknown), the shares as printed in words 3 and 4, the
/// resident size in word 5 (KiB, 0 when unreadable) in bytes, the owner in word 6, and the
/// command from word 7 on (a single word standing as it is).
pub open spec fn ps_columns(p: PsEntry, w: Seq<Seq<char>>) -> bool {
    let c = w[2][0];
    &&& parsed_u32(w[0]) == Some(p.pid)
    &&& p.ppid == (match parsed_u32(w[1]) { Some(v) => v, None => 0 })
    &&& (c == 'R' ==> p.state == ProcessState::Running)
    &&& (c == 'S' || c == 'I' ==> p.state == ProcessState::Sleeping)
    &&& (c == 'U' ==> p.state == ProcessState::DiskWait)
    &&& (c == 'Z' ==> p.state == ProcessState::Zombie)
    &&& (c == 'T' ==> p.state == ProcessState::Stopped)
    &&& (c != 'R' && c != 'S' && c != 'I' && c != 'U' && c != 'Z' && c != 'T' ==> p.state
        == ProcessState::Unknown)
    &&& p.cpu_percent_text@ == w[3]
    &&& p.mem_percent_text@ == w[4]
    &&& p.mem_bytes == (match parsed_u64(w[5]) { Some(v) => v, None => 0 }) * 1024
    &&& p.user@ == w[6]
    &&& (w.len() == 8 ==> p.name@ == w[7])
}

/// A `ps` line gives an entry exactly when it has at least eight words and starts with a
/// process id; the entry takes each figure from its own column (the parent from word 1,
/// the state from the first letter of word 2, and so on).
pub proof fn lemma_ps_columns(p: PsEntry, line: Seq<char>)
    ensures
        ps_line_ok(line) <==> (words(line).len() >= 8 && parsed_u32(words(line)[0]) is Some),
        ps_line_ok(line) && holds_ps_entry(p, line) ==> ps_columns(p, words(line)),
{
    if words(line).len() == 8 {
        assert(words(line).skip(7) =~= seq![words(line)[7]]);
    }
}

/// The state named by the first letter of a `ps` state column.
pub fn ps_state_from_char(c: char) -> (s: ProcessState)
    ensures
        s == ps_state_of_char(c),
{
    match c {
        'R' => ProcessState::Running,
        'S' | 'I' => ProcessState::Sleeping,
        'U' => ProcessState::DiskWait,
        'Z' => ProcessState::Zombie,
        'T' => ProcessState::Stopped,
        _ => ProcessState::Unknown,
    }
}

/// The words `ws[from..]`, joined with single spaces.
fn join_from(ws: &Vec<&str>, from: usize) -> (r: String)
    requires
        from <= ws@.len(),
    ensures
        r@ == joined_words(ws@.map_values(|s: &str| s@).skip(from as int)),
{
    let ghost wv = ws@.map_values(|s: &str| s@);
    let mut cs: Vec<char> = Vec::new();
    let mut k: usize = from;
    proof {
        assert(wv.subrange(from as int, from as int) =~= Seq::<Seq<char>>::empty());
    }
    while k < ws.len()
        invariant
            from <= k <= ws@.len(),
            wv == ws@.map_values(|s: &str| s@),
            cs@ == joined_words(wv.subrange(from as int, k as int)),
        decreases ws@.len() - k,
    {
        let ghost before = cs@;
        if k > from {
            cs.push(' ');
        }
        let wc = str_chars(ws[k]);
        let mut j: usize = 0;
        let ghost mid = cs@;
        while j < wc.len()
            invariant
                0 <= j <= wc@.len(),
                cs@ == mid + wc@.subrange(0, j as int),
            decreases wc@.len() - j,
        {
            cs.push(wc[j]);
            proof {
                assert(wc@.subrange(0, j + 1) =~= wc@.subrange(0, j as int).push(wc@[j as int]));
            }
            j = j + 1;
        }
        proof {
            let seg = wv.subrange(from as int, k + 1);
            assert(seg.drop_last() =~= wv.subrange(from as int, k as int));
            assert(seg.last() == wv[k as int]);
            assert(wv[k as int] == ws@[k as int]@);
            assert(wc@.subrange(0, j as int) =~= wc@);
            if k > from {
                assert(cs@ =~= before + seq![' '] + wv[k as int]);
            } else {
                assert(seg =~= seq![wv[k as int]]);
                assert(cs@ =~= wv[k as int]);
            }
        }
        k = k + 1;
    }
    proof {
        assert(wv.subrange(from as int, ws@.len() as int) =~= wv.skip(from as int));
    }
    let n = cs.len();
    string_of_chars(&cs, 0, n)
}

/// Parses one line of `ps -axo pid,ppid,state,%cpu,%mem,rss,user,comm`: `None` when the
/// line has fewer than eight words or does not start with a process id. An unreadable
/// parent id or resident size counts as 0.
pub fn parse_ps_line(line: &str) -> (r: Option<PsEntry>)
    requires
        ps_line_ok(line@) ==> ps_rss_fits(line@),
    ensures
        r is Some <==> ps_line_ok(line@),
        r matches Some(p) ==> holds_ps_entry(p, line@),
        r is Some <==> (words(line@).len() >= 8 && parsed_u32(words(line@)[0]) is Some),
        r matches Some(p) ==> ps_columns(p, words(line@)),
{
    let ws = split_words(line);
    let ghost wv = ws@.map_values(|s: &str| s@);
    proof {
        assert(wv =~= words(line@));
    }
    if ws.len() < 8 {
        return None;
    }
    let pid = match parse_u32(ws[0]) {
        Some(p) => p,
        None => return None,
    };
    let ppid = match parse_u32(ws[1]) {
        Some(p) => p,
        None => 0,
    };
    proof {
        lemma_words_nonempty(line@);
        assert(wv[2].len() > 0);
    }
    let state = match first_char(ws[2]) {
        Some(c) => ps_state_from_char(c),
        None => ProcessState::Unknown,
    };
    let rss_kb: u64 = match parse_u64(ws[5]) {
        Some(v) => v,
        None => 0,
    };
    let name = join_from(&ws, 7);
    proof {
        if wv.len() == 8 {
            assert(wv.skip(7) =~= seq![wv[7]]);
        }
    }
    Some(PsEntry {
        pid,
        ppid,
        state,
        cpu_percent_text: ws[3].to_string(),
        mem_percent_text: ws[4].to_string(),
        mem_bytes: rss_kb * 1024,
        user: ws[6].to_string(),
        name,
    })
}

/// The `ps` lines that describe processes, in order.
pub open spec fn ps_rows(lines: Seq<Seq<char>>) -> Seq<Seq<char>>
    decreases lines.len(),
{
    if lines.len() == 0 {
        Seq::empty()
    } else if ps_line_ok(lines.last()) {
        ps_rows(lines.drop_last()).push(lines.last())
    } else {
        ps_rows(lines.drop_last())
    }
}

/// Every process line of `content` has a resident size that fits in bytes.
pub open spec fn ps_output_fits(content: Seq<char>) -> bool {
    forall|i: int| 0 <= i < after_first(text_lines(content)).len() ==> (ps_line_ok(
        #[trigger] after_first(text_lines(content))[i],
    ) ==> ps_rss_fits(after_first(text_lines(content))[i]))
}

/// Parses the output of `ps -axo pid,ppid,state,%cpu,%mem,rss,user,comm`: the header
/// line is skipped, and every later line that describes a process gives one entry, in
/// line order.
pub fn parse_ps_output(content: &str) -> (r: Vec<PsEntry>)
    requires
        ps_output_fits(content@),
    ensures
        r@.len() == ps_rows(after_first(text_lines(content@))).len(),
        forall|i: int| 0 <= i < r@.len() ==> holds_ps_entry(#[trigger] r@[i], ps_rows(after_first(text_lines(content@)))[i]),
        forall|i: int| 0 <= i < r@.len() ==> ps_columns(#[trigger] r@[i], words(ps_rows(after_first(text_lines(content@)))[i])),
{
    let lines = split_lines(content);
    let ghost ls = text_lines(content@);
    let mut out: Vec<PsEntry> = Vec::new();
    if lines.len() < 1 {
        proof {
            assert(after_first(ls) =~= Seq::<Seq<char>>::empty());
        }
        return out;
    }
    let mut i: usize = 1;
    proof {
        assert(ls.subrange(1, 1) =~= Seq::<Seq<char>>::empty());
    }
    while i < lines.len()
        invariant
            1 <= i <= lines@.len(),
            ls == text_lines(content@),
            ps_output_fits(content@),
            lines@.len() == ls.len(),
            forall|j: int| 0 <= j < lines@.len() ==> #[trigger] lines@[j]@ == ls[j],
            out@.len() == ps_rows(ls.subrange(1, i as int)).len(),
            forall|k: int| 0 <= k < out@.len() ==> holds_ps_entry(#[trigger] out@[k], ps_rows(ls.subrange(1, i as int))[k]),
        decreases lines@.len() - i,
    {
        proof {
            assert(ls.subrange(1, i + 1).drop_last() =~= ls.subrange(1, i as int));
            assert(ls.subrange(1, i + 1).last() == lines@[i as int]@);
            assert(after_first(ls)[i - 1] == ls[i as int]);
        }
        match parse_ps_line(lines[i]) {
            Some(p) => out.push(p),
            None => {},
        }
        i = i + 1;
    }
    proof {
        assert(ls.subrange(1, i as int) =~= ls.skip(1));
        lemma_ps_rows_ok(after_first(ls));
        assert forall|k: int| 0 <= k < out@.len() implies ps_columns(#[trigger] out@[k], words(ps_rows(after_first(ls))[k])) by {
            lemma_ps_columns(out@[k], ps_rows(after_first(ls))[k]);
        }
    }
    out
}

/// Every line that `ps_rows` keeps describes a process.
proof fn lemma_ps_rows_ok(lines: Seq<Seq<char>>)
    ensures
        forall|k: int| 0 <= k < ps_rows(lines).len() ==> ps_line_ok(#[trigger] ps_rows(lines)[k]),
    decreases lines.len(),
{
    if lines.len() > 0 {
        lemma_ps_rows_ok(lines.drop_last());
        let prev = ps_rows(lines.drop_last());
        assert forall|k: int| 0 <= k < ps_rows(lines).len() implies ps_line_ok(#[trigger] ps_rows(lines)[k]) by {
            if k < prev.len() {
                assert(ps_rows(lines)[k] == prev[k]);
            }
        }
    }
}

} // verus!
