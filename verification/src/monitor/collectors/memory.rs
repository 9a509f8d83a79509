//! Memory figures read from `/proc/meminfo`, one `Key: value kB` line at a time.

use crate::monitor::collectors::cpu::sat_sub;
use crate::monitor::text::{parse_u64, parsed_u64, split_lines, split_words, text_lines, words};
use vstd::prelude::*;

verus! {

/// The memory figures of `/proc/meminfo`, in bytes.
#[derive(Debug, Clone, Copy, PartialEq, Eq, Structural)]
pub struct MemInfo {
    /// `MemTotal`.
    pub total: u64,
    /// `MemFree`.
    pub free: u64,
    /// `MemAvailable`.
    pub available: u64,
    /// `Buffers`.
    pub buffers: u64,
    /// `Cached`.
    pub cached: u64,
    /// `SwapTotal`.
    pub swap_total: u64,
    /// `SwapFree`.
    pub swap_free: u64,
}

/// Every figure at zero.
pub open spec fn zero_meminfo() -> MemInfo {
    MemInfo { total: 0, free: 0, available: 0, buffers: 0, cached: 0, swap_total: 0, swap_free: 0 }
}

impl Default for MemInfo {
    /// Every figure at zero.
    fn default() -> (m: Self)
        ensures
            m == zero_meminfo(),
    {
        MemInfo { total: 0, free: 0, available: 0, buffers: 0, cached: 0, swap_total: 0, swap_free: 0 }
    }
}

/// The value of a line's words in bytes: the second word in KiB, 0 when it is not a number.
pub open spec fn kib_word_bytes(w: Seq<Seq<char>>) -> int {
    match parsed_u64(w[1]) {
        Some(v) => v * 1024,
        None => 0,
    }
}

/// The figures after one line: a line of at least two words whose first word is a known
/// key sets that figure to the line's value; any other line changes nothing.
pub open spec fn meminfo_line(m: MemInfo, line: Seq<char>) -> MemInfo {
    let w = words(line);
    if w.len() < 2 {
        m
    } else {
        let v = kib_word_bytes(w) as u64;
        if w[0] == "MemTotal:"@ {
            MemInfo { total: v, ..m }
        } else if w[0] == "MemFree:"@ {
            MemInfo { free: v, ..m }
        } else if w[0] == "MemAvailable:"@ {
            MemInfo { available: v, ..m }
        } else if w[0] == "Buffers:"@ {
            MemInfo { buffers: v, ..m }
        } else if w[0] == "Cached:"@ {
            MemInfo { cached: v, ..m }
        } else if w[0] == "SwapTotal:"@ {
            MemInfo { swap_total: v, ..m }
        } else if w[0] == "SwapFree:"@ {
            MemInfo { swap_free: v, ..m }
        } else {
            m
        }
    }
}

/// A `/proc/meminfo` line of at least two words sets the figure its first word names
/// (`MemTotal:` the total, `MemFree:` the free memory, `MemAvailable:` the available,
/// `Buffers:`, `Cached:`, `SwapTotal:`, `SwapFree:` theirs) to its second word in KiB
/// as bytes (0 when not a number), and leaves every other figure as it was; any other
/// line changes nothing.
pub proof fn lemma_meminfo_line_keys(m: MemInfo, line: Seq<char>)
    ensures
        ({
            let w = words(line);
            let r = meminfo_line(m, line);
            let v = (match parsed_u64(w[1]) { Some(k) => k * 1024, None => 0 }) as u64;
            &&& w.len() >= 2 && w[0] == "MemTotal:"@ ==> r == MemInfo { total: v, ..m }
            &&& w.len() >= 2 && w[0] == "MemFree:"@ ==> r == MemInfo { free: v, ..m }
            &&& w.len() >= 2 && w[0] == "MemAvailable:"@ ==> r == MemInfo { available: v, ..m }
            &&& w.len() >= 2 && w[0] == "Buffers:"@ ==> r == MemInfo { buffers: v, ..m }
            &&& w.len() >= 2 && w[0] == "Cached:"@ ==> r == MemInfo { cached: v, ..m }
            &&& w.len() >= 2 && w[0] == "SwapTotal:"@ ==> r == MemInfo { swap_total: v, ..m }
            &&& w.len() >= 2 && w[0] == "SwapFree:"@ ==> r == MemInfo { swap_free: v, ..m }
            &&& (w.len() < 2 || (w[0] != "MemTotal:"@ && w[0] != "MemFree:"@ && w[0]
                != "MemAvailable:"@ && w[0] != "Buffers:"@ && w[0] != "Cached:"@ && w[0]
                != "SwapTotal:"@ && w[0] != "SwapFree:"@)) ==> r == m
        }),
{
    reveal_strlit("MemTotal:");
    reveal_strlit("MemFree:");
    reveal_strlit("MemAvailable:");
    reveal_strlit("Buffers:");
    reveal_strlit("Cached:");
    reveal_strlit("SwapTotal:");
    reveal_strlit("SwapFree:");
    assert("MemTotal:"@.len() == 9 && "MemFree:"@.len() == 8 && "MemAvailable:"@.len() == 13);
    assert("Buffers:"@.len() == 8 && "Cached:"@.len() == 7 && "SwapTotal:"@.len() == 10);
    assert("SwapFree:"@.len() == 9);
    assert("MemFree:"@[3] != "Buffers:"@[3]);
    assert("MemTotal:"@[0] != "SwapFree:"@[0]);
    let w = words(line);
    if w.len() >= 2 {
        let v = (match parsed_u64(w[1]) { Some(k) => k * 1024, None => 0 }) as u64;
        assert(kib_word_bytes(w) as u64 == v);
    }
}

/// The figures after reading `lines` in order (a later line for a key wins).
pub open spec fn meminfo_lines(m: MemInfo, lines: Seq<Seq<char>>) -> MemInfo
    decreases lines.len(),
{
    if lines.len() == 0 {
        m
    } else {
        meminfo_line(meminfo_lines(m, lines.drop_last()), lines.last())
    }
}

/// Every line of at least two words has a value that fits in 64 bits once in bytes.
pub open spec fn meminfo_values_fit(lines: Seq<Seq<char>>) -> bool {
    forall|i: int|
        0 <= i < lines.len() && words(#[trigger] lines[i]).len() >= 2 ==> kib_word_bytes(
            words(lines[i]),
        ) <= u64::MAX
}

fn same_text(a: &str, b: &str) -> (r: bool)
    ensures
        r == (a@ == b@),
{
    a.to_string() == b.to_string()
}

/// Parses the content of `/proc/meminfo`.
pub fn parse_meminfo_content(content: &str) -> (m: MemInfo)
    requires
        meminfo_values_fit(text_lines(content@)),
    ensures
        m == meminfo_lines(zero_meminfo(), text_lines(content@)),
{
    let lines = split_lines(content);
    let ghost ls = text_lines(content@);
    let mut m = MemInfo::default();
    let mut i: usize = 0;
    proof {
        assert(ls.subrange(0, 0) =~= Seq::<Seq<char>>::empty());
    }
    while i < lines.len()
        invariant
            0 <= i <= lines@.len(),
            ls == text_lines(content@),
            lines@.len() == ls.len(),
            forall|j: int| 0 <= j < lines@.len() ==> #[trigger] lines@[j]@ == ls[j],
            meminfo_values_fit(ls),
            m == meminfo_lines(zero_meminfo(), ls.subrange(0, i as int)),
        decreases lines@.len() - i,
    {
        proof {
            assert(ls.subrange(0, i + 1).drop_last() =~= ls.subrange(0, i as int));
            assert(ls.subrange(0, i + 1).last() == lines@[i as int]@);
        }
        let parts = split_words(lines[i]);
        proof {
            assert(parts@.map_values(|w: &str| w@) =~= words(ls[i as int]));
        }
        if parts.len() >= 2 {
            let value: u64 = match parse_u64(parts[1]) {
                Some(v) => v * 1024,
                None => 0,
            };
            let key = parts[0];
            if same_text(key, "MemTotal:") {
                m.total = value;
            } else if same_text(key, "MemFree:") {
                m.free = value;
            } else if same_text(key, "MemAvailable:") {
                m.available = value;
            } else if same_text(key, "Buffers:") {
                m.buffers = value;
            } else if same_text(key, "Cached:") {
                m.cached = value;
            } else if same_text(key, "SwapTotal:") {
                m.swap_total = value;
            } else if same_text(key, "SwapFree:") {
                m.swap_free = value;
            }
        }
        i = i + 1;
    }
    proof {
        assert(ls.subrange(0, i as int) =~= ls);
    }
    m
}

impl MemInfo {
    /// Memory in use: total minus available, floored at zero.
    pub fn used(&self) -> (r: u64)
        ensures
            r == sat_sub(self.total as int, self.available as int),
    {
        self.total.saturating_sub(self.available)
    }

    /// Swap in use: total swap minus free swap, floored at zero.
    pub fn swap_used(&self) -> (r: u64)
        ensures
            r == sat_sub(self.swap_total as int, self.swap_free as int),
    {
        self.swap_total.saturating_sub(self.swap_free)
    }
}

/// Memory in use never exceeds the total, nor swap in use the total swap.
pub proof fn lemma_used_within_total(m: MemInfo)
    ensures
        sat_sub(m.total as int, m.available as int) <= m.total,
        sat_sub(m.swap_total as int, m.swap_free as int) <= m.swap_total,
{
}

} // verus!
