//! Network interface counters from `/proc/net/dev`.

use crate::monitor::text::{
    has_char_prefix, parse_u64, parsed_u64, pieces, split_at_char, split_lines, split_words,
    str_starts_with, text_lines, trim_chars, trim_str, words,
};
use crate::monitor::collectors::process::after_first;
use crate::monitor::collectors::cpu::sat_sub;
use vstd::prelude::*;

verus! {

/// Raw statistics for a network interface.
#[derive(Debug, Clone, Default)]
pub struct NetStats {
    /// Interface name.
    pub name: String,
    /// Bytes received.
    pub rx_bytes: u64,
    /// Packets received.
    pub rx_packets: u64,
    /// Receive errors.
    pub rx_errors: u64,
    /// Receive drops.
    pub rx_drops: u64,
    /// Bytes transmitted.
    pub tx_bytes: u64,
    /// Packets transmitted.
    pub tx_packets: u64,
    /// Transmit errors.
    pub tx_errors: u64,
    /// Transmit drops.
    pub tx_drops: u64,
}

/// The words of `ws` that are numbers, as numbers, in order.
pub open spec fn numbers_of(ws: Seq<Seq<char>>) -> Seq<u64>
    decreases ws.len(),
{
    if ws.len() == 0 {
        Seq::empty()
    } else {
        match parsed_u64(ws.last()) {
            Some(v) => numbers_of(ws.drop_last()).push(v),
            None => numbers_of(ws.drop_last()),
        }
    }
}

/// The interface name and counters of a `/proc/net/dev` line `name: v0 v1 ...`, when the
/// line has exactly one colon, at least 16 numbers, and is not the loopback interface.
pub open spec fn net_entry(line: Seq<char>) -> Option<(Seq<char>, Seq<u64>)> {
    let p = pieces(trim_chars(line), ':');
    if p.len() != 2 {
        None
    } else {
        let name = trim_chars(p[0]);
        let v = numbers_of(words(p[1]));
        if v.len() < 16 || name == "lo"@ {
            None
        } else {
            Some((name, v))
        }
    }
}

/// `s` holds the name and counters (receive: words 0-3, transmit: words 8-11) of `e`.
pub open spec fn holds_net_entry(s: NetStats, e: (Seq<char>, Seq<u64>)) -> bool {
    &&& s.name@ == e.0
    &&& s.rx_bytes == e.1[0]
    &&& s.rx_packets == e.1[1]
    &&& s.rx_errors == e.1[2]
    &&& s.rx_drops == e.1[3]
    &&& s.tx_bytes == e.1[8]
    &&& s.tx_packets == e.1[9]
    &&& s.tx_errors == e.1[10]
    &&& s.tx_drops == e.1[11]
}

/// The interfaces of `lines`, in order.
pub open spec fn net_entries(lines: Seq<Seq<char>>) -> Seq<(Seq<char>, Seq<u64>)>
    decreases lines.len(),
{
    if lines.len() == 0 {
        Seq::empty()
    } else {
        match net_entry(lines.last()) {
            Some(e) => net_entries(lines.drop_last()).push(e),
            None => net_entries(lines.drop_last()),
        }
    }
}

pub(crate) fn numbers_in(ws: &Vec<&str>) -> (r: Vec<u64>)
    ensures
        r@ == numbers_of(ws@.map_values(|s: &str| s@)),
{
    let ghost wv = ws@.map_values(|s: &str| s@);
    let mut r: Vec<u64> = Vec::new();
    let mut i: usize = 0;
    while i < ws.len()
        invariant
            0 <= i <= ws@.len(),
            wv == ws@.map_values(|s: &str| s@),
            r@ == numbers_of(wv.subrange(0, i as int)),
        decreases ws@.len() - i,
    {
        proof {
            assert(wv.subrange(0, i + 1).drop_last() =~= wv.subrange(0, i as int));
        }
        match parse_u64(ws[i]) {
            Some(v) => r.push(v),
            None => {},
        }
        i = i + 1;
    }
    proof {
        assert(wv.subrange(0, i as int) =~= wv);
    }
    r
}

/// The numbers after the colon of a `/proc/net/dev` line.
pub open spec fn net_dev_numbers(line: Seq<char>) -> Seq<u64> {
    numbers_of(words(pieces(trim_chars(line), ':')[1]))
}

/// `s` holds the columns of a `/proc/net/dev` line whose numbers (after the colon) are
/// `v`: received bytes, packets, errors and drops are numbers 0 to 3, transmitted bytes,
/// packets, errors and drops numbers 8 to 11; the name is the text before the colon.
pub open spec fn net_dev_columns(s: NetStats, line: Seq<char>, v: Seq<u64>) -> bool {
    &&& s.name@ == trim_chars(pieces(trim_chars(line), ':')[0])
    &&& s.rx_bytes == v[0]
    &&& s.rx_packets == v[1]
    &&& s.rx_errors == v[2]
    &&& s.rx_drops == v[3]
    &&& s.tx_bytes == v[8]
    &&& s.tx_packets == v[9]
    &&& s.tx_errors == v[10]
    &&& s.tx_drops == v[11]
}

/// An interface line of `/proc/net/dev` is read exactly when it has one colon, at least
/// 16 numbers after it, and is not the loopback; what is read carries each counter from
/// its own column (received packets the second number, transmitted packets the tenth,
/// and so on).
pub proof fn lemma_net_dev_columns(line: Seq<char>, s: NetStats)
    ensures
        net_entry(line) is Some <==> (pieces(trim_chars(line), ':').len() == 2 && net_dev_numbers(
            line,
        ).len() >= 16 && trim_chars(pieces(trim_chars(line), ':')[0]) != "lo"@),
        net_entry(line) is Some && holds_net_entry(s, net_entry(line)->0) ==> net_dev_columns(
            s,
            line,
            net_dev_numbers(line),
        ),
{
}

/// Parses one interface line of `/proc/net/dev`.
pub fn parse_net_dev_line(line: &str) -> (r: Option<NetStats>)
    ensures
        r is Some <==> net_entry(line@) is Some,
        r matches Some(s) ==> holds_net_entry(s, net_entry(line@)->0),
        r is Some ==> pieces(trim_chars(line@), ':').len() == 2 && net_dev_numbers(line@).len() >= 16,
        r matches Some(s) ==> net_dev_columns(s, line@, net_dev_numbers(line@)),
{
    let t = trim_str(line);
    let parts = split_at_char(t, ':');
    if parts.len() != 2 {
        return None;
    }
    let name = trim_str(parts[0]).to_string();
    let ws = split_words(parts[1]);
    proof {
        assert(ws@.map_values(|s: &str| s@) =~= words(parts@[1]@));
    }
    let values = numbers_in(&ws);
    if values.len() < 16 {
        return None;
    }
    if name == "lo".to_string() {
        return None;
    }
    Some(NetStats {
        name,
        rx_bytes: values[0],
        rx_packets: values[1],
        rx_errors: values[2],
        rx_drops: values[3],
        tx_bytes: values[8],
        tx_packets: values[9],
        tx_errors: values[10],
        tx_drops: values[11],
    })
}

/// The lines after the two header lines.
pub open spec fn after_header(lines: Seq<Seq<char>>) -> Seq<Seq<char>> {
    if lines.len() >= 2 {
        lines.skip(2)
    } else {
        Seq::empty()
    }
}

/// Parses the content of `/proc/net/dev` (two header lines, then one line per interface):
/// every interface but the loopback, in line order.
pub fn parse_net_dev(content: &str) -> (r: Vec<NetStats>)
    ensures
        r@.len() == net_entries(after_header(text_lines(content@))).len(),
        forall|i: int| 0 <= i < r@.len() ==> holds_net_entry(#[trigger] r@[i], net_entries(after_header(text_lines(content@)))[i]),
        forall|i: int| 0 <= i < r@.len() ==> {
            let v = net_entries(after_header(text_lines(content@)))[i].1;
            &&& (#[trigger] r@[i]).name@ == net_entries(after_header(text_lines(content@)))[i].0
            &&& r@[i].rx_bytes == v[0] && r@[i].rx_packets == v[1]
            &&& r@[i].rx_errors == v[2] && r@[i].rx_drops == v[3]
            &&& r@[i].tx_bytes == v[8] && r@[i].tx_packets == v[9]
            &&& r@[i].tx_errors == v[10] && r@[i].tx_drops == v[11]
        },
{
    let lines = split_lines(content);
    let ghost ls = text_lines(content@);
    let mut out: Vec<NetStats> = Vec::new();
    let mut i: usize = 2;
    if lines.len() < 2 {
        return out;
    }
    proof {
        assert(ls.subrange(2, 2) =~= Seq::<Seq<char>>::empty());
    }
    while i < lines.len()
        invariant
            2 <= i <= lines@.len(),
            ls == text_lines(content@),
            lines@.len() == ls.len(),
            forall|j: int| 0 <= j < lines@.len() ==> #[trigger] lines@[j]@ == ls[j],
            out@.len() == net_entries(ls.subrange(2, i as int)).len(),
            forall|k: int| 0 <= k < out@.len() ==> holds_net_entry(#[trigger] out@[k], net_entries(ls.subrange(2, i as int))[k]),
        decreases lines@.len() - i,
    {
        proof {
            assert(ls.subrange(2, i + 1).drop_last() =~= ls.subrange(2, i as int));
            assert(ls.subrange(2, i + 1).last() == lines@[i as int]@);
        }
        match parse_net_dev_line(lines[i]) {
            Some(s) => out.push(s),
            None => {},
        }
        i = i + 1;
    }
    proof {
        assert(ls.subrange(2, i as int) =~= ls.skip(2));
    }
    out
}

/// What an interface carried between two samples.
#[derive(Debug, Clone, Copy, PartialEq, Eq, Structural)]
pub struct NetDeltas {
    /// Bytes received.
    pub rx_bytes: u64,
    /// Bytes transmitted.
    pub tx_bytes: u64,
    /// Packets received.
    pub rx_packets: u64,
    /// Packets transmitted.
    pub tx_packets: u64,
}

/// The traffic of an interface between samples `prev` and `curr`; a counter that went
/// backwards counts nothing.
pub fn net_deltas(prev: &NetStats, curr: &NetStats) -> (d: NetDeltas)
    ensures
        d.rx_bytes == sat_sub(curr.rx_bytes as int, prev.rx_bytes as int),
        d.tx_bytes == sat_sub(curr.tx_bytes as int, prev.tx_bytes as int),
        d.rx_packets == sat_sub(curr.rx_packets as int, prev.rx_packets as int),
        d.tx_packets == sat_sub(curr.tx_packets as int, prev.tx_packets as int),
{
    NetDeltas {
        rx_bytes: curr.rx_bytes.saturating_sub(prev.rx_bytes),
        tx_bytes: curr.tx_bytes.saturating_sub(prev.tx_bytes),
        rx_packets: curr.rx_packets.saturating_sub(prev.rx_packets),
        tx_packets: curr.tx_packets.saturating_sub(prev.tx_packets),
    }
}

/// A word of `ws` starts with `<Link#` (a link-level address row of `netstat -ib`).
pub open spec fn has_link_word(ws: Seq<Seq<char>>) -> bool {
    exists|k: int| 0 <= k < ws.len() && has_char_prefix(#[trigger] ws[k], "<Link#"@)
}

/// Word `k` of `ws` read as a number, or 0 when it is not one.
pub open spec fn count_or_zero(ws: Seq<Seq<char>>, k: int) -> u64 {
    match parsed_u64(ws[k]) {
        Some(v) => v,
        None => 0,
    }
}

/// A `netstat -ib` line reports a physical interface with traffic: it has at least 11
/// words, its name does not start with `lo`, `gif` or `stf`, a word starts with `<Link#`,
/// and the received or sent byte count (words 6 and 9) is not zero.
pub open spec fn netstat_line_ok(line: Seq<char>) -> bool {
    let ws = words(line);
    &&& ws.len() >= 11
    &&& !has_char_prefix(ws[0], "lo"@)
    &&& !has_char_prefix(ws[0], "gif"@)
    &&& !has_char_prefix(ws[0], "stf"@)
    &&& has_link_word(ws)
    &&& (count_or_zero(ws, 6) != 0 || count_or_zero(ws, 9) != 0)
}

/// `s` holds what the `netstat -ib` line says: name, then packets, errors and bytes in
/// (words 4-6) and out (words 7-9); drops are not reported and count as 0.
pub open spec fn holds_netstat_entry(s: NetStats, line: Seq<char>) -> bool {
    let ws = words(line);
    &&& s.name@ == ws[0]
    &&& s.rx_packets == count_or_zero(ws, 4)
    &&& s.rx_errors == count_or_zero(ws, 5)
    &&& s.rx_bytes == count_or_zero(ws, 6)
    &&& s.tx_packets == count_or_zero(ws, 7)
    &&& s.tx_errors == count_or_zero(ws, 8)
    &&& s.tx_bytes == count_or_zero(ws, 9)
    &&& s.rx_drops == 0
    &&& s.tx_drops == 0
}

/// A word read as a number, or 0 when it is not one.
fn number_or_zero(w: &str) -> (r: u64)
    ensures
        r == (match parsed_u64(w@) {
            Some(v) => v,
            None => 0,
        }),
{
    match parse_u64(w) {
        Some(v) => v,
        None => 0,
    }
}

/// Parses one line of `netstat -ib`: `None` unless it reports a physical interface with
/// traffic (see `netstat_line_ok`).
pub fn parse_netstat_line(line: &str) -> (r: Option<NetStats>)
    ensures
        r is Some <==> netstat_line_ok(line@),
        r matches Some(s) ==> holds_netstat_entry(s, line@),
        r matches Some(s) ==> {
            let w = words(line@);
            &&& w.len() >= 11
            &&& s.name@ == w[0]
            &&& !has_char_prefix(w[0], "lo"@) && !has_char_prefix(w[0], "gif"@) && !has_char_prefix(w[0], "stf"@)
            &&& s.rx_packets == (match parsed_u64(w[4]) { Some(v) => v, None => 0 })
            &&& s.rx_errors == (match parsed_u64(w[5]) { Some(v) => v, None => 0 })
            &&& s.rx_bytes == (match parsed_u64(w[6]) { Some(v) => v, None => 0 })
            &&& s.tx_packets == (match parsed_u64(w[7]) { Some(v) => v, None => 0 })
            &&& s.tx_errors == (match parsed_u64(w[8]) { Some(v) => v, None => 0 })
            &&& s.tx_bytes == (match parsed_u64(w[9]) { Some(v) => v, None => 0 })
            &&& s.rx_drops == 0 && s.tx_drops == 0
            &&& (s.rx_bytes != 0 || s.tx_bytes != 0)
        },
{
    let ws = split_words(line);
    let ghost wv = ws@.map_values(|s: &str| s@);
    proof {
        assert(wv =~= words(line@));
    }
    if ws.len() < 11 {
        return None;
    }
    if str_starts_with(ws[0], "lo") || str_starts_with(ws[0], "gif") || str_starts_with(ws[0], "stf") {
        return None;
    }
    let mut has_link = false;
    let mut k: usize = 0;
    while k < ws.len()
        invariant
            0 <= k <= ws@.len(),
            wv == ws@.map_values(|s: &str| s@),
            has_link == exists|j: int| 0 <= j < k && has_char_prefix(#[trigger] wv[j], "<Link#"@),
        decreases ws@.len() - k,
    {
        if str_starts_with(ws[k], "<Link#") {
            has_link = true;
        }
        proof {
            if has_char_prefix(wv[k as int], "<Link#"@) {
                assert(has_link);
            }
            if has_link {
                if !(exists|j: int| 0 <= j < k && has_char_prefix(#[trigger] wv[j], "<Link#"@)) {
                    assert(has_char_prefix(wv[k as int], "<Link#"@));
                }
            }
        }
        k = k + 1;
    }
    if !has_link {
        return None;
    }
    let rx_packets = number_or_zero(ws[4]);
    let rx_errors = number_or_zero(ws[5]);
    let rx_bytes = number_or_zero(ws[6]);
    let tx_packets = number_or_zero(ws[7]);
    let tx_errors = number_or_zero(ws[8]);
    let tx_bytes = number_or_zero(ws[9]);
    if rx_bytes == 0 && tx_bytes == 0 {
        return None;
    }
    Some(NetStats {
        name: ws[0].to_string(),
        rx_bytes,
        rx_packets,
        rx_errors,
        rx_drops: 0,
        tx_bytes,
        tx_packets,
        tx_errors,
        tx_drops: 0,
    })
}

/// The `netstat -ib` lines that report physical interfaces with traffic, in order.
pub open spec fn netstat_rows(lines: Seq<Seq<char>>) -> Seq<Seq<char>>
    decreases lines.len(),
{
    if lines.len() == 0 {
        Seq::empty()
    } else if netstat_line_ok(lines.last()) {
        netstat_rows(lines.drop_last()).push(lines.last())
    } else {
        netstat_rows(lines.drop_last())
    }
}

/// Parses the output of `netstat -ib`: the header line is skipped, and every later line
/// that reports a physical interface with traffic gives one entry, in line order.
pub fn parse_netstat_ib(content: &str) -> (r: Vec<NetStats>)
    ensures
        r@.len() == netstat_rows(after_first(text_lines(content@))).len(),
        forall|i: int| 0 <= i < r@.len() ==> holds_netstat_entry(#[trigger] r@[i], netstat_rows(after_first(text_lines(content@)))[i]),
{
    let lines = split_lines(content);
    let ghost ls = text_lines(content@);
    let mut out: Vec<NetStats> = Vec::new();
    if lines.len() < 1 {
        proof {
            assert(after_first(ls) =~= Seq::<Seq<char>>::empty());
        }
        return out;
    }
    let mut i: usize = 1;
    proof {
        assert(ls.subrange(1, 1) =~= Seq::<Seq<char>>::empty());
    }
    while i < lines.len()
        invariant
            1 <= i <= lines@.len(),
            ls == text_lines(content@),
            lines@.len() == ls.len(),
            forall|j: int| 0 <= j < lines@.len() ==> #[trigger] lines@[j]@ == ls[j],
            out@.len() == netstat_rows(ls.subrange(1, i as int)).len(),
            forall|k: int| 0 <= k < out@.len() ==> holds_netstat_entry(#[trigger] out@[k], netstat_rows(ls.subrange(1, i as int))[k]),
        decreases lines@.len() - i,
    {
        proof {
            assert(ls.subrange(1, i + 1).drop_last() =~= ls.subrange(1, i as int));
            assert(ls.subrange(1, i + 1).last() == lines@[i as int]@);
        }
        match parse_netstat_line(lines[i]) {
            Some(s) => out.push(s),
            None => {},
        }
        i = i + 1;
    }
    proof {
        assert(ls.subrange(1, i as int) =~= ls.skip(1));
    }
    out
}

} // verus!
