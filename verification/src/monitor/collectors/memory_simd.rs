//! Parsing of `/proc/meminfo` text.
//!
//! Each line has the form `Key:   value kB`; the fields of interest are found by
//! their key prefix and their value is converted from kibibytes to bytes.

use vstd::arithmetic::div_mod::{lemma_add_mod_noop, lemma_mul_mod_noop_left};
use vstd::prelude::*;
use vstd::string::StringSliceAdditionalSpecFns;

verus! {

/// 2^64: arithmetic on parsed values wraps modulo this.
pub open spec fn word_modulus() -> int {
    0x1_0000_0000_0000_0000
}

/// An ASCII decimal digit.
pub open spec fn is_digit(b: u8) -> bool {
    48 <= b && b <= 57
}

/// The value of a string of decimal digits.
pub open spec fn decimal_value(s: Seq<u8>) -> nat
    decreases s.len(),
{
    if s.len() == 0 {
        0
    } else {
        decimal_value(s.drop_last()) * 10 + (s.last() - 48) as nat
    }
}

/// The index of the first byte equal to `b` at or after `i` (the length when there is none).
pub open spec fn find_byte_from(s: Seq<u8>, b: u8, i: int) -> int
    decreases s.len() - i,
{
    if i >= s.len() {
        s.len() as int
    } else if s[i] == b {
        i
    } else {
        find_byte_from(s, b, i + 1)
    }
}

/// The index of the first digit at or after `i` (the length when there is none).
pub open spec fn find_digit_from(s: Seq<u8>, i: int) -> int
    decreases s.len() - i,
{
    if i >= s.len() {
        s.len() as int
    } else if is_digit(s[i]) {
        i
    } else {
        find_digit_from(s, i + 1)
    }
}

/// The end of the run of digits that starts at `i`.
pub open spec fn digits_end_from(s: Seq<u8>, i: int) -> int
    decreases s.len() - i,
{
    if 0 <= i < s.len() && is_digit(s[i]) {
        digits_end_from(s, i + 1)
    } else {
        i
    }
}

/// The first decimal number at or after `i`, modulo 2^64 (0 when there is none).
pub open spec fn first_number_from(s: Seq<u8>, i: int) -> u64 {
    let a = find_digit_from(s, i);
    let e = digits_end_from(s, a);
    (decimal_value(s.subrange(a, e)) as int % word_modulus()) as u64
}

/// The value of a `Key: value kB` line: the first number after the first colon,
/// or 0 when the line has no colon.
pub open spec fn kb_value(line: Seq<u8>) -> u64 {
    let c = find_byte_from(line, 58u8, 0);
    if c >= line.len() {
        0
    } else {
        first_number_from(line, c + 1)
    }
}

/// The index of the first byte equal to `b` at or after `from`.
pub fn find_byte(s: &[u8], b: u8, from: usize) -> (r: usize)
    requires
        from <= s@.len(),
    ensures
        r == find_byte_from(s@, b, from as int),
        from <= r <= s@.len(),
{
    let mut i = from;
    while i < s.len()
        invariant
            from <= i <= s@.len(),
            find_byte_from(s@, b, from as int) == find_byte_from(s@, b, i as int),
        decreases s@.len() - i,
    {
        if s[i] == b {
            return i;
        }
        i = i + 1;
    }
    i
}

/// The first decimal number at or after `from`, wrapping modulo 2^64 (0 when there is none).
pub fn parse_first_number(s: &[u8], from: usize) -> (r: u64)
    requires
        from <= s@.len(),
    ensures
        r == first_number_from(s@, from as int),
{
    let len = s.len();
    let mut a = from;
    while a < len && !(48u8 <= s[a] && s[a] <= 57u8)
        invariant
            from <= a <= len,
            len == s@.len(),
            find_digit_from(s@, from as int) == find_digit_from(s@, a as int),
        decreases len - a,
    {
        a = a + 1;
    }
    let ghost start = a;
    let mut e = a;
    let mut acc: u64 = 0;
    while e < len && 48u8 <= s[e] && s[e] <= 57u8
        invariant
            start <= e <= len,
            len == s@.len(),
            start == find_digit_from(s@, from as int),
            digits_end_from(s@, start as int) == digits_end_from(s@, e as int),
            acc == decimal_value(s@.subrange(start as int, e as int)) as int % word_modulus(),
        decreases len - e,
    {
        let d = (s[e] - 48u8) as u64;
        proof {
            let m = word_modulus();
            let prev = decimal_value(s@.subrange(start as int, e as int)) as int;
            assert(s@.subrange(start as int, e + 1).drop_last() =~= s@.subrange(start as int, e as int));
            lemma_mul_mod_noop_left(prev, 10, m);
            lemma_add_mod_noop(prev * 10, d as int, m);
            lemma_add_mod_noop((prev % m) * 10, d as int, m);
            assert(((acc as int * 10) % m + d) % m == (prev * 10 + d) % m) by {
                vstd::arithmetic::div_mod::lemma_mod_twice((acc as int * 10), m);
                vstd::arithmetic::div_mod::lemma_small_mod(d as nat, m as nat);
            }
        }
        acc = acc.wrapping_mul(10).wrapping_add(d);
        e = e + 1;
    }
    acc
}

/// Parses the value of a `Key:     12345 kB` line: the first number after the first colon,
/// or 0 when the line has no colon.
pub fn parse_kb_value(line: &[u8]) -> (r: u64)
    ensures
        r == kb_value(line@),
{
    let colon = find_byte(line, 58u8, 0);
    if colon >= line.len() {
        0
    } else {
        parse_first_number(line, colon + 1)
    }
}

/// `line` begins with the bytes of `key`.
pub open spec fn has_prefix(line: Seq<u8>, key: Seq<u8>) -> bool {
    key.len() <= line.len() && line.subrange(0, key.len() as int) == key
}

/// A kibibyte count converted to bytes, wrapping modulo 2^64.
pub open spec fn kib_to_bytes(kb: u64) -> u64 {
    ((kb as int * 1024) % word_modulus()) as u64
}

/// The complete (newline-terminated) lines of `buf`, in order, without their newlines.
/// Text after the last newline is not a complete line.
pub open spec fn complete_lines(buf: Seq<u8>) -> Seq<Seq<u8>>
    decreases buf.len(),
{
    let nl = find_byte_from(buf, 10u8, 0);
    if nl >= buf.len() {
        Seq::empty()
    } else {
        proof { lemma_find_byte_bounds(buf, 10u8, 0); }
        seq![buf.subrange(0, nl)] + complete_lines(buf.subrange(nl + 1, buf.len() as int))
    }
}

/// The search for a byte ends at or after where it started, and within the sequence.
pub proof fn lemma_find_byte_bounds(s: Seq<u8>, b: u8, i: int)
    requires
        0 <= i,
    ensures
        i <= find_byte_from(s, b, i) || find_byte_from(s, b, i) == s.len(),
        find_byte_from(s, b, i) <= s.len() || i > s.len(),
        find_byte_from(s, b, i) < s.len() ==> s[find_byte_from(s, b, i)] == b,
    decreases s.len() - i,
{
    if i < s.len() && s[i] != b {
        lemma_find_byte_bounds(s, b, i + 1);
    }
}

/// Searching a suffix finds the same byte, shifted by the suffix's start.
pub proof fn lemma_find_byte_in_suffix(s: Seq<u8>, b: u8, k: int, i: int)
    requires
        0 <= k <= i <= s.len(),
    ensures
        find_byte_from(s.subrange(k, s.len() as int), b, i - k) == find_byte_from(s, b, i) - k,
    decreases s.len() - i,
{
    if i < s.len() && s[i] != b {
        lemma_find_byte_in_suffix(s, b, k, i + 1);
    }
}

/// The memory figures read from `/proc/meminfo`, in bytes.
#[derive(Debug, Clone, Copy, PartialEq, Eq, Structural, Default)]
pub struct MemoryFields {
    /// `MemTotal`.
    pub total: u64,
    /// `MemFree`.
    pub free: u64,
    /// `MemAvailable`.
    pub available: u64,
    /// `Buffers`.
    pub buffers: u64,
    /// `Cached` (not `SwapCached`).
    pub cached: u64,
    /// `SwapTotal`.
    pub swap_total: u64,
    /// `SwapFree`.
    pub swap_free: u64,
    /// `Dirty`.
    pub dirty: u64,
    /// `Slab`.
    pub slab: u64,
}

/// The figures after reading one line: the field whose key starts the line is set to
/// the line's value in bytes; a line with no known key changes nothing.
pub open spec fn apply_meminfo_line(f: MemoryFields, line: Seq<u8>) -> MemoryFields {
    let v = kib_to_bytes(kb_value(line));
    if has_prefix(line, "MemTotal:".spec_bytes()) {
        MemoryFields { total: v, ..f }
    } else if has_prefix(line, "MemFree:".spec_bytes()) {
        MemoryFields { free: v, ..f }
    } else if has_prefix(line, "MemAvailable:".spec_bytes()) {
        MemoryFields { available: v, ..f }
    } else if has_prefix(line, "Buffers:".spec_bytes()) {
        MemoryFields { buffers: v, ..f }
    } else if has_prefix(line, "Cached:".spec_bytes()) {
        MemoryFields { cached: v, ..f }
    } else if has_prefix(line, "SwapTotal:".spec_bytes()) {
        MemoryFields { swap_total: v, ..f }
    } else if has_prefix(line, "SwapFree:".spec_bytes()) {
        MemoryFields { swap_free: v, ..f }
    } else if has_prefix(line, "Dirty:".spec_bytes()) {
        MemoryFields { dirty: v, ..f }
    } else if has_prefix(line, "Slab:".spec_bytes()) {
        MemoryFields { slab: v, ..f }
    } else {
        f
    }
}

/// The figures after reading `lines` in order.
pub open spec fn apply_meminfo_lines(f: MemoryFields, lines: Seq<Seq<u8>>) -> MemoryFields
    decreases lines.len(),
{
    if lines.len() == 0 {
        f
    } else {
        apply_meminfo_lines(apply_meminfo_line(f, lines[0]), lines.drop_first())
    }
}

/// `line` begins with `key`.
pub fn starts_with_bytes(line: &[u8], key: &[u8]) -> (r: bool)
    ensures
        r == has_prefix(line@, key@),
{
    if key.len() > line.len() {
        return false;
    }
    let mut i: usize = 0;
    while i < key.len()
        invariant
            0 <= i <= key@.len(),
            key@.len() <= line@.len(),
            forall|j: int| 0 <= j < i ==> line@[j] == key@[j],
        decreases key@.len() - i,
    {
        if line[i] != key[i] {
            assert(line@.subrange(0, key@.len() as int)[i as int] != key@[i as int]);
            return false;
        }
        i = i + 1;
    }
    assert(line@.subrange(0, key@.len() as int) =~= key@);
    true
}

/// Reads one meminfo line into the figures.
pub fn apply_meminfo_line_exec(fields: &mut MemoryFields, line: &[u8])
    ensures
        *final(fields) == apply_meminfo_line(*old(fields), line@),
{
    let v = parse_kb_value(line).wrapping_mul(1024);
    if starts_with_bytes(line, "MemTotal:".as_bytes()) {
        fields.total = v;
    } else if starts_with_bytes(line, "MemFree:".as_bytes()) {
        fields.free = v;
    } else if starts_with_bytes(line, "MemAvailable:".as_bytes()) {
        fields.available = v;
    } else if starts_with_bytes(line, "Buffers:".as_bytes()) {
        fields.buffers = v;
    } else if starts_with_bytes(line, "Cached:".as_bytes()) {
        fields.cached = v;
    } else if starts_with_bytes(line, "SwapTotal:".as_bytes()) {
        fields.swap_total = v;
    } else if starts_with_bytes(line, "SwapFree:".as_bytes()) {
        fields.swap_free = v;
    } else if starts_with_bytes(line, "Dirty:".as_bytes()) {
        fields.dirty = v;
    } else if starts_with_bytes(line, "Slab:".as_bytes()) {
        fields.slab = v;
    }
}

/// Reads every complete line of a `/proc/meminfo` buffer into the figures, in order.
/// Figures whose key does not occur keep their values.
pub fn parse_meminfo_buffer(fields: &mut MemoryFields, buffer: &[u8])
    ensures
        *final(fields) == apply_meminfo_lines(*old(fields), complete_lines(buffer@)),
{
    let len = buffer.len();
    let mut ls: usize = 0;
    let mut nl = find_byte(buffer, 10u8, 0);
    proof {
        assert(buffer@.subrange(0, len as int) =~= buffer@);
    }
    while nl < len
        invariant
            ls <= nl <= len,
            len == buffer@.len(),
            nl == find_byte_from(buffer@, 10u8, ls as int),
            apply_meminfo_lines(*fields, complete_lines(buffer@.subrange(ls as int, len as int)))
                == apply_meminfo_lines(*old(fields), complete_lines(buffer@)),
        decreases len - ls,
    {
        let ghost before = *fields;
        let ghost rest = buffer@.subrange(ls as int, len as int);
        proof {
            lemma_find_byte_in_suffix(buffer@, 10u8, ls as int, ls as int);
            let l0 = rest.subrange(0, nl - ls);
            let tail = rest.subrange(nl - ls + 1, rest.len() as int);
            assert(l0 =~= buffer@.subrange(ls as int, nl as int));
            assert(tail =~= buffer@.subrange(nl + 1, len as int));
            assert(complete_lines(rest) == seq![l0] + complete_lines(tail));
            assert((seq![l0] + complete_lines(tail)).drop_first() =~= complete_lines(tail));
        }
        apply_meminfo_line_exec(fields, &buffer[ls..nl]);
        ls = nl + 1;
        nl = find_byte(buffer, 10u8, ls);
    }
    proof {
        lemma_find_byte_in_suffix(buffer@, 10u8, ls as int, ls as int);
    }
}

} // verus!
