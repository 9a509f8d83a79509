//! CPU core detection from `/sys/devices/system/cpu/present`.

use crate::monitor::text::{
    last_index_of, lemma_index_bounds, parse_u64, parsed_u64, str_chars, string_of_chars,
    trim_chars, trim_str,
};
use vstd::prelude::*;

verus! {

/// What `str::parse::<usize>` accepts: what `str::parse::<u64>` accepts, when it fits.
pub open spec fn parsed_usize(s: Seq<char>) -> Option<usize> {
    match parsed_u64(s) {
        Some(v) => if v <= usize::MAX {
            Some(v as usize)
        } else {
            None
        },
        None => None,
    }
}

/// The core count that the content of `/sys/devices/system/cpu/present` gives: for a
/// range `0-N`, `N + 1`; for a single CPU, or a last bound that is not a number, 1.
pub open spec fn present_cores(content: Seq<char>) -> int {
    let t = trim_chars(content);
    let k = last_index_of(t, '-');
    if k >= 0 {
        match parsed_usize(t.skip(k + 1)) {
            Some(n) => n + 1,
            None => 1,
        }
    } else {
        1
    }
}

/// Reads the number of CPU cores from the content of `/sys/devices/system/cpu/present`
/// (`"0-N"` or `"0"`).
pub fn present_core_count(content: &str) -> (n: usize)
    requires
        present_cores(content@) <= usize::MAX,
    ensures
        n == present_cores(content@),
{
    let t = trim_str(content);
    let cs = str_chars(t);
    let ghost s = t@;
    let mut dash: usize = 0;
    let mut has_dash = false;
    let mut i: usize = 0;
    while i < cs.len()
        invariant
            0 <= i <= cs@.len(),
            cs@ == s,
            has_dash <==> last_index_of(s.subrange(0, i as int), '-') >= 0,
            has_dash ==> dash == last_index_of(s.subrange(0, i as int), '-'),
        decreases cs@.len() - i,
    {
        proof {
            assert(s.subrange(0, i + 1).drop_last() =~= s.subrange(0, i as int));
        }
        if cs[i] == '-' {
            dash = i;
            has_dash = true;
        }
        i = i + 1;
    }
    proof {
        assert(s.subrange(0, i as int) =~= s);
        lemma_index_bounds(s, '-');
    }
    if !has_dash {
        return 1;
    }
    let len = cs.len();
    let tail = string_of_chars(&cs, dash + 1, len);
    proof {
        assert(tail@ =~= s.skip(dash + 1));
    }
    match parse_u64(tail.as_str()) {
        Some(v) => if v <= usize::MAX as u64 {
            v as usize + 1
        } else {
            1
        },
        None => 1,
    }
}

} // verus!
