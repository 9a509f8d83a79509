//! Naming the GPUs of a Mac: from the CPU brand string on Apple Silicon, and from the
//! PCI device listing of `ioreg` on Intel Macs.

use crate::monitor::text::{contains_chars, split_lines, str_chars, str_contains, string_of_chars, text_lines};
use vstd::prelude::*;

verus! {

/// The GPU name of an Apple Silicon chip, from the CPU brand string.
pub open spec fn apple_gpu_name(chip: Seq<char>) -> Seq<char> {
    if contains_chars(chip, "M4"@) {
        if contains_chars(chip, "Max"@) {
            "Apple M4 Max GPU"@
        } else if contains_chars(chip, "Pro"@) {
            "Apple M4 Pro GPU"@
        } else {
            "Apple M4 GPU"@
        }
    } else if contains_chars(chip, "M3"@) {
        if contains_chars(chip, "Max"@) {
            "Apple M3 Max GPU"@
        } else if contains_chars(chip, "Pro"@) {
            "Apple M3 Pro GPU"@
        } else {
            "Apple M3 GPU"@
        }
    } else if contains_chars(chip, "M2"@) {
        if contains_chars(chip, "Ultra"@) {
            "Apple M2 Ultra GPU"@
        } else if contains_chars(chip, "Max"@) {
            "Apple M2 Max GPU"@
        } else if contains_chars(chip, "Pro"@) {
            "Apple M2 Pro GPU"@
        } else {
            "Apple M2 GPU"@
        }
    } else if contains_chars(chip, "M1"@) {
        if contains_chars(chip, "Ultra"@) {
            "Apple M1 Ultra GPU"@
        } else if contains_chars(chip, "Max"@) {
            "Apple M1 Max GPU"@
        } else if contains_chars(chip, "Pro"@) {
            "Apple M1 Pro GPU"@
        } else {
            "Apple M1 GPU"@
        }
    } else {
        "Apple GPU"@
    }
}

/// The GPU name of an Apple Silicon chip, from the CPU brand string
/// (`machdep.cpu.brand_string`).
pub fn apple_silicon_gpu_name(chip: &str) -> (name: String)
    ensures
        name@ == apple_gpu_name(chip@),
{
    if str_contains(chip, "M4") {
        if str_contains(chip, "Max") {
            "Apple M4 Max GPU".to_string()
        } else if str_contains(chip, "Pro") {
            "Apple M4 Pro GPU".to_string()
        } else {
            "Apple M4 GPU".to_string()
        }
    } else if str_contains(chip, "M3") {
        if str_contains(chip, "Max") {
            "Apple M3 Max GPU".to_string()
        } else if str_contains(chip, "Pro") {
            "Apple M3 Pro GPU".to_string()
        } else {
            "Apple M3 GPU".to_string()
        }
    } else if str_contains(chip, "M2") {
        if str_contains(chip, "Ultra") {
            "Apple M2 Ultra GPU".to_string()
        } else if str_contains(chip, "Max") {
            "Apple M2 Max GPU".to_string()
        } else if str_contains(chip, "Pro") {
            "Apple M2 Pro GPU".to_string()
        } else {
            "Apple M2 GPU".to_string()
        }
    } else if str_contains(chip, "M1") {
        if str_contains(chip, "Ultra") {
            "Apple M1 Ultra GPU".to_string()
        } else if str_contains(chip, "Max") {
            "Apple M1 Max GPU".to_string()
        } else if str_contains(chip, "Pro") {
            "Apple M1 Pro GPU".to_string()
        } else {
            "Apple M1 GPU".to_string()
        }
    } else {
        "Apple GPU".to_string()
    }
}

/// The GPU of an Apple Silicon Mac: for a brand string that names Apple, the chip's GPU
/// name; for any other (an Intel Mac), none.
pub fn apple_silicon_gpu(chip: &str) -> (r: Option<String>)
    ensures
        r is Some <==> contains_chars(chip@, "Apple"@),
        r matches Some(name) ==> name@ == apple_gpu_name(chip@),
{
    if str_contains(chip, "Apple") {
        Some(apple_silicon_gpu_name(chip))
    } else {
        None
    }
}

/// The characters `a` then `b` start at position `i` of `s`.
pub open spec fn pair_at(s: Seq<char>, i: int, a: char, b: char) -> bool {
    0 <= i && i + 1 < s.len() && s[i] == a && s[i + 1] == b
}

/// The first position where `a` then `b` occur in `s`, or -1.
pub open spec fn first_pair(s: Seq<char>, a: char, b: char) -> int
    decreases s.len(),
{
    if s.len() < 2 {
        -1
    } else {
        let r = first_pair(s.drop_last(), a, b);
        if r >= 0 {
            r
        } else if pair_at(s, s.len() - 2, a, b) {
            s.len() - 2
        } else {
            -1
        }
    }
}

/// The last position where `a` then `b` occur in `s`, or -1.
pub open spec fn last_pair(s: Seq<char>, a: char, b: char) -> int
    decreases s.len(),
{
    if s.len() < 2 {
        -1
    } else if pair_at(s, s.len() - 2, a, b) {
        s.len() - 2
    } else {
        last_pair(s.drop_last(), a, b)
    }
}

proof fn lemma_pair_bounds(s: Seq<char>, a: char, b: char)
    ensures
        -1 <= first_pair(s, a, b) <= last_pair(s, a, b),
        last_pair(s, a, b) < s.len() - 1 || last_pair(s, a, b) == -1,
        first_pair(s, a, b) < 0 <==> last_pair(s, a, b) < 0,
    decreases s.len(),
{
    if s.len() >= 2 {
        lemma_pair_bounds(s.drop_last(), a, b);
    }
}

proof fn lemma_pair_prefix(s: Seq<char>, a: char, b: char, n: int)
    requires
        2 <= n <= s.len(),
    ensures
        first_pair(s.subrange(0, n), a, b) == ({
            let r = first_pair(s.subrange(0, n - 1), a, b);
            if r >= 0 {
                r
            } else if pair_at(s, n - 2, a, b) {
                n - 2
            } else {
                -1
            }
        }),
        last_pair(s.subrange(0, n), a, b) == (if pair_at(s, n - 2, a, b) {
            n - 2
        } else {
            last_pair(s.subrange(0, n - 1), a, b)
        }),
{
    assert(s.subrange(0, n).drop_last() =~= s.subrange(0, n - 1));
}

/// A model line of the `ioreg` PCI listing names an AMD GPU: it holds `"model"` and
/// `Radeon`, `AMD` or `Vega`.
pub open spec fn amd_model_line(line: Seq<char>) -> bool {
    &&& contains_chars(line, "\"model\""@)
    &&& (contains_chars(line, "Radeon"@) || contains_chars(line, "AMD"@) || contains_chars(
        line,
        "Vega"@,
    ))
}

/// The model of an AMD GPU model line, `"model" = <"AMD Radeon Pro W5700X">`: the text
/// between the first `<"` and the last `">`, when both are there.
pub open spec fn ioreg_model(line: Seq<char>) -> Option<Seq<char>> {
    let s = first_pair(line, '<', '"');
    let e = last_pair(line, '"', '>');
    if amd_model_line(line) && s >= 0 && e >= 0 {
        Some(line.subrange(s + 2, e))
    } else {
        None
    }
}

/// The model of a line can be cut out: its `">` does not start inside its `<"`.
pub open spec fn ioreg_line_sliceable(line: Seq<char>) -> bool {
    let s = first_pair(line, '<', '"');
    let e = last_pair(line, '"', '>');
    amd_model_line(line) && s >= 0 && e >= 0 ==> s + 2 <= e
}

/// The AMD GPU models of the `ioreg` listing, in line order.
pub open spec fn ioreg_models(lines: Seq<Seq<char>>) -> Seq<Seq<char>>
    decreases lines.len(),
{
    if lines.len() == 0 {
        Seq::empty()
    } else {
        match ioreg_model(lines.last()) {
            Some(m) => ioreg_models(lines.drop_last()).push(m),
            None => ioreg_models(lines.drop_last()),
        }
    }
}

/// The GPU names of an Intel Mac from its `ioreg` listing: the AMD models, or the
/// single name `GPU` when there are none.
pub open spec fn intel_mac_gpu_names(content: Seq<char>) -> Seq<Seq<char>> {
    let models = ioreg_models(text_lines(content));
    if models.len() == 0 {
        seq!["GPU"@]
    } else {
        models
    }
}

/// The model of one line of the listing, if it names an AMD GPU.
fn line_model(line: &str) -> (r: Option<String>)
    requires
        ioreg_line_sliceable(line@),
    ensures
        r matches Some(m) ==> ioreg_model(line@) == Some(m@),
        r is None ==> ioreg_model(line@) is None,
{
    if !(str_contains(line, "\"model\"") && (str_contains(line, "Radeon") || str_contains(line, "AMD")
        || str_contains(line, "Vega"))) {
        return None;
    }
    let cs = str_chars(line);
    let ghost s = line@;
    if cs.len() < 2 {
        proof {
            assert(first_pair(s, '<', '"') == -1);
        }
        return None;
    }
    let mut start: usize = 0;
    let mut has_start = false;
    let mut end: usize = 0;
    let mut has_end = false;
    let mut i: usize = 1;
    proof {
        assert(first_pair(s.subrange(0, 1), '<', '"') == -1);
        assert(last_pair(s.subrange(0, 1), '"', '>') == -1);
    }
    while i < cs.len()
        invariant
            1 <= i <= cs@.len(),
            cs@ == s,
            has_start <==> first_pair(s.subrange(0, i as int), '<', '"') >= 0,
            has_start ==> start == first_pair(s.subrange(0, i as int), '<', '"'),
            has_end <==> last_pair(s.subrange(0, i as int), '"', '>') >= 0,
            has_end ==> end == last_pair(s.subrange(0, i as int), '"', '>'),
        decreases cs@.len() - i,
    {
        proof {
            lemma_pair_prefix(s, '<', '"', i + 1);
            lemma_pair_prefix(s, '"', '>', i + 1);
        }
        if !has_start && cs[i - 1] == '<' && cs[i] == '"' {
            start = i - 1;
            has_start = true;
        }
        if cs[i - 1] == '"' && cs[i] == '>' {
            end = i - 1;
            has_end = true;
        }
        i = i + 1;
    }
    proof {
        assert(s.subrange(0, i as int) =~= s);
        lemma_pair_bounds(s, '<', '"');
        lemma_pair_bounds(s, '"', '>');
        reveal_strlit("\"model\"");
    }
    if has_start && has_end {
        Some(string_of_chars(&cs, start + 2, end))
    } else {
        None
    }
}

/// Every line of the listing can be cut.
pub open spec fn ioreg_sliceable(content: Seq<char>) -> bool {
    forall|i: int| 0 <= i < text_lines(content).len() ==> ioreg_line_sliceable(#[trigger] text_lines(content)[i])
}

/// The GPU names of an Intel Mac from the output of `ioreg -r -c IOPCIDevice`.
pub fn gpu_names_from_ioreg(content: &str) -> (names: Vec<String>)
    requires
        ioreg_sliceable(content@),
    ensures
        names@.len() == intel_mac_gpu_names(content@).len(),
        forall|i: int| 0 <= i < names@.len() ==> #[trigger] names@[i]@ == intel_mac_gpu_names(content@)[i],
{
    let lines = split_lines(content);
    let ghost ls = text_lines(content@);
    let mut out: Vec<String> = Vec::new();
    let mut i: usize = 0;
    proof {
        assert(ls.subrange(0, 0) =~= Seq::<Seq<char>>::empty());
    }
    while i < lines.len()
        invariant
            0 <= i <= lines@.len(),
            ls == text_lines(content@),
            lines@.len() == ls.len(),
            forall|j: int| 0 <= j < lines@.len() ==> #[trigger] lines@[j]@ == ls[j],
            ioreg_sliceable(content@),
            out@.len() == ioreg_models(ls.subrange(0, i as int)).len(),
            forall|k: int| 0 <= k < out@.len() ==> #[trigger] out@[k]@ == ioreg_models(ls.subrange(0, i as int))[k],
        decreases lines@.len() - i,
    {
        proof {
            assert(ls.subrange(0, i + 1).drop_last() =~= ls.subrange(0, i as int));
            assert(ls.subrange(0, i + 1).last() == lines@[i as int]@);
            assert(ioreg_line_sliceable(ls[i as int]));
        }
        match line_model(lines[i]) {
            Some(m) => out.push(m),
            None => {},
        }
        i = i + 1;
    }
    proof {
        assert(ls.subrange(0, i as int) =~= ls);
    }
    if out.len() == 0 {
        let mut names: Vec<String> = Vec::new();
        names.push("GPU".to_string());
        names
    } else {
        out
    }
}

} // verus!
