//! Scanning and arithmetic kernels used by the collectors.

use vstd::prelude::*;

verus! {

/// Bit `k` of `m` is set.
pub open spec fn bit_set(m: u64, k: u64) -> bool {
    (m >> k) & 1u64 == 1u64
}

proof fn lemma_set_bit(m: u64, i: u64, k: u64)
    by (bit_vector)
    requires
        i < 64,
        k < 64,
    ensures
        ((m | (1u64 << i)) >> k) & 1u64 == (if k == i { 1u64 } else { (m >> k) & 1u64 }),
{
}

proof fn lemma_zero_bits(k: u64)
    by (bit_vector)
    requires
        k < 64,
    ensures
        (0u64 >> k) & 1u64 == 0u64,
{
}

/// `a - b` modulo 2^64.
pub open spec fn wrapping_diff(a: u64, b: u64) -> u64 {
    if a >= b {
        (a - b) as u64
    } else {
        (a - b + 0x1_0000_0000_0000_0000) as u64
    }
}

/// A mask of the newline positions among the first 64 bytes: bit `i` is set exactly when
/// byte `i` is `\n`.
///
/// The mask has one bit per byte, so bytes past the 64th are not looked at.
pub fn simd_find_newlines(bytes: &[u8]) -> (mask: u64)
    ensures
        forall|k: u64| k < 64 ==> (#[trigger] bit_set(mask, k) <==> (k < bytes@.len() && bytes@[k as int] == 10u8)),
{
    let len = if bytes.len() < 64 { bytes.len() } else { 64 };
    let mut mask: u64 = 0;
    let mut i: usize = 0;
    proof {
        assert forall|k: u64| k < 64 implies !#[trigger] bit_set(0u64, k) by {
            lemma_zero_bits(k);
        }
    }
    while i < len
        invariant
            0 <= i <= len,
            len <= bytes@.len(),
            len <= 64,
            len == bytes@.len() || len == 64,
            forall|k: u64| k < 64 ==> (#[trigger] bit_set(mask, k) <==> (k < i && bytes@[k as int] == 10u8)),
        decreases len - i,
    {
        if bytes[i] == 10u8 {
            let ghost old_mask = mask;
            mask = mask | (1u64 << (i as u64));
            proof {
                assert forall|k: u64| k < 64 implies (#[trigger] bit_set(mask, k) <==> (k < i + 1
                    && bytes@[k as int] == 10u8)) by {
                    lemma_set_bit(old_mask, i as u64, k);
                    if k != i {
                        assert(bit_set(old_mask, k) <==> (k < i && bytes@[k as int] == 10u8));
                    }
                }
            }
        }
        i = i + 1;
    }
    mask
}

/// `out[i] = curr[i] - prev[i]` (wrapping) for every index below the shortest of the three
/// lengths; the rest of `out` is left as it was.
pub fn simd_delta(curr: &[u64], prev: &[u64], out: &mut [u64])
    ensures
        final(out)@.len() == old(out)@.len(),
        forall|i: int| 0 <= i < final(out)@.len() ==> #[trigger] final(out)@[i] == (if i < curr@.len()
            && i < prev@.len() {
            wrapping_diff(curr@[i], prev@[i])
        } else {
            old(out)@[i]
        }),
{
    let mut len = curr.len();
    if prev.len() < len {
        len = prev.len();
    }
    if out.len() < len {
        len = out.len();
    }
    let mut i: usize = 0;
    while i < len
        invariant
            0 <= i <= len,
            len <= curr@.len(),
            len <= prev@.len(),
            len <= out@.len(),
            len == curr@.len() || len == prev@.len() || len == out@.len(),
            out@.len() == old(out)@.len(),
            forall|j: int| 0 <= j < out@.len() ==> #[trigger] out@[j] == (if j < i {
                wrapping_diff(curr@[j], prev@[j])
            } else {
                old(out)@[j]
            }),
        decreases len - i,
    {
        out[i] = curr[i].wrapping_sub(prev[i]);
        i = i + 1;
    }
}

} // verus!
