//! Two's-complement encodings of magnitudes at a fixed bit width.

use vstd::prelude::*;

verus! {

use vstd::arithmetic::power2::lemma2_to64;
use vstd::arithmetic::power2::lemma_pow2_pos;
use vstd::arithmetic::power2::pow2;
use vstd::bits::lemma_u64_pow2_no_overflow;
use vstd::bits::lemma_u64_shl_is_mul;

/// The `n`-bit two's-complement pattern of a magnitude `m < pow2(n)`:
/// zero for zero, otherwise `pow2(n) - m`.
pub open spec fn twos_complement_spec(m: nat, n: nat) -> nat {
    if m == 0 {
        0
    } else {
        (pow2(n) - m) as nat
    }
}

/// Returns the `num_bits`-bit two's complement of `value`. The magnitude must
/// fit in the requested width; the result always does.
pub fn twos_complement(value: u64, num_bits: u32) -> (r: u64)
    requires
        1 <= num_bits <= 64,
        (value as nat) < pow2(num_bits as nat),
    ensures
        r == twos_complement_spec(value as nat, num_bits as nat),
        (r as nat) < pow2(num_bits as nat),
{
    proof {
        lemma2_to64();
    }
    if value == 0 {
        return 0;
    }
    if num_bits < 64 {
        let cap: u64 = 1u64 << (num_bits as u64);
        proof {
            lemma_u64_pow2_no_overflow(num_bits as nat);
            lemma_u64_shl_is_mul(1u64, num_bits as u64);
        }
        cap - value
    } else {
        (u64::MAX - value) + 1
    }
}

/// Law: taking the two's complement twice at the same width gives back the
/// original magnitude, for every width `n` in 1..=64 and every magnitude
/// below `pow2(n)`.
pub proof fn lemma_twos_complement_involution(m: nat, n: nat)
    requires
        1 <= n <= 64,
        m < pow2(n),
    ensures
        twos_complement_spec(twos_complement_spec(m, n), n) == m,
{
    lemma_pow2_pos(n);
}

} // verus!
