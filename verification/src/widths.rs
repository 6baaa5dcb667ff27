//! Minimum and standard bit widths of signed 64-bit integers.

use vstd::prelude::*;

verus! {

use vstd::arithmetic::div_mod::lemma_div_decreases;
use vstd::arithmetic::power2::lemma2_to64;
use vstd::arithmetic::power2::lemma2_to64_rest;
use vstd::arithmetic::power2::lemma_pow2_strictly_increases;
use vstd::arithmetic::power2::lemma_pow2_unfold;
use vstd::arithmetic::power2::pow2;

/// Number of digits in the binary representation of `v`; zero needs none.
pub open spec fn unsigned_bits(v: nat) -> nat
    decreases v,
{
    if v == 0 {
        0
    } else {
        proof {
            lemma_div_decreases(v as int, 2);
        }
        1 + unsigned_bits(v / 2)
    }
}

/// The minimum number of bits that can represent `v`: as an unsigned binary
/// number when `v >= 0`, or as a two's-complement number, sign bit included,
/// when `v < 0`.
pub open spec fn min_bits_spec(v: i64) -> nat {
    if v == 0 {
        1
    } else if v > 0 {
        unsigned_bits(v as nat)
    } else {
        1 + unsigned_bits((-(v as int) - 1) as nat)
    }
}

/// The smallest of the standard widths 8, 16, 32, 64 that holds `v`.
pub open spec fn std_bits_spec(v: i64) -> nat {
    let m = min_bits_spec(v);
    if m <= 8 {
        8
    } else if m <= 16 {
        16
    } else if m <= 32 {
        32
    } else {
        64
    }
}

/// A positive number lies between the two powers of two that its bit count names.
pub proof fn lemma_unsigned_bits_bounds(v: nat)
    requires
        v > 0,
    ensures
        pow2((unsigned_bits(v) - 1) as nat) <= v < pow2(unsigned_bits(v)),
    decreases v,
{
    lemma2_to64();
    if v == 1 {
        assert(unsigned_bits(0nat) == 0);
        assert(unsigned_bits(1nat) == 1);
    } else {
        lemma_unsigned_bits_bounds(v / 2);
        assert(unsigned_bits(v) == 1 + unsigned_bits(v / 2));
        lemma_pow2_unfold(unsigned_bits(v));
        lemma_pow2_unfold((unsigned_bits(v) - 1) as nat);
        assert(v == 2 * (v / 2) + v % 2);
    }
}

/// A number below `pow2(k)` has at most `k` binary digits.
pub proof fn lemma_unsigned_bits_le(v: nat, k: nat)
    requires
        v < pow2(k),
    ensures
        unsigned_bits(v) <= k,
{
    if v > 0 {
        lemma_unsigned_bits_bounds(v);
        if unsigned_bits(v) > k {
            lemma_pow2_strictly_increases(k, (unsigned_bits(v) - 1) as nat);
            if k < unsigned_bits(v) - 1 {
            } else {
                assert(k == unsigned_bits(v) - 1);
            }
        }
    }
}

/// Counts the binary digits of `u`.
fn bit_len(u: u64) -> (r: u32)
    ensures
        r == unsigned_bits(u as nat),
        r <= 64,
{
    proof {
        lemma2_to64();
        assert((u as nat) < pow2(64));
        lemma_unsigned_bits_le(u as nat, 64);
    }
    let mut x = u;
    let mut n: u32 = 0;
    while x > 0
        invariant
            unsigned_bits(u as nat) == n + unsigned_bits(x as nat),
            n <= unsigned_bits(u as nat) <= 64,
        decreases x,
    {
        x = x / 2;
        n = n + 1;
    }
    n
}

/// Returns the minimum number of bits required to represent the integer. For
/// non-negative input, gives the number of unsigned bits. For negative input,
/// gives the number of two's-complement bits, sign bit included.
pub fn min_bits(value: i64) -> (r: u32)
    ensures
        r == min_bits_spec(value),
        1 <= r <= 64,
        value > 0 ==> pow2((r - 1) as nat) <= value as nat && (value as nat) < pow2(r as nat),
        value < 0 ==> -(pow2((r - 1) as nat) as int) <= value as int,
        value < 0 && r >= 2 ==> (value as int) < -(pow2((r - 2) as nat) as int),
{
    proof {
        lemma2_to64();
        lemma2_to64_rest();
    }
    if value == 0 {
        1
    } else if value > 0 {
        let r = bit_len(value as u64);
        proof {
            lemma_unsigned_bits_bounds(value as nat);
            lemma_unsigned_bits_le(value as nat, 63);
        }
        r
    } else {
        let m1: i64 = -(value + 1);
        let b = bit_len(m1 as u64);
        proof {
            lemma_unsigned_bits_le(m1 as nat, 63);
            if m1 > 0 {
                lemma_unsigned_bits_bounds(m1 as nat);
            }
        }
        b + 1
    }
}

/// Returns the output of `min_bits` rounded up to a standard integer size:
/// 8, 16, 32 or 64 bits. The result is the smallest of the four that is at
/// least `min_bits(value)`.
pub fn std_bits(value: i64) -> (r: u32)
    ensures
        r == std_bits_spec(value),
        r == 8 || r == 16 || r == 32 || r == 64,
        min_bits_spec(value) <= r,
        r == 16 ==> min_bits_spec(value) > 8,
        r == 32 ==> min_bits_spec(value) > 16,
        r == 64 ==> min_bits_spec(value) > 32,
{
    let m = min_bits(value);
    if m <= 8 {
        8
    } else if m <= 16 {
        16
    } else if m <= 32 {
        32
    } else {
        64
    }
}

} // verus!
