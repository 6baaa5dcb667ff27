//! Fixed-width binary rendering with nibble and byte grouping.

use vstd::prelude::*;

verus! {

use crate::chars::push_char;
use vstd::arithmetic::div_mod::lemma_fundamental_div_mod;
use vstd::arithmetic::div_mod::lemma_mod_mod;
use vstd::arithmetic::power2::pow2;
use vstd::bits::lemma_u64_shr_is_div;

/// The character for bit `i` of `v`: `'1'` or `'0'`.
pub open spec fn bit_char(v: u64, i: nat) -> char {
    if ((v as nat) / pow2(i)) % 2 == 1 {
        '1'
    } else {
        '0'
    }
}

/// The separator that follows the digit of bit `n - 1` in a rendering that is
/// `n` bits wide: an underscore after every fourth bit and a space after
/// every eighth, counted from the least significant end, and nothing after
/// the digit at the very front.
pub open spec fn bit_separator(n: nat) -> Seq<char> {
    if n >= 2 && (n - 2) % 8 == 3 {
        seq!['_']
    } else if n >= 2 && (n - 2) % 8 == 7 {
        seq![' ']
    } else {
        seq![]
    }
}

/// The low `n` bits of `v` as binary digit characters, most significant
/// first, with the separators of `bit_separator` between them.
pub open spec fn bin_string_spec(v: u64, n: nat) -> Seq<char>
    decreases n,
{
    if n == 0 {
        seq![]
    } else {
        seq![bit_char(v, (n - 1) as nat)] + bit_separator(n) + bin_string_spec(v, (n - 1) as nat)
    }
}

/// Reads bit `i` of `v`.
fn bit_of(v: u64, i: u32) -> (b: bool)
    requires
        i < 64,
    ensures
        b == (bit_char(v, i as nat) == '1'),
{
    proof {
        lemma_u64_shr_is_div(v, i as u64);
        assert(((v >> (i as u64)) & 1) == (v >> (i as u64)) % 2) by (bit_vector);
    }
    ((v >> (i as u64)) & 1) == 1
}

/// Converts an integer into a binary string showing the given number of
/// low-order bits, most significant first, an underscore after every fourth
/// bit and a space after every eighth, counted from the least significant
/// end, with no separator in front of the whole string.
pub fn bin_string(value: u64, num_bits: u32) -> (r: String)
    requires
        num_bits <= 64,
    ensures
        r@ == bin_string_spec(value, num_bits as nat),
{
    let mut s = String::new();
    let mut k = num_bits;
    proof {
        assert(s@ + bin_string_spec(value, num_bits as nat) =~= bin_string_spec(
            value,
            num_bits as nat,
        ));
    }
    while k > 0
        invariant
            k <= num_bits <= 64,
            s@ + bin_string_spec(value, k as nat) == bin_string_spec(value, num_bits as nat),
        decreases k,
    {
        let ghost s_old = s@;
        if bit_of(value, k - 1) {
            push_char(&mut s, '1');
        } else {
            push_char(&mut s, '0');
        }
        if k >= 2 {
            if (k - 2) % 8 == 3 {
                push_char(&mut s, '_');
            } else if (k - 2) % 8 == 7 {
                push_char(&mut s, ' ');
            }
        }
        proof {
            assert(s@ =~= s_old + seq![bit_char(value, (k - 1) as nat)] + bit_separator(k as nat));
            assert(s@ + bin_string_spec(value, (k - 1) as nat) =~= s_old + bin_string_spec(
                value,
                k as nat,
            ));
        }
        k = k - 1;
    }
    proof {
        assert(s@ + bin_string_spec(value, 0) =~= s@);
    }
    s
}

/// The length of an `n`-bit rendering, for any positive `n`: the digits plus
/// one separator for every full group of four bits before the front digit.
proof fn lemma_bin_string_spec_len(v: u64, n: nat)
    requires
        n >= 1,
    ensures
        bin_string_spec(v, n).len() == n + (n - 1) as nat / 4,
    decreases n,
{
    if n == 1 {
        assert(bin_string_spec(v, 0) == Seq::<char>::empty());
    } else {
        lemma_bin_string_spec_len(v, (n - 1) as nat);
        lemma_fundamental_div_mod((n - 1) as int, 4);
        lemma_fundamental_div_mod((n - 2) as int, 4);
        lemma_fundamental_div_mod((n - 2) as int, 8);
        lemma_mod_mod((n - 2) as int, 4, 2);
    }
}

/// Law: for widths of one to eight bits the rendered string has exactly
/// `n + (n - 1) / 4 - (n - 1) / 8` characters. (From nine bits up the byte
/// separators make the string longer than this formula says.)
pub proof fn lemma_bin_string_len_formula(v: u64, n: nat)
    requires
        1 <= n <= 8,
    ensures
        bin_string_spec(v, n).len() == n + (n - 1) as nat / 4 - (n - 1) as nat / 8,
{
    lemma_bin_string_spec_len(v, n);
}

} // verus!
