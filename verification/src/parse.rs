//! Parsing textual integer literals with an optional radix prefix.

use vstd::prelude::*;

verus! {

use crate::numerals::all_digits;
use crate::numerals::char_digit;
use crate::numerals::digit_value;
use crate::numerals::digits_seq;
use crate::numerals::digits_value;
use crate::numerals::lemma_digits_round_trip;
use crate::numerals::lemma_digits_seq_wf;
use crate::numerals::lemma_digits_value_nonneg;
use crate::numerals::lemma_digits_value_prefix_le;
use vstd::string::StrSliceExecFns;

/// `s` with every leading `'0'` removed.
pub open spec fn strip_zeros(s: Seq<char>) -> Seq<char>
    decreases s.len(),
{
    if s.len() > 0 && s[0] == '0' {
        strip_zeros(s.drop_first())
    } else {
        s
    }
}

/// The radix selected by one optional single-letter prefix of `s`, with the
/// rest of the string: `b` is binary, `o` octal, `d` decimal, `x`
/// hexadecimal, and no prefix means decimal.
pub open spec fn split_radix(s: Seq<char>) -> (nat, Seq<char>)
    recommends
        s.len() > 0,
{
    if s[0] == 'b' {
        (2nat, s.drop_first())
    } else if s[0] == 'o' {
        (8nat, s.drop_first())
    } else if s[0] == 'd' {
        (10nat, s.drop_first())
    } else if s[0] == 'x' {
        (16nat, s.drop_first())
    } else {
        (10nat, s)
    }
}

/// What parsing `s` as a signed 64-bit number in base `radix` yields: one
/// optional sign, then at least one digit of the base, with the value in the
/// signed 64-bit range; anything else is no value.
pub open spec fn str_radix_value(s: Seq<char>, radix: nat) -> Option<i64> {
    if s.len() == 0 {
        None
    } else {
        let neg = s[0] == '-';
        let ds = if s[0] == '-' || s[0] == '+' {
            s.drop_first()
        } else {
            s
        };
        if ds.len() == 0 || !all_digits(ds, radix) {
            None
        } else {
            let m = digits_value(ds, radix);
            if neg {
                if m <= 0x8000_0000_0000_0000 {
                    Some((-m) as i64)
                } else {
                    None
                }
            } else {
                if m <= 0x7fff_ffff_ffff_ffff {
                    Some(m as i64)
                } else {
                    None
                }
            }
        }
    }
}

/// What `parse_int` yields on `s`: nothing for the empty string; zero for a
/// string of zeros; otherwise the signed value of what is left after
/// stripping the leading zeros and then one optional radix letter.
pub open spec fn parse_int_spec(s: Seq<char>) -> Option<i64> {
    if s.len() == 0 {
        None
    } else {
        let t = strip_zeros(s);
        if t.len() == 0 {
            Some(0)
        } else {
            str_radix_value(split_radix(t).1, split_radix(t).0)
        }
    }
}

/// A scanned all-zero prefix matches the recursive strip.
proof fn lemma_strip_zeros_at(s: Seq<char>, i: int)
    requires
        0 <= i <= s.len(),
        forall|j: int| 0 <= j < i ==> s[j] == '0',
        i == s.len() || s[i] != '0',
    ensures
        strip_zeros(s) == s.skip(i),
    decreases i,
{
    if i == 0 {
        assert(s.skip(0) =~= s);
    } else {
        assert(s[0] == '0');
        lemma_strip_zeros_at(s.drop_first(), i - 1);
        assert(s.drop_first().skip(i - 1) =~= s.skip(i));
    }
}

/// Attempts to parse the string as a binary, octal, decimal or hex integer.
/// Leading zeros are stripped first; a string of zeros alone is zero. One
/// radix letter `b`, `o`, `d` or `x` may follow the stripped zeros; the rest
/// must be, after an optional sign, digits of the base, with the value in the
/// signed 64-bit range.
#[verifier::loop_isolation(false)]
#[verifier::rlimit(60)]
pub fn parse_int(arg: &str) -> (r: Option<i64>)
    ensures
        r == parse_int_spec(arg@),
{
    let n = arg.unicode_len();
    if n == 0 {
        return None;
    }
    let mut k: usize = 0;
    while k < n && arg.get_char(k) == '0'
        invariant
            n == arg@.len(),
            0 <= k <= n,
            forall|j: int| 0 <= j < k ==> arg@[j] == '0',
        decreases n - k,
    {
        k = k + 1;
    }
    proof {
        lemma_strip_zeros_at(arg@, k as int);
    }
    if k == n {
        return Some(0);
    }
    let ghost t = strip_zeros(arg@);
    let c = arg.get_char(k);
    let (radix, ds_start): (u64, usize) = if c == 'b' {
        (2, k + 1)
    } else if c == 'o' {
        (8, k + 1)
    } else if c == 'd' {
        (10, k + 1)
    } else if c == 'x' {
        (16, k + 1)
    } else {
        (10, k)
    };
    let ghost ds = split_radix(t).1;
    proof {
        assert(t[0] == arg@[k as int]);
        assert(split_radix(t).0 == radix as nat);
        assert(t.drop_first() =~= arg@.skip(k as int + 1));
        assert(ds =~= arg@.skip(ds_start as int));
    }
    if ds_start == n {
        return None;
    }
    let c2 = arg.get_char(ds_start);
    let neg = c2 == '-';
    let digs_start: usize = if c2 == '-' || c2 == '+' {
        ds_start + 1
    } else {
        ds_start
    };
    let ghost digs = arg@.skip(digs_start as int);
    proof {
        assert(ds[0] == arg@[ds_start as int]);
        if c2 == '-' || c2 == '+' {
            assert(ds.drop_first() =~= digs);
        }
    }
    if digs_start == n {
        return None;
    }
    let bound: u128 = if neg {
        0x8000_0000_0000_0000u128
    } else {
        0x7fff_ffff_ffff_ffffu128
    };
    let mut acc: u128 = 0;
    let mut j = digs_start;
    proof {
        assert(arg@.subrange(digs_start as int, digs_start as int) =~= Seq::<char>::empty());
    }
    while j < n
        invariant
            n == arg@.len(),
            digs_start <= j <= n,
            digs_start < n,
            2 <= radix <= 16,
            digs == arg@.skip(digs_start as int),
            bound == if neg {
                0x8000_0000_0000_0000u128
            } else {
                0x7fff_ffff_ffff_ffffu128
            },
            acc == digits_value(
                arg@.subrange(digs_start as int, j as int),
                radix as nat,
            ),
            all_digits(arg@.subrange(digs_start as int, j as int), radix as nat),
            acc <= bound,
        decreases n - j,
    {
        let cd = arg.get_char(j);
        let ghost pre = arg@.subrange(digs_start as int, j as int);
        let ghost pre1 = arg@.subrange(digs_start as int, j as int + 1);
        match char_digit(cd, radix) {
            None => {
                proof {
                    assert(digs[j - digs_start as int] == cd);
                    assert(!all_digits(digs, radix as nat));
                }
                return None;
            },
            Some(d) => {
                proof {
                    assert(acc * radix <= 0x8000_0000_0000_0000u128 * 16) by (nonlinear_arith)
                        requires
                            acc <= 0x8000_0000_0000_0000u128,
                            0 <= radix <= 16,
                    ;
                }
                acc = acc * (radix as u128) + (d as u128);
                proof {
                    assert(pre1.drop_last() =~= pre);
                    assert(pre1.last() == cd);
                    assert(all_digits(pre1, radix as nat));
                }
                if acc > bound {
                    proof {
                        if all_digits(digs, radix as nat) {
                            lemma_digits_value_prefix_le(
                                digs,
                                radix as nat,
                                j + 1 - digs_start as int,
                            );
                            assert(digs.subrange(0, j + 1 - digs_start as int) =~= pre1);
                        }
                    }
                    return None;
                }
            },
        }
        j = j + 1;
    }
    proof {
        assert(digs =~= arg@.subrange(digs_start as int, n as int));
        lemma_digits_value_nonneg(digs, radix as nat);
    }
    if neg {
        let v: i128 = -(acc as i128);
        Some(v as i64)
    } else {
        Some(acc as i64)
    }
}

/// Law: rendering a non-negative value in plain decimal and parsing it back
/// gives the value itself.
pub proof fn lemma_parse_round_trip(v: i64)
    requires
        v >= 0,
    ensures
        parse_int_spec(digits_seq(v as nat, 10)) == Some(v),
{
    let s = digits_seq(v as nat, 10);
    lemma_digits_seq_wf(v as nat, 10);
    lemma_digits_round_trip(v as nat, 10);
    if v == 0 {
        assert(s == seq![crate::numerals::digit_char(0)]);
        assert(s[0] == '0');
        assert(s.drop_first() =~= Seq::<char>::empty());
        assert(strip_zeros(s) == strip_zeros(s.drop_first()));
        assert(strip_zeros(s.drop_first()) == s.drop_first());
    } else {
        assert(digit_value(s[0]) >= 1);
        assert(s[0] != '0');
        assert(strip_zeros(s) == s);
        assert(0 <= digit_value(s[0]) < 10);
        assert(s[0] != 'b' && s[0] != 'o' && s[0] != 'd' && s[0] != 'x');
        assert(split_radix(s) == (10nat, s));
        assert(s[0] != '-' && s[0] != '+');
        assert(digits_value(s, 10) == v);
    }
}

} // verus!
