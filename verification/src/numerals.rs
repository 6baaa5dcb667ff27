//! Numeral strings: rendering unsigned integers in a radix, and the numeric
//! value of digit strings.

use vstd::prelude::*;

verus! {

use crate::chars::push_char;
use vstd::arithmetic::div_mod::lemma_div_decreases;
use vstd::arithmetic::div_mod::lemma_div_non_zero;
use vstd::arithmetic::div_mod::lemma_fundamental_div_mod;
use vstd::arithmetic::mul::lemma_mul_inequality;
use vstd::string::StringExecFns;

/// The digit character for a value below sixteen: decimal digits, then
/// upper-case letters.
pub open spec fn digit_char(d: nat) -> char
    recommends
        d < 16,
{
    if d == 0 {
        '0'
    } else if d == 1 {
        '1'
    } else if d == 2 {
        '2'
    } else if d == 3 {
        '3'
    } else if d == 4 {
        '4'
    } else if d == 5 {
        '5'
    } else if d == 6 {
        '6'
    } else if d == 7 {
        '7'
    } else if d == 8 {
        '8'
    } else if d == 9 {
        '9'
    } else if d == 10 {
        'A'
    } else if d == 11 {
        'B'
    } else if d == 12 {
        'C'
    } else if d == 13 {
        'D'
    } else if d == 14 {
        'E'
    } else {
        'F'
    }
}

/// The numeric value of a character read as a digit: `'0'`-`'9'` count from
/// zero, letters of either case count from ten; anything else is -1.
pub open spec fn digit_value(c: char) -> int {
    if '0' <= c && c <= '9' {
        c as int - '0' as int
    } else if 'a' <= c && c <= 'z' {
        c as int - 'a' as int + 10
    } else if 'A' <= c && c <= 'Z' {
        c as int - 'A' as int + 10
    } else {
        -1
    }
}

/// The digits of `v` in base `radix`, most significant first; zero is a
/// single zero digit.
pub open spec fn digits_seq(v: nat, radix: nat) -> Seq<char>
    recommends
        2 <= radix <= 16,
    decreases v,
    when 2 <= radix
{
    if v < radix {
        seq![digit_char(v)]
    } else {
        proof {
            lemma_div_decreases(v as int, radix as int);
        }
        digits_seq(v / radix, radix).push(digit_char(v % radix))
    }
}

/// The numeric value of a digit string in base `radix`, most significant
/// digit first.
pub open spec fn digits_value(s: Seq<char>, radix: nat) -> int
    decreases s.len(),
{
    if s.len() == 0 {
        0
    } else {
        digits_value(s.drop_last(), radix) * radix + digit_value(s.last())
    }
}

/// Every character of `s` is a digit of base `radix`.
pub open spec fn all_digits(s: Seq<char>, radix: nat) -> bool {
    forall|i: int| 0 <= i < s.len() ==> 0 <= digit_value(#[trigger] s[i]) < radix
}

/// Reading a digit character back gives the digit.
proof fn lemma_digit_char_value(d: nat)
    requires
        d < 16,
    ensures
        digit_value(digit_char(d)) == d,
{
}

/// A rendered numeral consists of digits of its base and never starts with a
/// zero digit unless it is the numeral for zero itself.
pub proof fn lemma_digits_seq_wf(v: nat, radix: nat)
    requires
        2 <= radix <= 16,
    ensures
        digits_seq(v, radix).len() >= 1,
        all_digits(digits_seq(v, radix), radix),
        v >= 1 ==> digit_value(digits_seq(v, radix)[0]) >= 1,
    decreases v,
{
    if v < radix {
        lemma_digit_char_value(v);
    } else {
        lemma_div_decreases(v as int, radix as int);
        lemma_digits_seq_wf(v / radix, radix);
        lemma_digit_char_value(v % radix);
        lemma_div_non_zero(v as int, radix as int);
    }
}

/// Rendering a number and reading the digits back returns the number.
pub proof fn lemma_digits_round_trip(v: nat, radix: nat)
    requires
        2 <= radix <= 16,
    ensures
        digits_value(digits_seq(v, radix), radix) == v,
    decreases v,
{
    if v < radix {
        lemma_digit_char_value(v);
        let s = seq![digit_char(v)];
        assert(digits_seq(v, radix) == s);
        assert(s.drop_last() =~= Seq::<char>::empty());
        assert(digits_value(s, radix) == digits_value(s.drop_last(), radix) * radix + digit_value(
            s.last(),
        ));
    } else {
        lemma_div_decreases(v as int, radix as int);
        lemma_digits_round_trip(v / radix, radix);
        lemma_digit_char_value(v % radix);
        let s = digits_seq(v, radix);
        assert(s.len() >= 1) by {
            lemma_digits_seq_wf(v, radix);
        }
        assert(s.drop_last() =~= digits_seq(v / radix, radix));
        assert(s.last() == digit_char((v % radix) as nat));
        lemma_fundamental_div_mod(v as int, radix as int);
        assert(digits_value(s, radix) == (v / radix) * radix + (v % radix));
    }
}

/// The value of a digit string is never negative.
pub proof fn lemma_digits_value_nonneg(s: Seq<char>, radix: nat)
    requires
        all_digits(s, radix),
    ensures
        digits_value(s, radix) >= 0,
    decreases s.len(),
{
    if s.len() > 0 {
        assert(all_digits(s.drop_last(), radix));
        lemma_digits_value_nonneg(s.drop_last(), radix);
        lemma_mul_inequality(0, digits_value(s.drop_last(), radix), radix as int);
    }
}

/// Dropping trailing digits can only lower the value of a digit string.
pub proof fn lemma_digits_value_prefix_le(s: Seq<char>, radix: nat, i: int)
    requires
        2 <= radix,
        all_digits(s, radix),
        0 <= i <= s.len(),
    ensures
        digits_value(s.subrange(0, i), radix) <= digits_value(s, radix),
    decreases s.len() - i,
{
    if i == s.len() {
        assert(s.subrange(0, i) =~= s);
    } else {
        lemma_digits_value_prefix_le(s, radix, i + 1);
        let p = s.subrange(0, i);
        let q = s.subrange(0, i + 1);
        assert(q.drop_last() =~= p);
        assert(q.last() == s[i]);
        assert(all_digits(p, radix));
        lemma_digits_value_nonneg(p, radix);
        lemma_mul_inequality(1, radix as int, digits_value(p, radix));
        assert(digits_value(p, radix) * 1 <= digits_value(p, radix) * radix) by {
            lemma_mul_inequality(1, radix as int, digits_value(p, radix));
        }
    }
}

/// Converts a digit value below sixteen into its character.
fn digit_to_char(d: u64) -> (c: char)
    requires
        d < 16,
    ensures
        c == digit_char(d as nat),
{
    match d {
        0 => '0',
        1 => '1',
        2 => '2',
        3 => '3',
        4 => '4',
        5 => '5',
        6 => '6',
        7 => '7',
        8 => '8',
        9 => '9',
        10 => 'A',
        11 => 'B',
        12 => 'C',
        13 => 'D',
        14 => 'E',
        _ => 'F',
    }
}

/// Reads a character as a digit of base `radix`, if it is one.
pub(crate) fn char_digit(c: char, radix: u64) -> (r: Option<u64>)
    requires
        2 <= radix <= 16,
    ensures
        match r {
            Some(d) => digit_value(c) == d as int && (d as nat) < radix,
            None => !(0 <= digit_value(c) < radix as int),
        },
{
    let u = c as u32;
    let d: u32 = if 48 <= u && u <= 57 {
        u - 48
    } else if 97 <= u && u <= 122 {
        u - 97 + 10
    } else if 65 <= u && u <= 90 {
        u - 65 + 10
    } else {
        return None;
    };
    if (d as u64) < radix {
        Some(d as u64)
    } else {
        None
    }
}

/// Renders `value` in base `radix` (between 2 and 16), most significant digit
/// first, with upper-case letters above nine and no sign, prefix or grouping.
pub fn radix_string(value: u64, radix: u64) -> (r: String)
    requires
        2 <= radix <= 16,
    ensures
        r@ == digits_seq(value as nat, radix as nat),
    decreases value,
{
    if value < radix {
        let mut s = String::new();
        push_char(&mut s, digit_to_char(value));
        proof {
            assert(s@ =~= seq![digit_char(value as nat)]);
        }
        s
    } else {
        proof {
            lemma_div_decreases(value as int, radix as int);
        }
        let mut s = radix_string(value / radix, radix);
        push_char(&mut s, digit_to_char(value % radix));
        s
    }
}

/// The decimal digits of `v`, most significant first, with a leading minus
/// sign when `v` is negative.
pub open spec fn signed_dec_seq(v: i64) -> Seq<char> {
    if v >= 0 {
        digits_seq(v as nat, 10)
    } else {
        seq!['-'] + digits_seq((-(v as int)) as nat, 10)
    }
}

/// Renders `v` in decimal with a minus sign when negative.
pub fn signed_dec_string(v: i64) -> (r: String)
    ensures
        r@ == signed_dec_seq(v),
{
    if v >= 0 {
        radix_string(v as u64, 10)
    } else {
        let mut s = String::new();
        push_char(&mut s, '-');
        let m: u64 = ((-(v + 1)) as u64) + 1;
        let digits = radix_string(m, 10);
        s.append(digits.as_str());
        proof {
            assert(s@ =~= seq!['-'] + digits_seq(m as nat, 10));
        }
        s
    }
}

} // verus!
