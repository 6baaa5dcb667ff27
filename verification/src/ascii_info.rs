//! Textual descriptions of ASCII codes.

use vstd::prelude::*;

verus! {

use crate::chars::push_char;

/// The fixed name of an unprintable or whitespace ASCII code: the control
/// codes 0 to 32, and 127.
pub open spec fn control_name(v: int) -> Seq<char>
    recommends
        0 <= v <= 32 || v == 127,
{
    if v == 0 {
        "[null]"@
    } else if v == 1 {
        "[start of heading]"@
    } else if v == 2 {
        "[start of text]"@
    } else if v == 3 {
        "[end of text]"@
    } else if v == 4 {
        "[end of transmission]"@
    } else if v == 5 {
        "[enquiry]"@
    } else if v == 6 {
        "[acknowledge]"@
    } else if v == 7 {
        "[bell]"@
    } else if v == 8 {
        "[backspace]"@
    } else if v == 9 {
        "[horizontal tab]"@
    } else if v == 10 {
        "[line feed]"@
    } else if v == 11 {
        "[vertical tab]"@
    } else if v == 12 {
        "[form feed]"@
    } else if v == 13 {
        "[carriage return]"@
    } else if v == 14 {
        "[shift out]"@
    } else if v == 15 {
        "[shift in]"@
    } else if v == 16 {
        "[data link escape]"@
    } else if v == 17 {
        "[device control 1]"@
    } else if v == 18 {
        "[device control 2]"@
    } else if v == 19 {
        "[device control 3]"@
    } else if v == 20 {
        "[device control 4]"@
    } else if v == 21 {
        "[negative acknowledge]"@
    } else if v == 22 {
        "[synchronous idle]"@
    } else if v == 23 {
        "[end of transmission block]"@
    } else if v == 24 {
        "[cancel]"@
    } else if v == 25 {
        "[end of medium]"@
    } else if v == 26 {
        "[substitute]"@
    } else if v == 27 {
        "[escape]"@
    } else if v == 28 {
        "[file separator]"@
    } else if v == 29 {
        "[group separator]"@
    } else if v == 30 {
        "[record separator]"@
    } else if v == 31 {
        "[unit separator]"@
    } else if v == 32 {
        "[space]"@
    } else {
        "[del]"@
    }
}

/// The textual form of an ASCII code: the character itself when printable,
/// the fixed name of an unprintable or whitespace code, and nothing at all
/// outside 0..=127.
pub open spec fn ascii_spec(v: int) -> Option<Seq<char>> {
    if v < 0 || v > 127 {
        None
    } else if 32 < v < 127 {
        Some(seq![v as char])
    } else {
        Some(control_name(v))
    }
}

/// If `value` is a valid ASCII code, returns a string representation: either
/// the character itself or a description if the character is in the
/// unprintable range.
pub fn ascii(value: i64) -> (r: Option<String>)
    ensures
        r.deep_view() == ascii_spec(value as int),
{
    if value < 0 || value > 127 {
        return None;
    }
    if value > 32 && value < 127 {
        let mut s = String::new();
        push_char(&mut s, (value as u8) as char);
        proof {
            assert(s@ =~= seq![value as char]);
        }
        return Some(s);
    }
    let name: &str = match value {
        0 => "[null]",
        1 => "[start of heading]",
        2 => "[start of text]",
        3 => "[end of text]",
        4 => "[end of transmission]",
        5 => "[enquiry]",
        6 => "[acknowledge]",
        7 => "[bell]",
        8 => "[backspace]",
        9 => "[horizontal tab]",
        10 => "[line feed]",
        11 => "[vertical tab]",
        12 => "[form feed]",
        13 => "[carriage return]",
        14 => "[shift out]",
        15 => "[shift in]",
        16 => "[data link escape]",
        17 => "[device control 1]",
        18 => "[device control 2]",
        19 => "[device control 3]",
        20 => "[device control 4]",
        21 => "[negative acknowledge]",
        22 => "[synchronous idle]",
        23 => "[end of transmission block]",
        24 => "[cancel]",
        25 => "[end of medium]",
        26 => "[substitute]",
        27 => "[escape]",
        28 => "[file separator]",
        29 => "[group separator]",
        30 => "[record separator]",
        31 => "[unit separator]",
        32 => "[space]",
        _ => "[del]",
    };
    Some(name.to_owned())
}

} // verus!
