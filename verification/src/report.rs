//! Composition of the report text for one inspected integer.

use vstd::prelude::*;

verus! {

use crate::ascii_info::ascii;
use crate::ascii_info::ascii_spec;
use crate::binary::bin_string;
use crate::binary::bin_string_spec;
use crate::encoding::twos_complement;
use crate::encoding::twos_complement_spec;
use crate::numerals::digits_seq;
use crate::numerals::lemma_digits_seq_wf;
use crate::numerals::radix_string;
use crate::numerals::signed_dec_seq;
use crate::numerals::signed_dec_string;
use crate::spacing::add_spacers;
use crate::spacing::spaced;
use crate::widths::min_bits;
use crate::widths::min_bits_spec;
use crate::widths::std_bits;
use crate::widths::std_bits_spec;
use vstd::arithmetic::power2::lemma_pow2_strictly_increases;
use vstd::string::StringExecFns;

/// The four labeled base renderings of an unsigned encoding: hex digits in
/// space-separated pairs, decimal digits in comma-separated triples, octal
/// digits plain, and binary at the given width.
pub open spec fn uint_info_spec(value: u64, num_bits: nat) -> Seq<char> {
    "hex: "@ + spaced(digits_seq(value as nat, 16), ' ', 2) + "\ndec: "@ + spaced(
        digits_seq(value as nat, 10),
        ',',
        3,
    ) + "\noct: "@ + digits_seq(value as nat, 8) + "\nbin: "@ + bin_string_spec(value, num_bits)
}

/// The first line of a report: the minimum bits the value needs, and, for a
/// negative value, the width of the two's complement shown.
pub open spec fn req_line_spec(value: i64, min: nat, eff: nat) -> Seq<char> {
    let plural: Seq<char> = if min == 1 {
        Seq::<char>::empty()
    } else {
        "s"@
    };
    if value >= 0 {
        "req: "@ + digits_seq(min, 10) + " bit"@ + plural + " (unsigned)\n"@
    } else {
        "req: "@ + digits_seq(min, 10) + " bit"@ + plural + " (signed), showing "@ + digits_seq(
            eff,
            10,
        ) + "-bit two's complement\n"@
    }
}

/// The trailing ASCII note of a report: present only when the value is an
/// ASCII code.
pub open spec fn ascii_note_spec(value: i64) -> Seq<char> {
    match ascii_spec(value as int) {
        Some(s) => "\nasc: "@ + s,
        None => Seq::<char>::empty(),
    }
}

/// The effective width of a report: the user's choice when one was given,
/// otherwise the minimum width for non-negative values and the standard
/// width for negative ones.
pub open spec fn effective_bits_spec(value: i64, user_bits: Option<u32>) -> nat {
    match user_bits {
        Some(b) => b as nat,
        None => if value >= 0 {
            min_bits_spec(value)
        } else {
            std_bits_spec(value)
        },
    }
}

/// The unsigned encoding a report shows: the value itself when non-negative,
/// the two's complement of its magnitude at width `eff` when negative.
pub open spec fn display_value_spec(value: i64, eff: nat) -> u64 {
    if value >= 0 {
        value as u64
    } else {
        twos_complement_spec((-(value as int)) as nat, eff) as u64
    }
}

/// The whole report for one value: an error line when the effective width is
/// zero, beyond 64, or too small for the value; otherwise the required-bits
/// line, the four base renderings of the encoding at that width, and an
/// ASCII note when the value has one.
pub open spec fn int_info_spec(value: i64, user_bits: Option<u32>) -> Seq<char> {
    let min = min_bits_spec(value);
    let eff = effective_bits_spec(value, user_bits);
    if eff == 0 || eff > 64 {
        "Error: unsupported bit size."@
    } else if eff < min {
        "Error: "@ + signed_dec_seq(value) + " requires at least "@ + digits_seq(min, 10)
            + " bits."@
    } else {
        req_line_spec(value, min, eff) + uint_info_spec(display_value_spec(value, eff), eff)
            + ascii_note_spec(value)
    }
}

/// Renders the hex, decimal, octal and binary lines for an unsigned
/// encoding shown at the given width.
pub fn uint_info(value: u64, num_bits: u32) -> (r: String)
    requires
        num_bits <= 64,
    ensures
        r@ == uint_info_spec(value, num_bits as nat),
{
    proof {
        lemma_digits_seq_wf(value as nat, 16);
        lemma_digits_seq_wf(value as nat, 10);
    }
    let mut out = "hex: ".to_owned();
    let hex = radix_string(value, 16);
    let hex_grouped = add_spacers(hex.as_str(), ' ', 2);
    out.append(hex_grouped.as_str());
    out.append("\ndec: ");
    let dec = radix_string(value, 10);
    let dec_grouped = add_spacers(dec.as_str(), ',', 3);
    out.append(dec_grouped.as_str());
    out.append("\noct: ");
    let oct = radix_string(value, 8);
    out.append(oct.as_str());
    out.append("\nbin: ");
    let bin = bin_string(value, num_bits);
    out.append(bin.as_str());
    proof {
        assert(out@ =~= uint_info_spec(value, num_bits as nat));
    }
    out
}

/// Renders the report for `value`, at the user's width when one is given:
/// the required-bits line, the four base renderings of the (two's-complement
/// encoded, when negative) value, and an ASCII note when the value has one;
/// or an error line when the width is zero, beyond 64, or too small.
pub fn int_info(value: i64, user_bits: Option<u32>) -> (r: String)
    ensures
        r@ == int_info_spec(value, user_bits),
{
    let min = min_bits(value);
    let std = std_bits(value);
    let num_bits: u32 = match user_bits {
        Some(b) => b,
        None => if value >= 0 {
            min
        } else {
            std
        },
    };
    if num_bits == 0 || num_bits > 64 {
        return "Error: unsupported bit size.".to_owned();
    }
    if num_bits < min {
        let mut e = "Error: ".to_owned();
        let dec = signed_dec_string(value);
        e.append(dec.as_str());
        e.append(" requires at least ");
        let min_dec = radix_string(min as u64, 10);
        e.append(min_dec.as_str());
        e.append(" bits.");
        proof {
            assert(e@ =~= int_info_spec(value, user_bits));
        }
        return e;
    }
    let disp: u64 = if value >= 0 {
        value as u64
    } else {
        let m: u64 = ((-(value + 1)) as u64) + 1;
        proof {
            if min < num_bits {
                lemma_pow2_strictly_increases((min - 1) as nat, num_bits as nat);
            } else {
                lemma_pow2_strictly_increases((min - 1) as nat, min as nat);
            }
        }
        twos_complement(m, num_bits)
    };
    let mut out = "req: ".to_owned();
    let min_dec = radix_string(min as u64, 10);
    out.append(min_dec.as_str());
    out.append(" bit");
    if min != 1 {
        out.append("s");
    }
    if value >= 0 {
        out.append(" (unsigned)\n");
    } else {
        out.append(" (signed), showing ");
        let eff_dec = radix_string(num_bits as u64, 10);
        out.append(eff_dec.as_str());
        out.append("-bit two's complement\n");
    }
    proof {
        assert(out@ =~= req_line_spec(value, min as nat, num_bits as nat));
    }
    let fields = uint_info(disp, num_bits);
    out.append(fields.as_str());
    match ascii(value) {
        Some(a) => {
            out.append("\nasc: ");
            out.append(a.as_str());
        },
        None => {},
    }
    proof {
        assert(out@ =~= int_info_spec(value, user_bits));
    }
    out
}

} // verus!
