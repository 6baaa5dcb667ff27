//! Integer inspection engine: minimum and standard bit widths, two's-complement
//! encodings, grouped numeral strings, fixed-width binary rendering, and
//! radix-prefixed literal parsing, composed into a textual report.

pub mod ascii_info;
pub mod binary;
mod chars;
pub mod encoding;
pub mod numerals;
pub mod parse;
pub mod report;
pub mod spacing;
pub mod widths;

pub use ascii_info::ascii;
pub use binary::bin_string;
pub use binary::lemma_bin_string_len_formula;
pub use encoding::lemma_twos_complement_involution;
pub use encoding::twos_complement;
pub use parse::lemma_parse_round_trip;
pub use parse::parse_int;
pub use report::int_info;
pub use report::uint_info;
pub use spacing::add_spacers;
pub use spacing::lemma_spaced_no_leading_spacer;
pub use widths::min_bits;
pub use widths::std_bits;
