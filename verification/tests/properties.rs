use intspector::add_spacers;
use intspector::ascii;
use intspector::bin_string;
use intspector::int_info;
use intspector::min_bits;
use intspector::parse_int;
use intspector::std_bits;
use intspector::twos_complement;
use intspector::uint_info;

#[test]
fn min_bits_extremes() {
    assert_eq!(min_bits(i64::MAX), 63);
    assert_eq!(min_bits(i64::MIN), 64);
    assert_eq!(min_bits(i64::MIN + 1), 64);
    let samples = [i64::MIN, -129, -1, 0, 1, 255, i64::MAX];
    for v in samples {
        let r = min_bits(v);
        assert!(r >= 1 && r <= 64);
    }
}

#[test]
fn std_bits_rounding() {
    assert_eq!(std_bits(0), 8);
    assert_eq!(std_bits(255), 8);
    assert_eq!(std_bits(256), 16);
    assert_eq!(std_bits(-128), 8);
    assert_eq!(std_bits(-129), 16);
    assert_eq!(std_bits(65535), 16);
    assert_eq!(std_bits(65536), 32);
    assert_eq!(std_bits(-32768), 16);
    assert_eq!(std_bits(-32769), 32);
    assert_eq!(std_bits(i64::MAX), 64);
    assert_eq!(std_bits(i64::MIN), 64);
}

#[test]
fn twos_complement_round_trip() {
    assert_eq!(twos_complement(twos_complement(5, 4), 4), 5);
    assert_eq!(twos_complement(twos_complement(1, 1), 1), 1);
    assert_eq!(twos_complement(twos_complement(200, 8), 8), 200);
    assert_eq!(twos_complement(twos_complement(0, 8), 8), 0);
    for m in 0..8u64 {
        assert_eq!(twos_complement(twos_complement(m, 3), 3), m);
    }
}

#[test]
fn add_spacers_grouping() {
    assert_eq!(add_spacers("1A2B", ' ', 2), "1A 2B");
    assert_eq!(add_spacers("123456", ',', 3), "123,456");
    assert_eq!(add_spacers("1", ',', 3), "1");
    assert_eq!(add_spacers("123", ' ', 2), "1 23");
    assert_eq!(add_spacers("1234", ' ', 2), "12 34");
    assert_eq!(add_spacers("12345", ',', 1), "1,2,3,4,5");
}

#[test]
fn add_spacers_no_leading_spacer() {
    let cases = ["1", "12", "123", "1234", "12345", "123456", "1234567"];
    for s in cases {
        for block in 1..5u32 {
            let spaced = add_spacers(s, ',', block);
            assert!(!spaced.starts_with(','));
        }
    }
}

#[test]
fn bin_string_length() {
    for n in 1..9u32 {
        let len = bin_string(0xAB, n).chars().count() as u32;
        assert_eq!(len, n + (n - 1) / 4 - (n - 1) / 8);
    }
    assert_eq!(bin_string(u64::MAX, 64).chars().count(), 79);
    assert_eq!(bin_string(u64::MAX, 64).chars().filter(|c| *c == '1').count(), 64);
}

#[test]
fn parse_int_decimal_round_trip() {
    let samples = [0i64, 1, 9, 10, 101, 4096, 1234567, i64::MAX];
    for v in samples {
        assert_eq!(parse_int(&v.to_string()), Some(v));
    }
}

#[test]
fn parse_int_failures() {
    assert_eq!(parse_int(""), None);
    assert_eq!(parse_int("zzz"), None);
    assert_eq!(parse_int("x"), None);
    assert_eq!(parse_int("12a"), None);
    assert_eq!(parse_int("b102"), None);
    assert_eq!(parse_int("o8"), None);
    assert_eq!(parse_int("9223372036854775808"), None);
    assert_eq!(parse_int("18446744073709551616"), None);
}

#[test]
fn parse_int_signs() {
    assert_eq!(parse_int("-5"), Some(-5));
    assert_eq!(parse_int("-101"), Some(-101));
    assert_eq!(parse_int("+7"), Some(7));
    assert_eq!(parse_int("-9223372036854775808"), Some(i64::MIN));
    assert_eq!(parse_int("-9223372036854775809"), None);
    assert_eq!(parse_int("9223372036854775807"), Some(i64::MAX));
}

#[test]
fn ascii_codes() {
    assert_eq!(ascii(65), Some(String::from("A")));
    assert_eq!(ascii(33), Some(String::from("!")));
    assert_eq!(ascii(126), Some(String::from("~")));
    assert_eq!(ascii(0), Some(String::from("[null]")));
    assert_eq!(ascii(9), Some(String::from("[horizontal tab]")));
    assert_eq!(ascii(32), Some(String::from("[space]")));
    assert_eq!(ascii(127), Some(String::from("[del]")));
    assert_eq!(ascii(128), None);
    assert_eq!(ascii(-1), None);
}

#[test]
fn uint_info_fields() {
    assert_eq!(uint_info(255, 8), "hex: FF\ndec: 255\noct: 377\nbin: 1111_1111");
    assert_eq!(
        uint_info(1234567, 24),
        "hex: 12 D6 87\ndec: 1,234,567\noct: 4553207\nbin: 0001_0010 1101_0110 1000_0111"
    );
}

#[test]
fn int_info_unsigned_report() {
    assert_eq!(
        int_info(255, None),
        "req: 8 bits (unsigned)\nhex: FF\ndec: 255\noct: 377\nbin: 1111_1111"
    );
}

#[test]
fn int_info_negative_default_width() {
    assert_eq!(
        int_info(-1, None),
        "req: 1 bit (signed), showing 8-bit two's complement\nhex: FF\ndec: 255\noct: 377\nbin: 1111_1111"
    );
}

#[test]
fn int_info_negative_explicit_width() {
    assert_eq!(
        int_info(-1, Some(3)),
        "req: 1 bit (signed), showing 3-bit two's complement\nhex: 7\ndec: 7\noct: 7\nbin: 111"
    );
}

#[test]
fn int_info_insufficient_width() {
    assert_eq!(int_info(300, Some(8)), "Error: 300 requires at least 9 bits.");
    assert_eq!(int_info(-129, Some(8)), "Error: -129 requires at least 9 bits.");
}

#[test]
fn int_info_unsupported_width() {
    assert_eq!(int_info(5, Some(0)), "Error: unsupported bit size.");
    assert_eq!(int_info(5, Some(65)), "Error: unsupported bit size.");
}

#[test]
fn int_info_ascii_note() {
    assert_eq!(
        int_info(65, None),
        "req: 7 bits (unsigned)\nhex: 41\ndec: 65\noct: 101\nbin: 100_0001\nasc: A"
    );
    assert_eq!(
        int_info(0, None),
        "req: 1 bit (unsigned)\nhex: 0\ndec: 0\noct: 0\nbin: 0\nasc: [null]"
    );
}
