//! Numbers as bits, held against the machine's own doubles.

use glass::lexer::valid_number;
use glass::number::Number;

fn number(value: f64) -> Number {
    Number { bits: value.to_bits() }
}

#[test]
fn exact_is_the_double_of_a_small_whole_number() {
    for n in 0u64..=2000 {
        assert_eq!(Number::exact(n).bits, (n as f64).to_bits());
    }
    for k in 1u32..53 {
        let power: u64 = 1u64 << k;
        assert_eq!(Number::exact(power).bits, (power as f64).to_bits());
        assert_eq!(Number::exact(power - 1).bits, ((power - 1) as f64).to_bits());
        assert_eq!(Number::exact(power + 1).bits, ((power + 1) as f64).to_bits());
    }
    let last: u64 = (1u64 << 53) - 1;
    assert_eq!(Number::exact(last).bits, (last as f64).to_bits());
}

#[test]
fn exact_values() {
    assert_eq!(Number::exact(0).bits, 0);
    assert_eq!(Number::exact(1).bits, 0x3ff0_0000_0000_0000);
    assert_eq!(Number::exact(2).bits, 0x4000_0000_0000_0000);
    assert_eq!(Number::exact(3).bits, 0x4008_0000_0000_0000);
    assert_eq!(Number::exact(255).bits, 0x406f_e000_0000_0000);
}

#[test]
fn from_byte_is_the_double_of_the_byte() {
    for byte in 0u8..=255 {
        assert_eq!(Number::from_byte(byte).bits, (byte as f64).to_bits());
    }
}

#[test]
fn from_flag_is_one_or_zero() {
    assert_eq!(Number::from_flag(true).bits, 1.0f64.to_bits());
    assert_eq!(Number::from_flag(false).bits, 0.0f64.to_bits());
}

#[test]
fn from_len_is_exact_below_two_to_the_53() {
    for n in [0usize, 1, 2, 255, 256, 65535, 1 << 32, (1 << 53) - 1] {
        assert_eq!(Number::from_len(n).bits, (n as f64).to_bits());
    }
}

#[test]
fn from_len_rounds_to_the_nearest_double() {
    let base: usize = 1 << 53;
    // The doubles around 2^53 are two apart: odd lengths lie half way.
    assert_eq!(Number::from_len(base).bits, 9007199254740992.0f64.to_bits());
    assert_eq!(Number::from_len(base + 1).bits, 9007199254740992.0f64.to_bits());
    assert_eq!(Number::from_len(base + 2).bits, 9007199254740994.0f64.to_bits());
    assert_eq!(Number::from_len(base + 3).bits, 9007199254740996.0f64.to_bits());
    assert_eq!(Number::from_len(usize::MAX).bits, 18446744073709551616.0f64.to_bits());
    let mut n: usize = base;
    for step in 0usize..4000 {
        assert_eq!(Number::from_len(n).bits, (n as f64).to_bits());
        n = n.wrapping_mul(6364136223846793005).wrapping_add(1442695040888963407 + step) | base;
    }
    for shift in 53u32..64 {
        let power: usize = 1 << shift;
        for offset in 0usize..70 {
            assert_eq!(Number::from_len(power + offset).bits, ((power + offset) as f64).to_bits());
            assert_eq!(Number::from_len(power - offset).bits, ((power - offset) as f64).to_bits());
            let half: usize = (power >> 53) * offset;
            assert_eq!(Number::from_len(power + half).bits, ((power + half) as f64).to_bits());
        }
    }
    for offset in 0usize..5000 {
        assert_eq!(
            Number::from_len(usize::MAX - offset).bits,
            ((usize::MAX - offset) as f64).to_bits()
        );
    }
}

#[test]
fn only_the_zeros_are_zero() {
    assert!(!number(0.0).is_nonzero());
    assert!(!number(-0.0).is_nonzero());
    assert!(number(1.0).is_nonzero());
    assert!(number(-1.0).is_nonzero());
    assert!(number(f64::NAN).is_nonzero());
    assert!(number(f64::INFINITY).is_nonzero());
    assert!(number(5e-324).is_nonzero());
    assert!(number(f64::MIN_POSITIVE).is_nonzero());
}

fn index_of_double(value: f64, len: usize, inclusive: bool) -> Option<usize> {
    if value != value.floor() || value < 0.0 {
        return None;
    }
    let index = value as usize;
    if index < len || (inclusive && index == len && value <= len as f64) {
        Some(index)
    } else {
        None
    }
}

#[test]
fn to_index_takes_whole_numbers_in_range() {
    assert_eq!(number(0.0).to_index(1, false), Some(0));
    assert_eq!(number(-0.0).to_index(1, false), Some(0));
    assert_eq!(number(0.0).to_index(0, false), None);
    assert_eq!(number(0.0).to_index(0, true), Some(0));
    assert_eq!(number(4.0).to_index(5, false), Some(4));
    assert_eq!(number(5.0).to_index(5, false), None);
    assert_eq!(number(5.0).to_index(5, true), Some(5));
    assert_eq!(number(6.0).to_index(5, true), None);
    assert_eq!(number(2.5).to_index(5, false), None);
    assert_eq!(number(0.5).to_index(5, false), None);
    assert_eq!(number(-1.0).to_index(5, false), None);
    assert_eq!(number(f64::NAN).to_index(5, false), None);
    assert_eq!(number(f64::INFINITY).to_index(usize::MAX, true), None);
    assert_eq!(number(f64::NEG_INFINITY).to_index(5, false), None);
    assert_eq!(number(1e300).to_index(usize::MAX, true), None);
    assert_eq!(number(5e-324).to_index(5, false), None);
    assert_eq!(number(9007199254740992.0).to_index(usize::MAX, false), Some(1 << 53));
    assert_eq!(number(9223372036854775808.0).to_index(usize::MAX, false), Some(1 << 63));
    assert_eq!(number(18446744073709551616.0).to_index(usize::MAX, true), None);
    assert_eq!(number(18446744073709549568.0).to_index(usize::MAX, false), Some(18446744073709549568));
}

#[test]
fn to_index_agrees_with_the_doubles() {
    let values = [
        0.0, -0.0, 1.0, 2.0, 3.0, 7.0, 8.0, 9.0, 1.5, 0.25, -3.0, 100.0, 255.0, 256.0, 1e10, 1e15, 1e16, 1e19,
        1e20, 4503599627370496.0, 4503599627370497.0, 4503599627370495.5, 0.9999999999999999,
        1.0000000000000002, 123456789.0, 123456789.5,
    ];
    let lens = [0usize, 1, 2, 8, 9, 256, 1 << 20, usize::MAX];
    for value in values {
        for len in lens {
            assert_eq!(number(value).to_index(len, false), index_of_double(value, len, false));
            assert_eq!(number(value).to_index(len, true), index_of_double(value, len, true));
        }
    }
}

#[test]
fn to_byte_takes_whole_numbers_up_to_255() {
    for byte in 0u8..=255 {
        assert_eq!(number(byte as f64).to_byte(), Some(byte));
    }
    assert_eq!(number(-0.0).to_byte(), Some(0));
    assert_eq!(number(256.0).to_byte(), None);
    assert_eq!(number(-1.0).to_byte(), None);
    assert_eq!(number(65.5).to_byte(), None);
    assert_eq!(number(f64::NAN).to_byte(), None);
    assert_eq!(number(f64::INFINITY).to_byte(), None);
    assert_eq!(number(1e-10).to_byte(), None);
}

#[test]
fn magnitude_up_to_tells_whole_numbers() {
    assert_eq!(number(10.0).magnitude_up_to(10), Some(10));
    assert_eq!(number(-10.0).magnitude_up_to(10), Some(10));
    assert_eq!(number(11.0).magnitude_up_to(10), None);
    assert_eq!(number(10.5).magnitude_up_to(100), None);
    assert_eq!(number(18446744073709549568.0).magnitude_up_to(u64::MAX), Some(18446744073709549568));
    assert_eq!(number(18446744073709551616.0).magnitude_up_to(u64::MAX), None);
}

#[test]
fn number_literals_are_what_the_machine_reads_as_doubles() {
    let texts = [
        "", "0", "1", "-1", "+1", "1.5", "1.", ".5", ".", "+.", "-.", "+.5", "-5.", "1e5", "1E5", "1e+5",
        "1e-5", "1e", "1e+", "1e-", "e5", ".e5", "1.e5", ".5e5", "1.5e5", "1.5e5.0", "1.2.3", "1..2", "12.5e-1",
        "inf", "INF", "Inf", "-inf", "+inf", "infinity", "INFINITY", "iNfInItY", "-Infinity", "infinit",
        "infinityy", "in", "nan", "NaN", "NAN", "-nan", "+NaN", "nan1", "nana", " 1", "1 ", "1 2", "1_000",
        "0x10", "1,5", "--1", "+-1", "1e5e5", "1ee5", "1e--5", "00012", "0.0000000001", "123456789012345678901234567890",
        "1e400", "1e-400", "-0", "-0.0", "+", "-", "a", "1a", "a1", "1f64", "٣", "1\n", "\t1", "1e5 ", "i", "n", "infnan",
        "9007199254740993", "4.9e-324", "1.7976931348623157e308", "1.7976931348623159e308", "0e0", "0.e0", ".0e0",
        "e", "E", "1E", "+e1", "-.e1", "5e+", "5e+x", "5ex", "Infinity1", "+infinity", "-NAN", "na", "infi",
    ];
    for text in texts {
        assert_eq!(
            valid_number(&text.as_bytes().to_vec()),
            text.parse::<f64>().is_ok(),
            "{:?}",
            text
        );
    }
}

#[test]
fn number_literals_of_every_short_shape() {
    // Every text of up to five of these bytes.
    let alphabet = "0+-.eEin";
    let bytes = alphabet.as_bytes();
    let mut count: usize = 0;
    for len in 0usize..=5 {
        let total: usize = bytes.len().pow(len as u32);
        for code in 0usize..total {
            let mut text = String::new();
            let mut rest: usize = code;
            for _ in 0usize..len {
                text.push(bytes[rest % bytes.len()] as char);
                rest /= bytes.len();
            }
            assert_eq!(
                valid_number(&text.as_bytes().to_vec()),
                text.parse::<f64>().is_ok(),
                "{:?}",
                text
            );
            count += 1;
        }
    }
    assert_eq!(count, 1 + 8 + 64 + 512 + 4096 + 32768);
}

#[test]
fn bytes_that_are_no_ascii_are_no_number() {
    assert!(!valid_number(&vec![0x31, 0xb2]));
    assert!(!valid_number(&vec![0xff]));
    assert!(!valid_number(&vec![0x00]));
}
