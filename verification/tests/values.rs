use flagtory::number::{parse_digits, parse_signed, parse_unsigned};
use flagtory::text::{same_text, to_chars};
use flagtory::token::{name_of, starts_with_dash};
use flagtory::{ConversionError, Flag, Kind, Value};

fn chars(s: &str) -> Vec<char> {
    s.chars().collect()
}

fn samples() -> Vec<&'static str> {
    vec![
        "", "0", "7", "42", "-5", "+5", "-0", "+0", "+", "-", "--5", "+-5", "-+5", "++5", "5-",
        "1 ", " 1", "1_000", "0x10", "4e2", "4.0", "00042", "-00042", "+00042", "127", "128",
        "-128", "-129", "255", "256", "32767", "32768", "-32768", "-32769", "65535", "65536",
        "2147483647", "2147483648", "-2147483648", "-2147483649", "4294967295", "4294967296",
        "9223372036854775807", "9223372036854775808", "-9223372036854775808",
        "-9223372036854775809", "18446744073709551615", "18446744073709551616",
        "170141183460469231731687303715884105727", "170141183460469231731687303715884105728",
        "-170141183460469231731687303715884105728", "-170141183460469231731687303715884105729",
        "340282366920938463463374607431768211455", "340282366920938463463374607431768211456",
        "0000000000000000000000000000000000000000000000000000000000000000000000000000001",
        "99999999999999999999999999999999999999999999999999999999999999999999999999999999",
        "true", "false", "True", "FALSE", "truee", "tru", " true", "1", "notanumber",
        "\u{ff11}\u{ff12}", "\u{663}", "4\u{b2}", "1\n", "\t1", "١٢",
    ]
}

#[test]
fn bool_is_read_as_std_reads_it() {
    for s in samples() {
        let expected = s.parse::<bool>().ok().map(Value::Bool);
        assert_eq!(Value::parse(Kind::Bool, &chars(s)), expected, "text {:?}", s);
    }
}

#[test]
fn i8_is_read_as_std_reads_it() {
    for s in samples() {
        let expected = s.parse::<i8>().ok().map(Value::I8);
        assert_eq!(Value::parse(Kind::I8, &chars(s)), expected, "text {:?}", s);
    }
}

#[test]
fn i16_is_read_as_std_reads_it() {
    for s in samples() {
        let expected = s.parse::<i16>().ok().map(Value::I16);
        assert_eq!(Value::parse(Kind::I16, &chars(s)), expected, "text {:?}", s);
    }
}

#[test]
fn i32_is_read_as_std_reads_it() {
    for s in samples() {
        let expected = s.parse::<i32>().ok().map(Value::I32);
        assert_eq!(Value::parse(Kind::I32, &chars(s)), expected, "text {:?}", s);
    }
}

#[test]
fn i64_is_read_as_std_reads_it() {
    for s in samples() {
        let expected = s.parse::<i64>().ok().map(Value::I64);
        assert_eq!(Value::parse(Kind::I64, &chars(s)), expected, "text {:?}", s);
    }
}

#[test]
fn i128_is_read_as_std_reads_it() {
    for s in samples() {
        let expected = s.parse::<i128>().ok().map(Value::I128);
        assert_eq!(Value::parse(Kind::I128, &chars(s)), expected, "text {:?}", s);
    }
}

#[test]
fn isize_is_read_as_std_reads_it() {
    for s in samples() {
        let expected = s.parse::<isize>().ok().map(Value::Isize);
        assert_eq!(Value::parse(Kind::Isize, &chars(s)), expected, "text {:?}", s);
    }
}

#[test]
fn usize_is_read_as_std_reads_it() {
    for s in samples() {
        let expected = s.parse::<usize>().ok().map(Value::Usize);
        assert_eq!(Value::parse(Kind::Usize, &chars(s)), expected, "text {:?}", s);
    }
}

#[test]
fn u8_is_read_as_std_reads_it() {
    for s in samples() {
        let expected = s.parse::<u8>().ok().map(Value::U8);
        assert_eq!(Value::parse(Kind::U8, &chars(s)), expected, "text {:?}", s);
    }
}

#[test]
fn u16_is_read_as_std_reads_it() {
    for s in samples() {
        let expected = s.parse::<u16>().ok().map(Value::U16);
        assert_eq!(Value::parse(Kind::U16, &chars(s)), expected, "text {:?}", s);
    }
}

#[test]
fn u32_is_read_as_std_reads_it() {
    for s in samples() {
        let expected = s.parse::<u32>().ok().map(Value::U32);
        assert_eq!(Value::parse(Kind::U32, &chars(s)), expected, "text {:?}", s);
    }
}

#[test]
fn u64_is_read_as_std_reads_it() {
    for s in samples() {
        let expected = s.parse::<u64>().ok().map(Value::U64);
        assert_eq!(Value::parse(Kind::U64, &chars(s)), expected, "text {:?}", s);
    }
}

#[test]
fn u128_is_read_as_std_reads_it() {
    for s in samples() {
        let expected = s.parse::<u128>().ok().map(Value::U128);
        assert_eq!(Value::parse(Kind::U128, &chars(s)), expected, "text {:?}", s);
    }
}

#[test]
fn digits_are_read_as_a_number() {
    assert_eq!(parse_digits(&chars("42")), Some(42));
    assert_eq!(parse_digits(&chars("x42")), None);
    assert_eq!(parse_digits(&chars("+42")), None);
    assert_eq!(parse_digits(&chars("-42")), None);
    assert_eq!(parse_digits(&chars("")), Some(0));
    assert_eq!(parse_digits(&chars("4 2")), None);
    assert_eq!(parse_digits(&chars("007")), Some(7));
    assert_eq!(parse_digits(&chars("9")), Some(9));
    assert_eq!(parse_digits(&chars("1234567890")), Some(1234567890));
    assert_eq!(parse_digits(&chars("340282366920938463463374607431768211455")), Some(u128::MAX));
    assert_eq!(parse_digits(&chars("340282366920938463463374607431768211456")), None);
    assert_eq!(parse_digits(&chars("3402823669209384634633746074317682114550")), None);
}

#[test]
fn signed_numbers_reach_both_ends() {
    assert_eq!(parse_signed(&chars("0")), Some(0));
    assert_eq!(parse_signed(&chars("-0")), Some(0));
    assert_eq!(parse_signed(&chars("+17")), Some(17));
    assert_eq!(parse_signed(&chars("-17")), Some(-17));
    assert_eq!(
        parse_signed(&chars("170141183460469231731687303715884105727")),
        Some(i128::MAX)
    );
    assert_eq!(
        parse_signed(&chars("-170141183460469231731687303715884105728")),
        Some(i128::MIN)
    );
    assert_eq!(parse_signed(&chars("170141183460469231731687303715884105728")), None);
    assert_eq!(parse_signed(&chars("+170141183460469231731687303715884105728")), None);
    assert_eq!(parse_signed(&chars("-170141183460469231731687303715884105729")), None);
    assert_eq!(parse_signed(&chars("")), None);
    assert_eq!(parse_signed(&chars("-")), None);
    assert_eq!(parse_signed(&chars("+")), None);
    assert_eq!(parse_signed(&chars("1-")), None);
}

#[test]
fn unsigned_numbers_take_no_minus() {
    assert_eq!(parse_unsigned(&chars("0")), Some(0));
    assert_eq!(parse_unsigned(&chars("+0")), Some(0));
    assert_eq!(parse_unsigned(&chars("-0")), None);
    assert_eq!(parse_unsigned(&chars("-1")), None);
    assert_eq!(parse_unsigned(&chars("+17")), Some(17));
    assert_eq!(
        parse_unsigned(&chars("340282366920938463463374607431768211455")),
        Some(u128::MAX)
    );
    assert_eq!(parse_unsigned(&chars("340282366920938463463374607431768211456")), None);
    assert_eq!(parse_unsigned(&chars("")), None);
    assert_eq!(parse_unsigned(&chars("+")), None);
}

#[test]
fn kinds_are_named_as_rust_writes_the_types() {
    assert_eq!(Kind::Bool.name(), "bool");
    assert_eq!(Kind::I8.name(), "i8");
    assert_eq!(Kind::I16.name(), "i16");
    assert_eq!(Kind::I32.name(), "i32");
    assert_eq!(Kind::I64.name(), "i64");
    assert_eq!(Kind::I128.name(), "i128");
    assert_eq!(Kind::U8.name(), "u8");
    assert_eq!(Kind::U16.name(), "u16");
    assert_eq!(Kind::U32.name(), "u32");
    assert_eq!(Kind::U64.name(), "u64");
    assert_eq!(Kind::U128.name(), "u128");
    assert_eq!(Kind::Isize.name(), "isize");
    assert_eq!(Kind::Usize.name(), "usize");
}

#[test]
fn value_knows_its_kind() {
    assert_eq!(Value::Bool(true).kind(), Kind::Bool);
    assert_eq!(Value::I8(1).kind(), Kind::I8);
    assert_eq!(Value::I16(1).kind(), Kind::I16);
    assert_eq!(Value::I32(1).kind(), Kind::I32);
    assert_eq!(Value::I64(1).kind(), Kind::I64);
    assert_eq!(Value::I128(1).kind(), Kind::I128);
    assert_eq!(Value::U8(1).kind(), Kind::U8);
    assert_eq!(Value::U16(1).kind(), Kind::U16);
    assert_eq!(Value::U32(1).kind(), Kind::U32);
    assert_eq!(Value::U64(1).kind(), Kind::U64);
    assert_eq!(Value::U128(1).kind(), Kind::U128);
    assert_eq!(Value::Isize(1).kind(), Kind::Isize);
    assert_eq!(Value::Usize(1).kind(), Kind::Usize);
}

#[test]
fn only_truth_values_toggle() {
    assert_eq!(Value::Bool(true).toggled(), Some(Value::Bool(false)));
    assert_eq!(Value::Bool(false).toggled(), Some(Value::Bool(true)));
    assert_eq!(Value::I32(1).toggled(), None);
    assert_eq!(Value::U8(0).toggled(), None);
    assert_eq!(Value::I128(-1).toggled(), None);
}

#[test]
fn scalar_goes_into_a_value_and_back() {
    assert_eq!(25i32.into_value(), Value::I32(25));
    assert_eq!(true.into_value(), Value::Bool(true));
    assert_eq!(u128::MAX.into_value(), Value::U128(u128::MAX));
    assert_eq!(i32::from_value(Value::I32(25)), Some(25));
    assert_eq!(i32::from_value(Value::I64(25)), None);
    assert_eq!(bool::from_value(Value::Bool(false)), Some(false));
    assert_eq!(bool::from_value(Value::U8(0)), None);
    assert_eq!(i8::from_value(Value::I8(i8::MIN)), Some(i8::MIN));
    assert_eq!(u64::from_value(Value::U64(u64::MAX)), Some(u64::MAX));
}

#[test]
fn slot_writes_through() {
    let mut v = Value::I16(3);
    assert!(bool::slot(&mut v).is_none());
    assert!(i32::slot(&mut v).is_none());
    *i16::slot(&mut v).unwrap() = -4;
    assert_eq!(v, Value::I16(-4));
    let mut b = Value::Bool(false);
    *bool::slot(&mut b).unwrap() = true;
    assert_eq!(b, Value::Bool(true));
}

#[test]
fn into_flag_overwrites_on_success_only() {
    let mut x = 5i32;
    assert_eq!(x.into_flag("42"), Ok(()));
    assert_eq!(x, 42);
    assert_eq!(x.into_flag("-2147483648"), Ok(()));
    assert_eq!(x, i32::MIN);
    assert_eq!(x.into_flag("notanumber"), Err(ConversionError { kind: Kind::I32 }));
    assert_eq!(x, i32::MIN);
    assert_eq!(x.into_flag("2147483648"), Err(ConversionError { kind: Kind::I32 }));
    assert_eq!(x, i32::MIN);

    let mut b = false;
    assert_eq!(b.into_flag("true"), Ok(()));
    assert!(b);
    assert_eq!(b.into_flag("1"), Err(ConversionError { kind: Kind::Bool }));
    assert!(b);
    assert_eq!(b.into_flag("false"), Ok(()));
    assert!(!b);

    let mut u = 1u8;
    assert_eq!(u.into_flag("-1"), Err(ConversionError { kind: Kind::U8 }));
    assert_eq!(u, 1);
    assert_eq!(u.into_flag("+255"), Ok(()));
    assert_eq!(u, 255);
}

#[test]
fn tokens_that_start_with_a_dash_are_flags() {
    assert!(starts_with_dash(&chars("-x")));
    assert!(starts_with_dash(&chars("--name")));
    assert!(starts_with_dash(&chars("-")));
    assert!(starts_with_dash(&chars("-5")));
    assert!(!starts_with_dash(&chars("")));
    assert!(!starts_with_dash(&chars("x")));
    assert!(!starts_with_dash(&chars("x-")));
    assert!(!starts_with_dash(&chars(" -x")));
    assert!(!starts_with_dash(&chars("\u{2013}x")));
}

#[test]
fn flag_names_are_read_off_the_token() {
    assert_eq!(name_of(&chars("-x")), Some(chars("x")));
    assert_eq!(name_of(&chars("-name")), Some(chars("name")));
    assert_eq!(name_of(&chars("-allow-net")), Some(chars("allow-net")));
    assert_eq!(name_of(&chars("--name")), Some(chars("name")));
    assert_eq!(name_of(&chars("--allow-net")), Some(chars("allownet")));
    assert_eq!(name_of(&chars("--a-b-c")), Some(chars("abc")));
    assert_eq!(name_of(&chars("---x--y-")), Some(chars("xy")));
    assert_eq!(name_of(&chars("-")), Some(chars("")));
    assert_eq!(name_of(&chars("--")), Some(chars("")));
    assert_eq!(name_of(&chars("---")), Some(chars("")));
    assert_eq!(name_of(&chars("")), None);
    assert_eq!(name_of(&chars("name")), None);
    assert_eq!(name_of(&chars("7")), None);
    assert_eq!(name_of(&chars("a--b")), None);
}

#[test]
fn texts_are_taken_apart_into_characters() {
    assert_eq!(to_chars(""), Vec::<char>::new());
    assert_eq!(to_chars("ab-c"), vec!['a', 'b', '-', 'c']);
    assert_eq!(to_chars("größe"), vec!['g', 'r', 'ö', 'ß', 'e']);
    assert!(same_text(&chars("abc"), &chars("abc")));
    assert!(same_text(&chars(""), &chars("")));
    assert!(!same_text(&chars("abc"), &chars("abd")));
    assert!(!same_text(&chars("abc"), &chars("ab")));
    assert!(!same_text(&chars(""), &chars("a")));
}

fn short_texts() -> Vec<String> {
    let alphabet = ['+', '-', '0', '1', '9', 'a', ' ', '_'];
    let mut all = vec![String::new()];
    let mut last = vec![String::new()];
    for _ in 0..4 {
        let mut next = Vec::new();
        for text in &last {
            for c in alphabet {
                let mut longer = text.clone();
                longer.push(c);
                next.push(longer);
            }
        }
        all.extend(next.iter().cloned());
        last = next;
    }
    all
}

#[test]
fn every_short_text_is_read_as_std_reads_it() {
    for s in short_texts() {
        let c = chars(&s);
        assert_eq!(Value::parse(Kind::Bool, &c), s.parse::<bool>().ok().map(Value::Bool));
        assert_eq!(Value::parse(Kind::I8, &c), s.parse::<i8>().ok().map(Value::I8), "{:?}", s);
        assert_eq!(Value::parse(Kind::I16, &c), s.parse::<i16>().ok().map(Value::I16), "{:?}", s);
        assert_eq!(Value::parse(Kind::I32, &c), s.parse::<i32>().ok().map(Value::I32), "{:?}", s);
        assert_eq!(Value::parse(Kind::I64, &c), s.parse::<i64>().ok().map(Value::I64), "{:?}", s);
        assert_eq!(Value::parse(Kind::I128, &c), s.parse::<i128>().ok().map(Value::I128));
        assert_eq!(Value::parse(Kind::Isize, &c), s.parse::<isize>().ok().map(Value::Isize));
        assert_eq!(Value::parse(Kind::U8, &c), s.parse::<u8>().ok().map(Value::U8), "{:?}", s);
        assert_eq!(Value::parse(Kind::U16, &c), s.parse::<u16>().ok().map(Value::U16), "{:?}", s);
        assert_eq!(Value::parse(Kind::U32, &c), s.parse::<u32>().ok().map(Value::U32), "{:?}", s);
        assert_eq!(Value::parse(Kind::U64, &c), s.parse::<u64>().ok().map(Value::U64), "{:?}", s);
        assert_eq!(Value::parse(Kind::U128, &c), s.parse::<u128>().ok().map(Value::U128));
        assert_eq!(Value::parse(Kind::Usize, &c), s.parse::<usize>().ok().map(Value::Usize));
        assert_eq!(parse_signed(&c), s.parse::<i128>().ok(), "{:?}", s);
        assert_eq!(parse_unsigned(&c), s.parse::<u128>().ok(), "{:?}", s);
    }
}

#[test]
fn numbers_near_the_bounds_are_read_as_std_reads_them() {
    let bounds: [i128; 12] = [
        i8::MIN as i128,
        i8::MAX as i128,
        i16::MIN as i128,
        i16::MAX as i128,
        i32::MIN as i128,
        i32::MAX as i128,
        i64::MIN as i128,
        i64::MAX as i128,
        u8::MAX as i128,
        u16::MAX as i128,
        u32::MAX as i128,
        u64::MAX as i128,
    ];
    for bound in bounds {
        for delta in -2i128..=2 {
            let n = bound + delta;
            for s in [format!("{}", n), format!("+{}", n), format!("0{}", n), format!("-{}", n)] {
                let c = chars(&s);
                assert_eq!(Value::parse(Kind::I8, &c), s.parse::<i8>().ok().map(Value::I8));
                assert_eq!(Value::parse(Kind::I16, &c), s.parse::<i16>().ok().map(Value::I16));
                assert_eq!(Value::parse(Kind::I32, &c), s.parse::<i32>().ok().map(Value::I32));
                assert_eq!(Value::parse(Kind::I64, &c), s.parse::<i64>().ok().map(Value::I64));
                assert_eq!(Value::parse(Kind::I128, &c), s.parse::<i128>().ok().map(Value::I128));
                assert_eq!(
                    Value::parse(Kind::Isize, &c),
                    s.parse::<isize>().ok().map(Value::Isize)
                );
                assert_eq!(Value::parse(Kind::U8, &c), s.parse::<u8>().ok().map(Value::U8));
                assert_eq!(Value::parse(Kind::U16, &c), s.parse::<u16>().ok().map(Value::U16));
                assert_eq!(Value::parse(Kind::U32, &c), s.parse::<u32>().ok().map(Value::U32));
                assert_eq!(Value::parse(Kind::U64, &c), s.parse::<u64>().ok().map(Value::U64));
                assert_eq!(Value::parse(Kind::U128, &c), s.parse::<u128>().ok().map(Value::U128));
                assert_eq!(
                    Value::parse(Kind::Usize, &c),
                    s.parse::<usize>().ok().map(Value::Usize)
                );
            }
        }
    }
}

