use serde_xml::error::ErrorImpl;
use serde_xml::text::{
    format_i64, format_truth, format_u64, is_whitespace, join_spaced, parse_i128, parse_i16,
    parse_i32, parse_i64, parse_i8, parse_truth, parse_u128, parse_u16, parse_u32, parse_u64,
    parse_u8, same_text, split_whitespace,
};

fn cause(err: serde_xml::Error) -> std::num::ParseIntError {
    match err.into_inner() {
        ErrorImpl::ParseIntError(cause) => cause,
        other => panic!("no integer error: {:?}", other),
    }
}

fn samples() -> Vec<&'static str> {
    vec!["", "-", "+", "0", "-0", "+0", "7", "+7", "-7", "007", "127", "128", "-128", "-129",
        "255", "256", "32767", "32768", "-32768", "-32769", "65535", "65536", "2147483647",
        "2147483648", "-2147483648", "-2147483649", "4294967295", "4294967296",
        "9223372036854775807", "9223372036854775808", "-9223372036854775808",
        "-9223372036854775809", "18446744073709551615", "18446744073709551616",
        "170141183460469231731687303715884105727", "170141183460469231731687303715884105728",
        "-170141183460469231731687303715884105728", "-170141183460469231731687303715884105729",
        "340282366920938463463374607431768211455", "340282366920938463463374607431768211456",
        " 1", "1 ", "1.0", "abc", "--1", "+-1", "1e3", "0x10", "9999x", "-9999x"]
}

fn owned(items: &[&str]) -> Vec<String> {
    items.iter().map(|s| s.to_string()).collect()
}

#[test]
fn white_space_is_what_std_calls_white_space() {
    let mut code: u32 = 0;
    while code <= 0x10FFFF {
        if let Some(c) = char::from_u32(code) {
            assert_eq!(is_whitespace(c), c.is_whitespace(), "code point {:#x}", code);
        }
        code += 1;
    }
}

#[test]
fn tokens_are_the_runs_without_white_space() {
    assert_eq!(split_whitespace("123 1.23 abc"), owned(&["123", "1.23", "abc"]));
    assert_eq!(split_whitespace("  a \t b\n"), owned(&["a", "b"]));
    assert_eq!(split_whitespace("abc"), owned(&["abc"]));
    assert_eq!(split_whitespace(""), owned(&[]));
    assert_eq!(split_whitespace(" \n\t "), owned(&[]));
    assert_eq!(split_whitespace("a\u{a0}b\u{3000}c"), owned(&["a", "b", "c"]));
    assert_eq!(split_whitespace("a\u{200b}b"), owned(&["a\u{200b}b"]));
}

#[test]
fn tokens_agree_with_std() {
    for text in ["", " ", "a", " a", "a ", "a  b", "\ta\nb\r\nc ", "é è", "x\u{2003}y z"] {
        let expected: Vec<String> = text.split_whitespace().map(String::from).collect();
        assert_eq!(split_whitespace(text), expected, "text {:?}", text);
    }
}

#[test]
fn joining_puts_single_spaces_between() {
    assert_eq!(join_spaced(&owned(&["123", "1.23", "abc"])), "123 1.23 abc");
    assert_eq!(join_spaced(&owned(&["abc"])), "abc");
    assert_eq!(join_spaced(&owned(&[])), "");
    assert_eq!(join_spaced(&owned(&["", ""])), " ");
}

#[test]
fn joined_tokens_come_apart_again() {
    let tokens = owned(&["123", "1.23", "abc", "-7", "true"]);
    assert_eq!(split_whitespace(&join_spaced(&tokens)), tokens);
}

#[test]
fn signed_integers_are_read() {
    assert_eq!(parse_i64("0").unwrap(), 0);
    assert_eq!(parse_i64("42").unwrap(), 42);
    assert_eq!(parse_i64("+42").unwrap(), 42);
    assert_eq!(parse_i64("-42").unwrap(), -42);
    assert_eq!(parse_i64("-0").unwrap(), 0);
    assert_eq!(parse_i64("007").unwrap(), 7);
    assert_eq!(parse_i64("9223372036854775807").unwrap(), i64::MAX);
    assert_eq!(parse_i64("-9223372036854775808").unwrap(), i64::MIN);
}

#[test]
fn what_is_no_signed_integer_is_refused() {
    for text in ["", "-", "+", "+-5", "--5", " 5", "5 ", "1_000", "1.0", "abc", "0x10",
        "9223372036854775808", "-9223372036854775809"]
    {
        match parse_i64(text) {
            Ok(v) => panic!("{:?} was read as {}", text, v),
            Err(e) => assert!(matches!(e.into_inner(), ErrorImpl::ParseIntError(_))),
        }
    }
}

#[test]
fn unsigned_integers_are_read() {
    assert_eq!(parse_u64("0").unwrap(), 0);
    assert_eq!(parse_u64("21").unwrap(), 21);
    assert_eq!(parse_u64("+21").unwrap(), 21);
    assert_eq!(parse_u64("18446744073709551615").unwrap(), u64::MAX);
}

#[test]
fn what_is_no_unsigned_integer_is_refused() {
    for text in ["", "+", "-0", "-1", " 1", "1 ", "abc", "18446744073709551616"] {
        match parse_u64(text) {
            Ok(v) => panic!("{:?} was read as {}", text, v),
            Err(e) => assert!(matches!(e.into_inner(), ErrorImpl::ParseIntError(_))),
        }
    }
}

#[test]
fn truth_values_are_read() {
    assert_eq!(parse_truth("true").unwrap(), true);
    assert_eq!(parse_truth("false").unwrap(), false);
    for text in ["", "True", "TRUE", "yes", "1", " true", "false "] {
        match parse_truth(text) {
            Ok(v) => panic!("{:?} was read as {}", text, v),
            Err(e) => assert!(matches!(e.into_inner(), ErrorImpl::ParseBoolError(_))),
        }
    }
}

#[test]
fn integers_are_written_in_decimal() {
    assert_eq!(format_i64(0), "0");
    assert_eq!(format_i64(42), "42");
    assert_eq!(format_i64(-42), "-42");
    assert_eq!(format_i64(i64::MAX), "9223372036854775807");
    assert_eq!(format_i64(i64::MIN), "-9223372036854775808");
    assert_eq!(format_u64(0), "0");
    assert_eq!(format_u64(21), "21");
    assert_eq!(format_u64(u64::MAX), "18446744073709551615");
}

#[test]
fn written_integers_are_read_back() {
    for v in [0i64, 1, -1, 9, 10, -10, 12345, i64::MAX, i64::MIN] {
        assert_eq!(parse_i64(&format_i64(v)).unwrap(), v);
    }
    for v in [0u64, 1, 9, 10, 99, 100, u64::MAX] {
        assert_eq!(parse_u64(&format_u64(v)).unwrap(), v);
    }
    for v in [true, false] {
        assert_eq!(parse_truth(&format_truth(v)).unwrap(), v);
    }
}

#[test]
fn truth_values_are_written_in_words() {
    assert_eq!(format_truth(true), "true");
    assert_eq!(format_truth(false), "false");
}

#[test]
fn same_texts_are_told_from_others() {
    assert!(same_text("item", "item"));
    assert!(same_text("", ""));
    assert!(!same_text("item", "items"));
    assert!(!same_text("item", "Item"));
}

#[test]
fn small_signed_integers_are_read() {
    assert_eq!(parse_i8("-128").unwrap(), i8::MIN);
    assert_eq!(parse_i8("127").unwrap(), i8::MAX);
    assert_eq!(parse_i8("+5").unwrap(), 5);
    assert_eq!(parse_i16("-32768").unwrap(), i16::MIN);
    assert_eq!(parse_i16("32767").unwrap(), i16::MAX);
    assert_eq!(parse_i32("-2147483648").unwrap(), i32::MIN);
    assert_eq!(parse_i32("2147483647").unwrap(), i32::MAX);
    assert_eq!(parse_i32("-17").unwrap(), -17);
}

#[test]
fn small_unsigned_integers_are_read() {
    assert_eq!(parse_u8("0").unwrap(), 0);
    assert_eq!(parse_u8("255").unwrap(), u8::MAX);
    assert_eq!(parse_u16("65535").unwrap(), u16::MAX);
    assert_eq!(parse_u32("4294967295").unwrap(), u32::MAX);
    assert_eq!(parse_u32("+17").unwrap(), 17);
}

#[test]
fn wide_integers_are_read() {
    assert_eq!(parse_i128("-170141183460469231731687303715884105728").unwrap(), i128::MIN);
    assert_eq!(parse_i128("170141183460469231731687303715884105727").unwrap(), i128::MAX);
    assert_eq!(parse_i128("-9223372036854775809").unwrap(), -9223372036854775809);
    assert_eq!(parse_u128("340282366920938463463374607431768211455").unwrap(), u128::MAX);
    assert_eq!(parse_u128("18446744073709551616").unwrap(), 18446744073709551616);
}

#[test]
fn a_number_that_does_not_fit_is_refused() {
    assert!(parse_i8("128").is_err());
    assert!(parse_i8("-129").is_err());
    assert!(parse_i16("32768").is_err());
    assert!(parse_i16("-32769").is_err());
    assert!(parse_i32("2147483648").is_err());
    assert!(parse_i32("-2147483649").is_err());
    assert!(parse_u8("256").is_err());
    assert!(parse_u8("-1").is_err());
    assert!(parse_u16("65536").is_err());
    assert!(parse_u32("4294967296").is_err());
    assert!(parse_i128("170141183460469231731687303715884105728").is_err());
    assert!(parse_u128("340282366920938463463374607431768211456").is_err());
}

#[test]
fn an_integer_that_is_refused_is_named_with_its_type() {
    let err = parse_i8("300").unwrap_err();
    let offence = err.offence().unwrap();
    assert_eq!(offence.text, "300");
    assert_eq!(offence.target, "i8");
    assert_eq!(parse_i16("x").unwrap_err().offence().unwrap().target, "i16");
    assert_eq!(parse_i32("x").unwrap_err().offence().unwrap().target, "i32");
    assert_eq!(parse_u8("-1").unwrap_err().offence().unwrap().target, "u8");
    assert_eq!(parse_u16("70000").unwrap_err().offence().unwrap().target, "u16");
    assert_eq!(parse_u32("").unwrap_err().offence().unwrap().target, "u32");
    assert_eq!(parse_i128("x").unwrap_err().offence().unwrap().target, "i128");
    assert_eq!(parse_u128("x").unwrap_err().offence().unwrap().target, "u128");
    assert_eq!(parse_i64("x").unwrap_err().offence().unwrap().target, "i64");
    assert_eq!(parse_u64("x").unwrap_err().offence().unwrap().target, "u64");
}

#[test]
fn integers_of_every_width_are_read_where_std_reads_them() {
    for text in samples() {
        assert_eq!(parse_i8(text).ok(), text.parse::<i8>().ok(), "{:?}", text);
        assert_eq!(parse_i16(text).ok(), text.parse::<i16>().ok(), "{:?}", text);
        assert_eq!(parse_i32(text).ok(), text.parse::<i32>().ok(), "{:?}", text);
        assert_eq!(parse_i64(text).ok(), text.parse::<i64>().ok(), "{:?}", text);
        assert_eq!(parse_i128(text).ok(), text.parse::<i128>().ok(), "{:?}", text);
        assert_eq!(parse_u8(text).ok(), text.parse::<u8>().ok(), "{:?}", text);
        assert_eq!(parse_u16(text).ok(), text.parse::<u16>().ok(), "{:?}", text);
        assert_eq!(parse_u32(text).ok(), text.parse::<u32>().ok(), "{:?}", text);
        assert_eq!(parse_u64(text).ok(), text.parse::<u64>().ok(), "{:?}", text);
        assert_eq!(parse_u128(text).ok(), text.parse::<u128>().ok(), "{:?}", text);
    }
}

#[test]
fn a_number_that_does_not_fit_has_the_cause_that_std_gives() {
    assert_eq!(cause(parse_i8("128").unwrap_err()), "128".parse::<i8>().unwrap_err());
    assert_eq!(cause(parse_i8("-129").unwrap_err()), "-129".parse::<i8>().unwrap_err());
    assert_eq!(cause(parse_i16("40000").unwrap_err()), "40000".parse::<i16>().unwrap_err());
    assert_eq!(cause(parse_i32("-2147483649").unwrap_err()), "-2147483649".parse::<i32>().unwrap_err());
    assert_eq!(cause(parse_u8("256").unwrap_err()), "256".parse::<u8>().unwrap_err());
    assert_eq!(cause(parse_u16("65536").unwrap_err()), "65536".parse::<u16>().unwrap_err());
    assert_eq!(cause(parse_u32("4294967296").unwrap_err()), "4294967296".parse::<u32>().unwrap_err());
    assert_eq!(cause(parse_i8("").unwrap_err()), "".parse::<i8>().unwrap_err());
    assert_eq!(cause(parse_u8("-1").unwrap_err()), "-1".parse::<u8>().unwrap_err());
    assert_eq!(cause(parse_i32("1x").unwrap_err()), "1x".parse::<i32>().unwrap_err());
    assert_eq!(parse_i8("128").unwrap_err().to_text(), "128".parse::<i8>().unwrap_err().to_string());
    assert_eq!(parse_i8("-129").unwrap_err().to_text(), "-129".parse::<i8>().unwrap_err().to_string());
}
