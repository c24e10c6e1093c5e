use catt::number::{to_i16, to_i32, to_i64, to_u8, ONE, ZERO};
use catt::text::{chars_of, eq_ignore_case, push_decimal, string_of, to_lower, trim, white_space};
use catt::value::{ConversionError, NumberText, Value, ValueKind};

struct Decimal;

impl NumberText for Decimal {
    fn parse(&self, text: &str) -> Option<u64> {
        text.parse::<f64>().ok().map(f64::to_bits)
    }

    fn render(&self, bits: u64) -> String {
        format!("{}", f64::from_bits(bits))
    }
}

fn bits(x: f64) -> u64 {
    x.to_bits()
}

#[test]
fn lib_it_works() {}

#[test]
fn zwave_testing_it_works() {}

#[test]
fn ingest_prefers_bool_then_number_then_text() {
    assert_eq!(Value::from_raw(b"ON", &Decimal), Value::Bool(true));
    assert_eq!(Value::from_raw(b"off", &Decimal), Value::Bool(false));
    assert_eq!(Value::from_raw(b" Closed ", &Decimal), Value::Bool(false));
    assert_eq!(Value::from_raw(b"42", &Decimal), Value::Number(bits(42.0)));
    assert_eq!(Value::from_raw(b" 3.5 ", &Decimal), Value::Number(bits(3.5)));
    assert_eq!(Value::from_raw(b"hello", &Decimal), Value::String("hello".to_string()));
    assert_eq!(Value::from_raw(&[0xff, 0x00], &Decimal), Value::Raw(vec![0xff, 0x00]));
}

#[test]
fn ingest_with_a_given_parse() {
    assert_eq!(Value::ingest(b"17", Some(bits(17.0))), Value::Number(bits(17.0)));
    assert_eq!(Value::ingest(b"17", None), Value::String("17".to_string()));
    assert_eq!(Value::ingest(b"true", Some(bits(1.0))), Value::Bool(true));
    assert_eq!(Value::ingest(&[0x80], Some(bits(1.0))), Value::Raw(vec![0x80]));
}

#[test]
fn text_round_trip_collapses_tokens() {
    for (text, expected) in [
        ("ON", Value::Bool(true)),
        ("42", Value::Number(bits(42.0))),
        ("hello", Value::String("hello".to_string())),
    ] {
        let raw = Value::String(text.to_string()).as_raw().unwrap();
        assert_eq!(raw, text.as_bytes().to_vec());
        assert_eq!(Value::from_raw(&raw, &Decimal), expected);
    }
    assert_eq!(Value::Bool(true).as_string(&Decimal).unwrap(), "ON");
    assert_eq!(Value::Number(bits(42.0)).as_string(&Decimal).unwrap(), "42");
    assert_eq!(Value::String("hello".to_string()).as_string(&Decimal).unwrap(), "hello");
}

#[test]
fn number_round_trip_through_raw() {
    let v = Value::Number(bits(-1.0));
    let raw = v.as_raw().unwrap();
    assert_eq!(raw, vec![0xbf, 0xf0, 0, 0, 0, 0, 0, 0]);
    let back = Value::from_raw(&raw, &Decimal);
    assert_eq!(back, Value::Raw(raw.clone()));
    assert_eq!(back.as_number(&Decimal).unwrap(), bits(-1.0));
    assert_eq!(Value::Raw(raw).as_number_value(&Decimal).unwrap(), v);
}

#[test]
fn number_whose_bytes_are_text_comes_back_as_text() {
    let raw = Value::Number(bits(42.0)).as_raw().unwrap();
    assert_eq!(raw, vec![0x40, 0x45, 0, 0, 0, 0, 0, 0]);
    assert_eq!(
        Value::from_raw(&raw, &Decimal),
        Value::String("@E\0\0\0\0\0\0".to_string())
    );
}

#[test]
fn bool_reads_back_from_its_raw_form() {
    for b in [true, false] {
        let raw = Value::Bool(b).as_raw().unwrap();
        assert_eq!(raw, vec![b as u8]);
        assert_eq!(Value::Raw(raw).as_bool().unwrap(), b);
    }
    assert_eq!(Value::Bool(true).as_raw_value().unwrap(), Value::Raw(vec![1]));
}

#[test]
fn raw_forms() {
    assert_eq!(
        Value::Number(bits(1.0)).as_raw().unwrap(),
        vec![0x3f, 0xf0, 0, 0, 0, 0, 0, 0]
    );
    assert_eq!(
        Value::Number(0x0102_0304_0506_0708).as_raw().unwrap(),
        vec![1, 2, 3, 4, 5, 6, 7, 8]
    );
    assert_eq!(Value::String("h\u{e9}".to_string()).as_raw().unwrap(), vec![b'h', 0xc3, 0xa9]);
    assert_eq!(Value::Raw(vec![9, 8]).as_raw().unwrap(), vec![9, 8]);
}

#[test]
fn number_forms() {
    assert_eq!(Value::Number(bits(2.5)).as_number(&Decimal).unwrap(), bits(2.5));
    assert_eq!(Value::Bool(true).as_number(&Decimal).unwrap(), bits(1.0));
    assert_eq!(Value::Bool(false).as_number(&Decimal).unwrap(), bits(0.0));
    assert_eq!(ONE, bits(1.0));
    assert_eq!(ZERO, bits(0.0));
    assert_eq!(
        Value::Raw(vec![1, 2, 3, 4, 5, 6, 7, 8, 9]).as_number(&Decimal).unwrap(),
        0x0102_0304_0506_0708
    );
    assert_eq!(
        Value::Raw(vec![0x40, 0x09, 0x21, 0xfb, 0x54, 0x44, 0x2d, 0x18]).as_number(&Decimal).unwrap(),
        bits(std::f64::consts::PI)
    );
    assert_eq!(
        Value::String(" 3.5\n".to_string()).as_number(&Decimal).unwrap(),
        bits(3.5)
    );
    assert_eq!(
        Value::String("7".to_string()).number_given(Some(bits(7.0))).unwrap(),
        bits(7.0)
    );
}

#[test]
fn number_errors() {
    assert_eq!(
        Value::String("abc".to_string()).as_number(&Decimal),
        Err(ConversionError::ParseNumber("abc".to_string()))
    );
    assert_eq!(
        Value::Raw(vec![1, 2, 3]).as_number(&Decimal),
        Err(ConversionError::InvalidConversion(Value::Raw(vec![1, 2, 3]), ValueKind::Number))
    );
    assert_eq!(
        Value::String("x".to_string()).as_number_value(&Decimal),
        Err(ConversionError::ParseNumber("x".to_string()))
    );
}

#[test]
fn string_forms() {
    assert_eq!(Value::Bool(false).as_string(&Decimal).unwrap(), "OFF");
    assert_eq!(Value::Number(bits(0.25)).as_string(&Decimal).unwrap(), "0.25");
    assert_eq!(Value::Raw(b"plain".to_vec()).as_string(&Decimal).unwrap(), "plain");
    assert_eq!(Value::Raw(vec![0xff, 0xfe]).as_string(&Decimal).unwrap(), "//4=");
    assert_eq!(Value::Raw(vec![0xfb, 0xf0, 0x01]).as_string(&Decimal).unwrap(), "+/AB");
    assert_eq!(
        Value::Raw(vec![0xff]).as_string_value(&Decimal).unwrap(),
        Value::String("/w==".to_string())
    );
    assert_eq!(Value::Number(bits(1.0)).string_given("one".to_string()), "one");
}

#[test]
fn bool_forms() {
    assert_eq!(Value::Number(bits(1.0)).as_bool(), Ok(true));
    assert_eq!(Value::Number(bits(0.5)).as_bool(), Ok(false));
    assert_eq!(Value::Number(bits(-3.0)).as_bool(), Ok(true));
    assert_eq!(Value::Number(bits(-0.0)).as_bool(), Ok(false));
    assert_eq!(Value::Number(bits(f64::NAN)).as_bool(), Ok(false));
    assert_eq!(Value::Number(bits(f64::INFINITY)).as_bool(), Ok(true));
    for t in ["on", "ON", " Open ", "true", "TRUE"] {
        assert_eq!(Value::String(t.to_string()).as_bool(), Ok(true));
    }
    for t in ["off", "Closed", "false", "\tFALSE\n"] {
        assert_eq!(Value::String(t.to_string()).as_bool(), Ok(false));
    }
    assert_eq!(Value::Raw(vec![]).as_bool(), Ok(false));
    assert_eq!(Value::Raw(vec![0, 1]).as_bool(), Ok(false));
    assert_eq!(Value::Raw(vec![2]).as_bool(), Ok(true));
    assert_eq!(Value::Bool(true).as_bool_value(), Ok(Value::Bool(true)));
}

#[test]
fn bool_errors() {
    let v = Value::String("maybe".to_string());
    assert_eq!(
        v.as_bool(),
        Err(ConversionError::InvalidConversion(v.clone(), ValueKind::Bool))
    );
    assert_eq!(
        Value::String("1".to_string()).as_bool_value(),
        Err(ConversionError::InvalidConversion(Value::String("1".to_string()), ValueKind::Bool))
    );
}

#[test]
fn truncation_is_that_of_a_cast() {
    let samples = [
        0.0,
        -0.0,
        0.5,
        0.999,
        1.0,
        7.9,
        -7.9,
        255.0,
        255.5,
        256.0,
        300.0,
        -5.0,
        32767.0,
        32768.0,
        -32768.0,
        -32769.5,
        1e9,
        2147483647.0,
        2147483648.0,
        -2147483648.0,
        -1e12,
        4503599627370496.0,
        9007199254740993.0,
        9.2e18,
        9223372036854775807.0,
        -9223372036854775808.0,
        1e19,
        -1e19,
        1e300,
        -1e300,
        f64::INFINITY,
        f64::NEG_INFINITY,
        f64::NAN,
        f64::MIN_POSITIVE,
        5e-324,
    ];
    for x in samples {
        assert_eq!(to_i64(bits(x)), x as i64);
        assert_eq!(to_i32(bits(x)), x as i32);
        assert_eq!(to_i16(bits(x)), x as i16);
        assert_eq!(to_u8(bits(x)), x as u8);
    }
    assert_eq!(to_u8(bits(300.0)), 255);
    assert_eq!(to_u8(bits(-5.0)), 0);
    assert_eq!(to_i16(bits(1e9)), 32767);
    assert_eq!(to_i32(bits(-1e12)), i32::MIN);
    assert_eq!(to_i64(bits(1e300)), i64::MAX);
    assert_eq!(to_u8(bits(7.9)), 7);
}

#[test]
fn text_helpers() {
    assert_eq!(string_of(&trim(&chars_of("  a b\t\n"))), "a b");
    assert_eq!(string_of(&trim(&chars_of("\u{a0}\u{3000}x\u{2028}"))), "x");
    assert_eq!(string_of(&trim(&chars_of("   "))), "");
    assert_eq!(string_of(&trim(&chars_of(""))), "");
    assert!(eq_ignore_case("Switch_Binary", "switch_binary"));
    assert!(!eq_ignore_case("bool", "int"));
    assert!(!eq_ignore_case("[", "{"));
    assert!(!eq_ignore_case("@", "`"));
    let mut out = Vec::new();
    push_decimal(&mut out, 0);
    push_decimal(&mut out, 4711);
    push_decimal(&mut out, u64::MAX);
    assert_eq!(string_of(&out), "0471118446744073709551615");
    assert_eq!(Value::Bool(true).kind(), ValueKind::Bool);
    assert_eq!(Value::Raw(vec![1]).duplicate(), Value::Raw(vec![1]));
}

#[test]
fn bool_raw_form_is_taken_for_text() {
    assert_eq!(Value::from_raw(&[1], &Decimal), Value::String("\u{1}".to_string()));
    assert_eq!(Value::from_raw(&[0], &Decimal), Value::String("\0".to_string()));
}

#[test]
fn character_classes_are_those_of_the_standard_library() {
    for u in 0..=0x10ffffu32 {
        if let Some(c) = char::from_u32(u) {
            assert_eq!(white_space(c), c.is_whitespace(), "white space {:x}", u);
            assert_eq!(to_lower(c), c.to_ascii_lowercase(), "lower case {:x}", u);
        }
    }
    for t in ["", " ", "a", " a", "a ", "\t a b \n", "\u{2003}x\u{85}", "\u{200b}x"] {
        assert_eq!(string_of(&trim(&chars_of(t))), t.trim());
    }
    for (a, b) in [("on", "ON"), ("On", "oN"), ("on", "no"), ("a", "ab"), ("\u{212a}", "k")] {
        assert_eq!(eq_ignore_case(a, b), a.eq_ignore_ascii_case(b));
    }
}
