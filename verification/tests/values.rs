use rustical::text::{format_i64, format_u64, parse_integer, IntErrorKind};
use rustical::xml::error::{ParseValueError, XmlError};
use rustical::xml::value::{ValueDeserialize, ValueSerialize};

fn chars(s: &str) -> Vec<char> {
    s.chars().collect()
}

#[test]
fn integers_are_written_in_decimal() {
    assert_eq!(format_u64(0), "0");
    assert_eq!(format_u64(123), "123");
    assert_eq!(format_u64(u64::MAX), "18446744073709551615");
    assert_eq!(format_i64(-42), "-42");
    assert_eq!(format_i64(i64::MIN), "-9223372036854775808");
    assert_eq!(123usize.serialize(), "123");
    assert_eq!((-7i8).serialize(), "-7");
}

#[test]
fn strings_are_written_as_they_are() {
    assert_eq!("okay".to_string().serialize(), "okay");
    assert_eq!("a<b".serialize(), "a<b");
}

#[test]
fn integers_are_read_as_the_standard_library_reads_them() {
    for text in ["0", "+12", "-12", "007", "255", "256", "-129", "-128", "", "+", "-", "1x", "x1", "99999999999999999999x", " 1"] {
        let expected: Result<i8, _> = text.parse::<i8>();
        let got = <i8 as ValueDeserialize>::deserialize(text);
        match (expected, got) {
            (Ok(a), Ok(b)) => assert_eq!(a, b, "{text}"),
            (Err(_), Err(XmlError::InvalidValue(ParseValueError::ParseIntError(_)))) => {}
            (e, g) => panic!("{text}: {e:?} vs {g:?}"),
        }
        let expected: Result<u64, _> = text.parse::<u64>();
        let got = <u64 as ValueDeserialize>::deserialize(text);
        match (expected, got) {
            (Ok(a), Ok(b)) => assert_eq!(a, b, "{text}"),
            (Err(_), Err(XmlError::InvalidValue(ParseValueError::ParseIntError(_)))) => {}
            (e, g) => panic!("{text}: {e:?} vs {g:?}"),
        }
    }
}

#[test]
fn integer_error_kinds() {
    let p = |s: &str, min: i128, max: i128| parse_integer(&chars(s), min, max);
    assert_eq!(p("", -128, 127), Err(IntErrorKind::Empty));
    assert_eq!(p("+", -128, 127), Err(IntErrorKind::InvalidDigit));
    assert_eq!(p("-", 0, 255), Err(IntErrorKind::InvalidDigit));
    assert_eq!(p("-1", 0, 255), Err(IntErrorKind::InvalidDigit));
    assert_eq!(p("256", 0, 255), Err(IntErrorKind::PosOverflow));
    assert_eq!(p("-129", -128, 127), Err(IntErrorKind::NegOverflow));
    assert_eq!(p("9999x", 0, 255), Err(IntErrorKind::PosOverflow));
    assert_eq!(p("12x", 0, 255), Err(IntErrorKind::InvalidDigit));
    assert_eq!(p("-128", -128, 127), Ok(-128));
    assert_eq!(p("+0255", 0, 255), Ok(255));
}

#[test]
fn integer_values_read_back() {
    for v in [i64::MIN, -1, 0, 1, 123, i64::MAX] {
        assert_eq!(<i64 as ValueDeserialize>::deserialize(&v.serialize()).unwrap(), v);
    }
    for v in [0u16, 1, 65535] {
        assert_eq!(<u16 as ValueDeserialize>::deserialize(&v.serialize()).unwrap(), v);
    }
    assert_eq!(<String as ValueDeserialize>::deserialize("/asd").unwrap(), "/asd");
}
