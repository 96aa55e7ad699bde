use brightctl::enums::{ParseError, ValueUpdate};
use std::str::FromStr;

#[test]
fn test_parse_50_percent_plus() {
    let val_1 = ValueUpdate::Relative(50);
    assert_eq!(ValueUpdate::from_str("50%+").unwrap(), val_1);
}

#[test]
fn test_parse_50_percent_minus() {
    let val_1 = ValueUpdate::Relative(-50);
    assert_eq!(ValueUpdate::from_str("50%-").unwrap(), val_1);
}

#[test]
fn test_parse_50_minus() {
    let val_1 = ValueUpdate::Delta(-50);
    assert_eq!(ValueUpdate::from_str("50-").unwrap(), val_1);
}

#[test]
fn test_parse_50_percent() {
    let val_1 = ValueUpdate::Absolute(50);
    assert_eq!(ValueUpdate::from_str("50%").unwrap(), val_1);
}

#[test]
fn test_parse_50() {
    let val_1 = ValueUpdate::Direct(50);
    assert_eq!(ValueUpdate::from_str("50").unwrap(), val_1);
}

#[test]
fn test_invalid_format() {
    assert!(ValueUpdate::from_str("-50").is_err());
    assert!(ValueUpdate::from_str("5-0").is_err());
    assert!(ValueUpdate::from_str("5a0").is_err());
    assert!(ValueUpdate::from_str("%50").is_err());
}

#[test]
fn parse_plus_is_delta() {
    assert_eq!(ValueUpdate::parse("50+").unwrap(), ValueUpdate::Delta(50));
    assert_eq!(ValueUpdate::parse("0+").unwrap(), ValueUpdate::Delta(0));
    assert_eq!(ValueUpdate::parse("007").unwrap(), ValueUpdate::Direct(7));
}

#[test]
fn parse_requires_digits() {
    for text in ["", "%", "+", "-", "%+", "%-", "+5", "5%%", "5+-", "5+%", "5 ", " 5", "\u{663}"] {
        assert!(ValueUpdate::parse(text).is_err(), "{text:?}");
    }
}

#[test]
fn parse_error_holds_the_text() {
    match ValueUpdate::parse("5a0") {
        Err(ParseError::InvalidFormat(t)) => assert_eq!(t, "5a0"),
        Ok(u) => panic!("parsed {u:?}"),
    }
}

#[test]
fn parse_limits_of_i64() {
    assert_eq!(
        ValueUpdate::parse("9223372036854775807").unwrap(),
        ValueUpdate::Direct(i64::MAX)
    );
    assert!(ValueUpdate::parse("9223372036854775808").is_err());
    assert!(ValueUpdate::parse("9223372036854775808+").is_err());
    assert_eq!(
        ValueUpdate::parse("9223372036854775808-").unwrap(),
        ValueUpdate::Delta(i64::MIN)
    );
    assert!(ValueUpdate::parse("9223372036854775809%-").is_err());
    assert!(ValueUpdate::parse("99999999999999999999999").is_err());
}

#[test]
fn formatted_updates_parse_back() {
    let cases = [
        ValueUpdate::Direct(0),
        ValueUpdate::Direct(123),
        ValueUpdate::Delta(17),
        ValueUpdate::Delta(-17),
        ValueUpdate::Absolute(80),
        ValueUpdate::Relative(5),
        ValueUpdate::Relative(-5),
        ValueUpdate::Delta(i64::MIN),
        ValueUpdate::Relative(i64::MAX),
    ];
    for u in cases {
        let text = match u {
            ValueUpdate::Direct(x) => format!("{}", x),
            ValueUpdate::Delta(x) => format!("{}{}", x.unsigned_abs(), if x < 0 { '-' } else { '+' }),
            ValueUpdate::Absolute(x) => format!("{}%", x),
            ValueUpdate::Relative(x) => {
                format!("{}%{}", x.unsigned_abs(), if x < 0 { '-' } else { '+' })
            }
        };
        assert_eq!(ValueUpdate::parse(&text).unwrap(), u, "{text}");
    }
}
