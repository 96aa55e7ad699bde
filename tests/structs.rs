use brightctl::structs::{parse_value, DeltaType, Sign, Value, ValueType};

#[test]
fn test_parse_value_50_percent_plus() {
    let val_1 = Value {
        val: 50,
        v_type: ValueType::RELATIVE,
        d_type: DeltaType::DELTA,
        sign: Sign::PLUS,
    };
    assert_eq!(parse_value("50%+").unwrap(), val_1);
}

#[test]
fn test_parse_value_50_percent_minus() {
    let val_1 = Value {
        val: 50,
        v_type: ValueType::RELATIVE,
        d_type: DeltaType::DELTA,
        sign: Sign::MINUS,
    };
    assert_eq!(parse_value("50%-").unwrap(), val_1);
}

#[test]
fn test_parse_value_50_minus() {
    let val_1 = Value {
        val: 50,
        v_type: ValueType::ABSOLUTE,
        d_type: DeltaType::DELTA,
        sign: Sign::MINUS,
    };
    assert_eq!(parse_value("50-").unwrap(), val_1);
}

#[test]
fn test_parse_value_50_percent() {
    let val_1 = Value {
        val: 50,
        v_type: ValueType::RELATIVE,
        d_type: DeltaType::DIRECT,
        sign: Sign::PLUS,
    };
    assert_eq!(parse_value("50%").unwrap(), val_1);
}

#[test]
fn test_parse_value_50() {
    let val_1 = Value {
        val: 50,
        v_type: ValueType::ABSOLUTE,
        d_type: DeltaType::DIRECT,
        sign: Sign::PLUS,
    };
    assert_eq!(parse_value("50").unwrap(), val_1);
}

#[test]
fn parse_value_rejects_text_outside_the_grammar() {
    assert!(parse_value("5a0").is_err());
    assert!(parse_value("-50").is_err());
    assert!(parse_value("").is_err());
    assert!(parse_value("18446744073709551616").is_err());
}

#[test]
fn parse_value_keeps_a_u64_magnitude() {
    let v = parse_value("18446744073709551615-").unwrap();
    assert_eq!(v.val, u64::MAX);
    assert_eq!(v.sign, Sign::MINUS);
    assert_eq!(v.d_type, DeltaType::DELTA);
}
