use flowlang::value::{Fault, Float, FloatTask, Operator, Outcome, Value, ValueType};

fn value_of(outcome: Result<Outcome, Fault>) -> Value {
    match outcome {
        Ok(Outcome::Value(value)) => value,
        other => panic!("no value: {:?}", other),
    }
}

fn float(x: f64) -> Float {
    Float { bits: x.to_bits() }
}

#[test]
fn program_test_convert_string_to_integer_when_ok() {
    let str_value = Value::String(String::from("999"));
    let integer_value = str_value.to_integer();

    assert!(integer_value.is_ok());

    let intval = value_of(integer_value);

    assert_eq!(intval, Value::Integer(999));

    assert_eq!(value_of(intval.add(&Value::Integer(1))), Value::Integer(1000));
}

#[test]
fn program_test_convert_string_to_integer_when_error() {
    let str_value = Value::String(String::from("asdasd"));
    let integer_value = str_value.to_integer();

    assert!(integer_value.is_err());
}

#[test]
fn value_test_convert_string_to_integer_when_ok() {
    let str_value = Value::String(String::from("999"));
    let integer_value = str_value.to_integer();

    assert!(integer_value.is_ok());

    let intval = value_of(integer_value);

    assert_eq!(intval, Value::Integer(999));

    assert_eq!(value_of(intval.add(&Value::Integer(1))), Value::Integer(1000));
}

#[test]
fn value_test_convert_string_to_integer_when_error() {
    let str_value = Value::String(String::from("asdasd"));
    let integer_value = str_value.to_integer();

    assert!(integer_value.is_err());
}

#[test]
fn failed_conversion_names_the_text() {
    assert_eq!(
        Value::String(String::from("asdasd")).to_integer(),
        Err(Fault::ConversionFailure {
            to: ValueType::Integer,
            value: Value::String(String::from("asdasd")),
        })
    );
}

#[test]
fn integers_add() {
    assert_eq!(
        Value::Integer(2).add(&Value::Integer(3)),
        Ok(Outcome::Value(Value::Integer(5)))
    );
}

#[test]
fn booleans_add_as_or() {
    assert_eq!(
        Value::Boolean(true).add(&Value::Boolean(false)),
        Ok(Outcome::Value(Value::Boolean(true)))
    );
    assert_eq!(
        Value::Boolean(false).add(&Value::Boolean(false)),
        Ok(Outcome::Value(Value::Boolean(false)))
    );
}

#[test]
fn booleans_multiply_as_and() {
    assert_eq!(
        value_of(Value::Boolean(true).multiply(&Value::Boolean(false))),
        Value::Boolean(false)
    );
    assert_eq!(
        value_of(Value::Boolean(true).multiply(&Value::Boolean(true))),
        Value::Boolean(true)
    );
}

#[test]
fn texts_do_not_subtract() {
    let result = Value::String("a".to_string()).subtract(&Value::String("b".to_string()));
    assert_eq!(
        result,
        Err(Fault::InvalidOperands {
            op: Operator::Subtract,
            left: Value::String("a".to_string()),
            right: Value::String("b".to_string()),
        })
    );
}

#[test]
fn texts_concatenate() {
    assert_eq!(
        value_of(Value::String("ab".to_string()).add(&Value::String("cd".to_string()))),
        Value::String("abcd".to_string())
    );
}

#[test]
fn arrays_concatenate() {
    let left = Value::Array(vec![Value::Integer(1)]);
    let right = Value::Array(vec![Value::Boolean(true), Value::Integer(2)]);
    assert_eq!(
        value_of(left.add(&right)),
        Value::Array(vec![Value::Integer(1), Value::Boolean(true), Value::Integer(2)])
    );
}

#[test]
fn arrays_do_not_compare() {
    let left = Value::Array(vec![]);
    let right = Value::Array(vec![]);
    assert!(matches!(left.eq(&right), Err(Fault::InvalidOperands { .. })));
    assert!(matches!(left.more(&right), Err(Fault::InvalidOperands { .. })));
    assert!(matches!(left.multiply(&right), Err(Fault::InvalidOperands { .. })));
}

#[test]
fn unmatched_variants_fault() {
    assert_eq!(
        Value::Integer(1).add(&Value::Boolean(true)),
        Err(Fault::InvalidOperands {
            op: Operator::Add,
            left: Value::Integer(1),
            right: Value::Boolean(true),
        })
    );
    assert!(Value::String("1".to_string()).less(&Value::Integer(2)).is_err());
}

#[test]
fn integer_arithmetic() {
    assert_eq!(value_of(Value::Integer(7).subtract(&Value::Integer(9))), Value::Integer(-2));
    assert_eq!(value_of(Value::Integer(7).multiply(&Value::Integer(-3))), Value::Integer(-21));
    assert_eq!(value_of(Value::Integer(7).divide(&Value::Integer(2))), Value::Integer(3));
    assert_eq!(value_of(Value::Integer(-7).divide(&Value::Integer(2))), Value::Integer(-3));
    assert_eq!(value_of(Value::Integer(2).power(&Value::Integer(10))), Value::Integer(1024));
    assert_eq!(value_of(Value::Integer(-3).power(&Value::Integer(3))), Value::Integer(-27));
    assert_eq!(value_of(Value::Integer(5).power(&Value::Integer(0))), Value::Integer(1));
}

#[test]
fn integer_comparisons() {
    assert_eq!(value_of(Value::Integer(1).more(&Value::Integer(0))), Value::Boolean(true));
    assert_eq!(value_of(Value::Integer(1).less(&Value::Integer(0))), Value::Boolean(false));
    assert_eq!(value_of(Value::Integer(4).eq(&Value::Integer(4))), Value::Boolean(true));
    assert_eq!(value_of(Value::Integer(4).more(&Value::Integer(4))), Value::Boolean(false));
}

#[test]
fn text_and_boolean_comparisons() {
    assert_eq!(
        value_of(Value::String("b".to_string()).more(&Value::String("a".to_string()))),
        Value::Boolean(true)
    );
    assert_eq!(
        value_of(Value::String("ab".to_string()).less(&Value::String("b".to_string()))),
        Value::Boolean(true)
    );
    assert_eq!(
        value_of(Value::String("a".to_string()).eq(&Value::String("a".to_string()))),
        Value::Boolean(true)
    );
    assert_eq!(
        value_of(Value::Boolean(true).more(&Value::Boolean(false))),
        Value::Boolean(true)
    );
    assert_eq!(
        value_of(Value::Boolean(true).eq(&Value::Boolean(false))),
        Value::Boolean(false)
    );
}

#[test]
fn overflow_is_a_fault() {
    assert_eq!(
        Value::Integer(i64::MAX).add(&Value::Integer(1)),
        Err(Fault::Overflow { op: Operator::Add, former: i64::MAX, latter: 1 })
    );
    assert_eq!(
        Value::Integer(i64::MIN).subtract(&Value::Integer(1)),
        Err(Fault::Overflow { op: Operator::Subtract, former: i64::MIN, latter: 1 })
    );
    assert!(matches!(
        Value::Integer(i64::MAX).multiply(&Value::Integer(2)),
        Err(Fault::Overflow { .. })
    ));
    assert!(matches!(
        Value::Integer(10).power(&Value::Integer(19)),
        Err(Fault::Overflow { .. })
    ));
    assert!(matches!(
        Value::Integer(i64::MIN).divide(&Value::Integer(-1)),
        Err(Fault::Overflow { .. })
    ));
}

#[test]
fn division_by_zero_is_a_fault() {
    assert_eq!(
        Value::Integer(3).divide(&Value::Integer(0)),
        Err(Fault::DivisionByZero { dividend: 3 })
    );
}

#[test]
fn negative_exponent_is_a_fault() {
    assert_eq!(
        Value::Integer(2).power(&Value::Integer(-1)),
        Err(Fault::InvalidOperands {
            op: Operator::Power,
            left: Value::Integer(2),
            right: Value::Integer(-1),
        })
    );
}

#[test]
fn floats_go_to_the_host() {
    assert_eq!(
        Value::Float(float(1.5)).add(&Value::Float(float(2.0))),
        Ok(Outcome::Host(FloatTask::Binary {
            op: Operator::Add,
            left: float(1.5),
            right: float(2.0),
        }))
    );
    assert_eq!(
        Value::Float(float(1.5)).to_integer(),
        Ok(Outcome::Host(FloatTask::Truncate(float(1.5))))
    );
    assert_eq!(
        Value::Float(float(0.0)).to_bool(),
        Ok(Outcome::Host(FloatTask::Truth(float(0.0))))
    );
    assert_eq!(
        Value::Float(float(2.5)).to_string(),
        Ok(Outcome::Host(FloatTask::Format(float(2.5))))
    );
    assert_eq!(
        Value::Integer(3).to_float(),
        Ok(Outcome::Host(FloatTask::FromInteger(3)))
    );
    assert_eq!(
        Value::String("2.5".to_string()).to_float(),
        Ok(Outcome::Host(FloatTask::Parse("2.5".to_string())))
    );
    assert_eq!(
        value_of(Value::Float(float(2.5)).to_float()),
        Value::Float(float(2.5))
    );
}

#[test]
fn truthiness() {
    assert_eq!(value_of(Value::Integer(0).to_bool()), Value::Boolean(false));
    assert_eq!(value_of(Value::Integer(-4).to_bool()), Value::Boolean(true));
    assert_eq!(value_of(Value::String(String::new()).to_bool()), Value::Boolean(false));
    assert_eq!(value_of(Value::String("x".to_string()).to_bool()), Value::Boolean(true));
    assert_eq!(value_of(Value::Boolean(true).to_bool()), Value::Boolean(true));
}

#[test]
fn scalar_conversions() {
    assert_eq!(value_of(Value::Integer(42).to_integer()), Value::Integer(42));
    assert_eq!(value_of(Value::Boolean(true).to_integer()), Value::Integer(1));
    assert_eq!(value_of(Value::Boolean(false).to_integer()), Value::Integer(0));
    assert_eq!(value_of(Value::String("-17".to_string()).to_integer()), Value::Integer(-17));
    assert_eq!(value_of(Value::Integer(-42).to_string()), Value::String("-42".to_string()));
    assert_eq!(value_of(Value::Boolean(true).to_string()), Value::String("true".to_string()));
    assert_eq!(
        value_of(Value::String("abc".to_string()).to_string()),
        Value::String("abc".to_string())
    );
}

#[test]
fn integer_texts_out_of_range_fail() {
    assert_eq!(
        value_of(Value::String("9223372036854775807".to_string()).to_integer()),
        Value::Integer(i64::MAX)
    );
    assert_eq!(
        value_of(Value::String("-9223372036854775808".to_string()).to_integer()),
        Value::Integer(i64::MIN)
    );
    assert!(Value::String("9223372036854775808".to_string()).to_integer().is_err());
    assert!(Value::String("".to_string()).to_integer().is_err());
    assert!(Value::String("-".to_string()).to_integer().is_err());
    assert!(Value::String("12a".to_string()).to_integer().is_err());
}

#[test]
fn arrays_do_not_convert() {
    let array = Value::Array(vec![Value::Integer(1)]);
    assert_eq!(
        array.to_integer(),
        Err(Fault::ConversionFailure {
            to: ValueType::Integer,
            value: Value::Array(vec![Value::Integer(1)]),
        })
    );
    assert!(matches!(array.to_bool(), Err(Fault::ConversionFailure { to: ValueType::Boolean, .. })));
    assert!(matches!(array.to_string(), Err(Fault::ConversionFailure { to: ValueType::String, .. })));
    assert!(matches!(array.to_float(), Err(Fault::ConversionFailure { to: ValueType::Float, .. })));
}

#[test]
fn variants_and_listing_texts() {
    assert_eq!(Value::Integer(1).value_type(), ValueType::Integer);
    assert_eq!(Value::Float(float(1.0)).value_type(), ValueType::Float);
    assert_eq!(Value::Boolean(true).value_type(), ValueType::Boolean);
    assert_eq!(Value::String(String::new()).value_type(), ValueType::String);
    assert_eq!(Value::Array(vec![]).value_type(), ValueType::Array);
    assert_eq!(Value::Integer(-5).raw(), "-5");
    assert_eq!(Value::Boolean(false).raw(), "false");
    assert_eq!(Value::String("$X".to_string()).raw(), "$X");
    assert_eq!(Value::Float(Float { bits: 7 }).raw(), "float:7");
}

#[test]
fn copies_are_equal() {
    let value = Value::Array(vec![
        Value::Integer(1),
        Value::String("a".to_string()),
        Value::Array(vec![Value::Boolean(true)]),
    ]);
    assert_eq!(value.clone(), value);
}
