use kei::ast::BinOp;
use kei::eval::{eval_binary, EvalError, Value};
use kei::pbt::{size_metric, value_size};

fn record() -> Value {
    Value::Record(vec![
        ("name".to_string(), Value::Str("a\"b".to_string())),
        ("tags".to_string(), Value::List(vec![Value::Int(-3), Value::Bool(true)])),
    ])
}

#[test]
fn value_display_text() {
    assert_eq!(Value::Int(-42).text(), "-42");
    assert_eq!(Value::List(vec![]).text(), "[]");
    assert_eq!(record().text(), "{ name: \"a\\\"b\", tags: [-3, true] }");
}

#[test]
fn value_sizes_saturate() {
    assert_eq!(value_size(&record()), 3 + (2 + 3 + 0));
    assert_eq!(value_size(&Value::Int(i64::MIN)), 1u64 << 63);
    let big = vec![Value::Int(i64::MIN), Value::Int(i64::MIN), Value::Int(5)];
    assert_eq!(size_metric(&big), u64::MAX);
}

#[test]
fn binary_operators_on_values() {
    assert!(matches!(eval_binary(BinOp::Add, Value::Int(2), Value::Int(3)), Ok(Value::Int(5))));
    assert!(matches!(eval_binary(BinOp::Add, Value::Int(i64::MAX), Value::Int(1)), Err(EvalError::Trap)));
    assert!(matches!(eval_binary(BinOp::Div, Value::Int(-7), Value::Int(2)), Ok(Value::Int(-3))));
    assert!(matches!(eval_binary(BinOp::Div, Value::Int(1), Value::Int(0)), Err(EvalError::Trap)));
    assert!(matches!(eval_binary(BinOp::Eq, record(), record()), Ok(Value::Bool(true))));
    assert!(matches!(eval_binary(BinOp::Implies, Value::Bool(false), Value::Bool(false)), Ok(Value::Bool(true))));
    assert!(matches!(eval_binary(BinOp::Rem, Value::Int(7), Value::Int(2)), Err(EvalError::Unsupported)));
}
