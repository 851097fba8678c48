use cumin::errors::EvalError;
use cumin::host::{Answer, Host, Request};
use cumin::numeric::{FloatOp, FloatTerm};
use cumin::parser::typing::Typing;
use cumin::parser::value::value;
use cumin::parser::value::Value;
use cumin::parser::value::Value::{Array, Bool, Float, Int, Nat, Optional, Str};

fn number(term: &FloatTerm) -> f64 {
    match term {
        FloatTerm::Text(text) => text.parse().unwrap(),
        FloatTerm::Nat(n) => *n as f64,
        FloatTerm::Int(n) => *n as f64,
        FloatTerm::Neg(x) => -number(x),
        FloatTerm::Binary(op, x, y) => {
            let a = number(x);
            let b = number(y);
            match op {
                FloatOp::Add => a + b,
                FloatOp::Sub => a - b,
                FloatOp::Mul => a * b,
                FloatOp::Div => a / b,
                FloatOp::Rem => a % b,
                FloatOp::Pow => a.powf(b),
            }
        }
        FloatTerm::PowNat(x, n) => number(x).powi(*n as i32),
        FloatTerm::PowInt(x, n) => number(x).powi(*n as i32),
    }
}

/// A floating-point value, as the literal that denotes it.
fn float(x: f64) -> Value {
    Float(FloatTerm::Text(format!("{:?}", x)))
}

/// The value with every floating-point term replaced by the literal of
/// the number that it denotes.
fn settled(v: Value) -> Value {
    match v {
        Float(term) => float(number(&term)),
        Array(t, xs) => Array(t, xs.into_iter().map(settled).collect()),
        Value::Tuple(xs) => Value::Tuple(xs.into_iter().map(settled).collect()),
        Optional(t, x) => Optional(t, Box::new((*x).map(settled))),
        Value::Dict(name, fields) => Value::Dict(
            name,
            fields.into_iter().map(|(k, v)| (k, settled(v))).collect(),
        ),
        Value::Wrapped(t, x) => Value::Wrapped(t, Box::new(settled(*x))),
        other => other,
    }
}

fn assert_value(code: &str, expected: Value) {
    let (rest, v) = value(code).unwrap();
    assert_eq!(rest, "");
    assert_eq!(settled(v), settled(expected));
}

#[test]
fn test_num() {
    assert_value("0", Value::Nat(0));
    assert_value("123", Value::Nat(123));
    assert_value("-123", Value::Int(-123));
    assert_value("123_456_789", Value::Nat(123_456_789));
    assert_value("0.0", float(0.0));
    assert_value("0.5", float(0.5));
    assert_value("-0.5", float(-0.5));
    assert_value("100_000.0", float(100000.0));
    assert_value("0.000_000_001", float(0.000000001));
    assert_value("123_456.000_000_001", float(123456.000000001));
}

#[test]
fn test_const() {
    assert_value("true", Value::Bool(true));
    assert_value("false", Value::Bool(false));
    assert_value("None", Value::Optional(Typing::Any, Box::new(None)));
}

#[test]
fn test_str() {
    assert_value("\"\"", Value::Str("".to_string()));
    assert_value("\"hoge\"", Value::Str("hoge".to_string()));
    assert_value("\"hoge !?\"", Value::Str("hoge !?".to_string()));
    assert_value("\"ho\\nge\"", Value::Str("ho\nge".to_string()));
    assert_value("\"ho\\\"ge\"", Value::Str("ho\"ge".to_string()));
    assert_value("\"ho\\\\ge\\'\"", Value::Str("ho\\ge'".to_string()));
    assert_value(
        "\"[\\n\\r\\t][\\\\][\\\"\\\']\"",
        Value::Str("[\n\r\t][\\][\"\']".to_string()),
    );
}

#[test]
fn value_test_enum() {
    assert_value(
        "X::Zoo",
        Value::EnumVariant("X".to_string(), "Zoo".to_string()),
    );
}

#[test]
fn test_env() {
    assert_value("$USER", Value::Env("USER".to_string(), None));
    assert_value("${USER}", Value::Env("USER".to_string(), None));
    assert_value(
        "${USER:-hoge}",
        Value::Env("USER".to_string(), Some("hoge".to_string())),
    );
}

fn assert_cast(val: Value, typ: Typing, expected: Value) {
    assert_eq!(settled(val.cast(&typ).unwrap()), settled(expected));
}

#[test]
fn test_cast() {
    assert_cast(Nat(0), Typing::Nat, Nat(0));
    assert_cast(Nat(0), Typing::Int, Int(0));
    assert_cast(Nat(0), Typing::Float, float(0.0));
    assert_cast(Int(0), Typing::Int, Int(0));
    assert_cast(Int(0), Typing::Float, float(0.0));
    assert_cast(Str("0".to_string()), Typing::String, Str("0".to_string()));
    assert_cast(Bool(true), Typing::Bool, Bool(true));
    assert_cast(Bool(false), Typing::Bool, Bool(false));
    assert_cast(
        Optional(Typing::Any, Box::new(None)),
        Typing::Option(Box::new(Typing::Int)),
        Optional(Typing::Int, Box::new(None)),
    );
    assert_cast(
        Optional(Typing::Nat, Box::new(Some(Nat(0)))),
        Typing::Option(Box::new(Typing::Int)),
        Optional(Typing::Int, Box::new(Some(Int(0)))),
    );
    assert_cast(
        Array(Typing::Any, vec![Nat(0), Int(-1), float(0.5)]),
        Typing::Array(Box::new(Typing::Float)),
        Array(Typing::Float, vec![float(0.0), float(-1.0), float(0.5)]),
    );
}

fn assert_coerce(val: Value, typ: Typing, expected: Value) {
    assert_eq!(val.coerce(&typ, &Host::new()).unwrap(), expected);
}

#[test]
fn test_coerce() {
    assert_coerce(Nat(0), Typing::String, Str("0".to_string()));
    assert_coerce(Int(0), Typing::String, Str("0".to_string()));
    assert_coerce(Int(0), Typing::Nat, Nat(0));
    assert_coerce(Str("0".to_string()), Typing::Nat, Nat(0));
    assert_coerce(Str("0".to_string()), Typing::Int, Int(0));
    assert_coerce(Str("true".to_string()), Typing::Bool, Bool(true));
    assert_coerce(Str("false".to_string()), Typing::Bool, Bool(false));
}

fn assert_type_of(val: Value, typ: Typing) {
    assert_eq!(val.type_of(), typ);
}

#[test]
fn test_type_of() {
    assert_type_of(Value::Int(1), Typing::Int);
    assert_type_of(
        Value::Optional(Typing::Any, Box::new(None)),
        Typing::Option(Box::new(Typing::Any)),
    );
    assert_type_of(
        Value::Optional(Typing::Nat, Box::new(Some(Value::Nat(2)))),
        Typing::Option(Box::new(Typing::Nat)),
    );
    assert_type_of(
        Value::Array(Typing::Any, vec![]),
        Typing::Array(Box::new(Typing::Any)),
    );
    assert_type_of(
        Value::Array(Typing::Nat, vec![]),
        Typing::Array(Box::new(Typing::Nat)),
    );
    assert_type_of(
        Value::Array(Typing::Int, vec![Value::Int(1)]),
        Typing::Array(Box::new(Typing::Int)),
    );
}

#[test]
fn type_of_the_other_values() {
    assert_type_of(Nat(1), Typing::Nat);
    assert_type_of(float(0.5), Typing::Float);
    assert_type_of(Bool(true), Typing::Bool);
    assert_type_of(Str("s".to_string()), Typing::String);
    assert_type_of(Value::Env("HOME".to_string(), None), Typing::String);
    assert_type_of(Value::Dict(None, vec![]), Typing::Any);
    assert_type_of(
        Value::Dict(Some("P".to_string()), vec![]),
        Typing::UserTyping("P".to_string()),
    );
    assert_type_of(
        Value::EnumVariant("X".to_string(), "Zoo".to_string()),
        Typing::UserTyping("X".to_string()),
    );
    assert_type_of(
        Value::Tuple(vec![Nat(1), Bool(true)]),
        Typing::Tuple(vec![Typing::Nat, Typing::Bool]),
    );
    assert_type_of(
        Value::Wrapped(Typing::UserTyping("T".to_string()), Box::new(Int(1))),
        Typing::UserTyping("T".to_string()),
    );
}

#[test]
fn a_value_casts_to_its_own_type() {
    let samples = vec![
        Nat(1),
        Int(-1),
        float(0.5),
        Bool(true),
        Str("s".to_string()),
        Value::Env("HOME".to_string(), Some("x".to_string())),
        Value::Dict(None, vec![("a".to_string(), Nat(1))]),
        Value::Dict(Some("P".to_string()), vec![("a".to_string(), Int(1))]),
        Value::EnumVariant("X".to_string(), "Zoo".to_string()),
        Array(Typing::Int, vec![Int(1), Int(-1)]),
        Array(Typing::Nat, vec![Int(-1)]),
        Value::Tuple(vec![Nat(1), Str("x".to_string())]),
        Optional(Typing::Nat, Box::new(Some(Nat(1)))),
        Optional(Typing::Any, Box::new(None)),
        Value::Wrapped(Typing::UserTyping("T".to_string()), Box::new(Int(1))),
    ];
    for v in samples {
        let t = v.type_of();
        assert_eq!(v.cast(&t), Ok(v.clone()));
        assert_eq!(v.cast(&Typing::Any), Ok(v.clone()));
    }
}

#[test]
fn casts_that_fail() {
    assert_eq!(Int(1).cast(&Typing::Nat), Err(EvalError::TypeError));
    assert_eq!(float(1.0).cast(&Typing::Int), Err(EvalError::TypeError));
    assert_eq!(Nat(1).cast(&Typing::String), Err(EvalError::TypeError));
    assert_eq!(
        Nat(u128::MAX).cast(&Typing::Int),
        Err(EvalError::TypeError)
    );
    assert_eq!(
        Nat(i128::MAX as u128).cast(&Typing::Int),
        Ok(Int(i128::MAX))
    );
    assert_eq!(
        Array(Typing::Int, vec![Int(-1)]).cast(&Typing::Array(Box::new(Typing::Nat))),
        Err(EvalError::TypeError)
    );
    assert_eq!(
        Array(Typing::Int, vec![]).cast(&Typing::Array(Box::new(Typing::String))),
        Err(EvalError::TypeError)
    );
    assert_eq!(
        Array(Typing::Int, vec![]).cast(&Typing::Array(Box::new(Typing::Nat))),
        Ok(Array(Typing::Int, vec![]))
    );
    assert_eq!(
        Value::Dict(Some("P".to_string()), vec![]).cast(&Typing::UserTyping("Q".to_string())),
        Err(EvalError::TypeError)
    );
    assert_eq!(
        Value::Dict(None, vec![]).cast(&Typing::UserTyping("P".to_string())),
        Err(EvalError::TypeError)
    );
    assert_eq!(
        Optional(Typing::Int, Box::new(Some(Int(-1)))).cast(&Typing::Option(Box::new(Typing::Nat))),
        Err(EvalError::TypeError)
    );
}

#[test]
fn coerce_reads_and_writes_numbers() {
    let host = Host::new();
    assert_eq!(
        Nat(u128::MAX).coerce(&Typing::String, &host),
        Ok(Str("340282366920938463463374607431768211455".to_string()))
    );
    assert_eq!(
        Int(i128::MIN).coerce(&Typing::String, &host),
        Ok(Str("-170141183460469231731687303715884105728".to_string()))
    );
    assert_eq!(
        Str("340282366920938463463374607431768211455".to_string()).coerce(&Typing::Nat, &host),
        Ok(Nat(u128::MAX))
    );
    assert_eq!(
        Str("340282366920938463463374607431768211456".to_string()).coerce(&Typing::Nat, &host),
        Err(EvalError::TypeError)
    );
    assert_eq!(
        Str("-170141183460469231731687303715884105728".to_string()).coerce(&Typing::Int, &host),
        Ok(Int(i128::MIN))
    );
    assert_eq!(
        Str("-170141183460469231731687303715884105729".to_string()).coerce(&Typing::Int, &host),
        Err(EvalError::TypeError)
    );
    assert_eq!(Str("+7".to_string()).coerce(&Typing::Nat, &host), Ok(Nat(7)));
    assert_eq!(Str("+7".to_string()).coerce(&Typing::Int, &host), Ok(Int(7)));
    assert_eq!(Str("007".to_string()).coerce(&Typing::Nat, &host), Ok(Nat(7)));
    for bad in ["", "+", "-", "1_0", " 1", "1 ", "-1", "1.0", "x"] {
        assert_eq!(
            Str(bad.to_string()).coerce(&Typing::Nat, &host),
            Err(EvalError::TypeError),
            "{}",
            bad
        );
    }
    assert_eq!(Int(-1).coerce(&Typing::Nat, &host), Err(EvalError::TypeError));
    assert_eq!(Int(5).coerce(&Typing::Nat, &host), Ok(Nat(5)));
    assert_eq!(
        Str("yes".to_string()).coerce(&Typing::Bool, &host),
        Err(EvalError::TypeError)
    );
    assert_eq!(Nat(1).coerce(&Typing::Int, &host), Ok(Int(1)));
}

#[test]
fn coerce_asks_the_host_about_floats() {
    let half = FloatTerm::Text("0.5".to_string());
    let mut host = Host::new();
    assert_eq!(
        Float(half.clone()).coerce(&Typing::Nat, &host),
        Err(EvalError::Pending(Request::FloatToNat(half.clone())))
    );
    assert_eq!(
        Float(half.clone()).coerce(&Typing::Int, &host),
        Err(EvalError::Pending(Request::FloatToInt(half.clone())))
    );
    assert_eq!(
        Float(half.clone()).coerce(&Typing::String, &host),
        Err(EvalError::Pending(Request::FloatText(half.clone())))
    );
    assert_eq!(
        Str("0.5".to_string()).coerce(&Typing::Float, &host),
        Err(EvalError::Pending(Request::FloatParse("0.5".to_string())))
    );
    host.push(Request::FloatToNat(half.clone()), Answer::Nat(0));
    host.push(Request::FloatToInt(half.clone()), Answer::Int(0));
    host.push(Request::FloatText(half.clone()), Answer::Text("0.5".to_string()));
    host.push(Request::FloatParse("0.5".to_string()), Answer::Flag(true));
    host.push(Request::FloatParse("x".to_string()), Answer::Flag(false));
    assert_eq!(Float(half.clone()).coerce(&Typing::Nat, &host), Ok(Nat(0)));
    assert_eq!(Float(half.clone()).coerce(&Typing::Int, &host), Ok(Int(0)));
    assert_eq!(
        Float(half.clone()).coerce(&Typing::String, &host),
        Ok(Str("0.5".to_string()))
    );
    assert_eq!(
        Str("0.5".to_string()).coerce(&Typing::Float, &host),
        Ok(Float(half.clone()))
    );
    assert_eq!(
        Str("x".to_string()).coerce(&Typing::Float, &host),
        Err(EvalError::TypeError)
    );
    assert_eq!(Float(half.clone()).coerce(&Typing::Float, &host), Ok(Float(half)));
}

#[test]
fn literals_that_the_grammar_refuses() {
    assert!(value("").is_err());
    assert!(value("x").is_err());
    assert!(value("\"open").is_err());
    assert!(value("\"bad \\q\"").is_err());
    assert!(value("\"end\\").is_err());
    assert!(value("340282366920938463463374607431768211456").is_err());
    assert!(value("-170141183460469231731687303715884105729").is_err());
    assert!(value("${USER:-}").is_err());
    assert!(value("$").is_err());
    assert_eq!(value("_1").unwrap_err().rest, "_1");
}

#[test]
fn literals_leave_what_follows() {
    assert_eq!(value("1.").unwrap(), (".".to_string(), Nat(1)));
    assert_eq!(value("1_.5").unwrap(), (String::new(), settled_text("1.5")));
    assert_eq!(value("-.5x").unwrap(), ("x".to_string(), settled_text("-.5")));
    assert_eq!(value("trueish").unwrap(), ("ish".to_string(), Bool(true)));
    assert_eq!(
        value("340282366920938463463374607431768211455").unwrap(),
        (String::new(), Nat(u128::MAX))
    );
    assert_eq!(
        value("-170141183460469231731687303715884105728").unwrap(),
        (String::new(), Int(i128::MIN))
    );
    assert_eq!(value("-0").unwrap(), (String::new(), Int(0)));
    assert_eq!(
        value("\"a\"b").unwrap(),
        ("b".to_string(), Str("a".to_string()))
    );
}

fn settled_text(text: &str) -> Value {
    Float(FloatTerm::Text(text.to_string()))
}
