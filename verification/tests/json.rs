use cumin::errors::EvalError;
use cumin::host::{Answer, Host, Request};
use cumin::json::JSON;
use cumin::json::JSON::{Array, Bool, Dict, Int, Nat, Null, Str};
use cumin::numeric::FloatTerm;
use cumin::parser::typing::Typing;
use cumin::parser::value::Value;

#[test]
fn test_stringify() {
    assert_eq!(Nat(3).stringify(), "3".to_string());
    assert_eq!(Int(-3).stringify(), "-3".to_string());
    assert_eq!(Bool(true).stringify(), "true".to_string());
    assert_eq!(Bool(false).stringify(), "false".to_string());
    assert_eq!(
            Dict(vec![
                ("arr".to_string(), Array(vec![Nat(1), Nat(2), Nat(3)])),
                ("str".to_string(), Str("Hello".to_string())),
                ("str_complicated".to_string(), Str("He\nl\tlo\"".to_string())),
                ("dict_empty".to_string(), Dict(vec![])),
            ])
            .stringify(),
            "{\"arr\":[1,2,3],\"str\":\"Hello\",\"str_complicated\":\"He\\nl\\tlo\\\"\",\"dict_empty\":{}}".to_string()
        );
    assert_eq!(
        Array(vec![Array(vec![]), Nat(1), Nat(2), Str("3".to_string())]).stringify(),
        "[[],1,2,\"3\"]"
    );
    assert_eq!(Array(vec![Null, Nat(1)]).stringify(), "[null,1]");
}

#[test]
fn stringify_numbers() {
    assert_eq!(Nat(0).stringify(), "0");
    assert_eq!(Nat(10).stringify(), "10");
    assert_eq!(
        Nat(u128::MAX).stringify(),
        "340282366920938463463374607431768211455"
    );
    assert_eq!(
        Int(i128::MIN).stringify(),
        "-170141183460469231731687303715884105728"
    );
    assert_eq!(Int(i128::MAX).stringify(), i128::MAX.to_string());
    assert_eq!(JSON::Float("0.5".to_string()).stringify(), "0.5");
    assert_eq!(Null.stringify(), "null");
}

#[test]
fn integers_read_back_by_a_json_reader() {
    let limit: u64 = (1 << 53) - 1;
    for n in [0u64, 1, 9, 10, 4294967296, limit] {
        let text = Nat(n as u128).stringify();
        let back: serde_json::Value = serde_json::from_str(&text).unwrap();
        assert_eq!(back.as_u64(), Some(n));
        let text = Int(-(n as i128)).stringify();
        let back: serde_json::Value = serde_json::from_str(&text).unwrap();
        assert_eq!(back.as_i64(), Some(-(n as i64)));
    }
}

#[test]
fn strings_read_back_by_a_json_reader() {
    let samples = [
        "",
        "hoge",
        "He\nl\tlo\"",
        "back\\slash",
        "quote'single",
        "\r\n",
        "\u{0}\u{1}\u{1f}\u{7f}",
        "\u{8}\u{c}",
        "日本語 ü €",
        "/slash",
    ];
    for s in samples {
        let text = Str(s.to_string()).stringify();
        let back: serde_json::Value = serde_json::from_str(&text).unwrap();
        assert_eq!(back.as_str(), Some(s));
        let object = Dict(vec![(s.to_string(), Null)]).stringify();
        let back: serde_json::Value = serde_json::from_str(&object).unwrap();
        assert!(back.as_object().unwrap().contains_key(s));
    }
    assert_eq!(Str("\u{1}".to_string()).stringify(), "\"\\u0001\"");
    assert_eq!(Str("\u{1f}".to_string()).stringify(), "\"\\u001f\"");
}

#[test]
fn stringify_is_the_same_each_time() {
    let value = Dict(vec![
        ("b".to_string(), Array(vec![Nat(1), Null])),
        ("a".to_string(), Str("x".to_string())),
    ]);
    assert_eq!(value.stringify(), value.stringify());
    assert_eq!(value.stringify(), "{\"b\":[1,null],\"a\":\"x\"}");
}

#[test]
fn from_cumin_projects_values() {
    let host = Host::new();
    let project = |v: Value| JSON::from_cumin(v, &host);
    assert_eq!(project(Value::Nat(1)), Ok(Nat(1)));
    assert_eq!(project(Value::Int(-1)), Ok(Int(-1)));
    assert_eq!(project(Value::Bool(true)), Ok(Bool(true)));
    assert_eq!(
        project(Value::Str("s".to_string())),
        Ok(Str("s".to_string()))
    );
    assert_eq!(
        project(Value::EnumVariant("X".to_string(), "Park".to_string())),
        Ok(Str("Park".to_string()))
    );
    assert_eq!(
        project(Value::Dict(
            Some("P".to_string()),
            vec![
                ("y".to_string(), Value::Nat(2)),
                ("x".to_string(), Value::Nat(1))
            ]
        )),
        Ok(Dict(vec![
            ("y".to_string(), Nat(2)),
            ("x".to_string(), Nat(1))
        ]))
    );
    assert_eq!(
        project(Value::Array(
            Typing::Option(Box::new(Typing::Nat)),
            vec![
                Value::Optional(Typing::Nat, Box::new(None)),
                Value::Optional(Typing::Nat, Box::new(Some(Value::Nat(1))))
            ]
        )),
        Ok(Array(vec![Null, Nat(1)]))
    );
    assert_eq!(
        project(Value::Tuple(vec![Value::Nat(1), Value::Bool(false)])),
        Ok(Array(vec![Nat(1), Bool(false)]))
    );
    assert_eq!(
        project(Value::Wrapped(
            Typing::UserTyping("T".to_string()),
            Box::new(Value::Int(1))
        )),
        Ok(Int(1))
    );
    assert_eq!(
        project(Value::Env("HOME".to_string(), None)),
        Err(EvalError::NameError)
    );
}

#[test]
fn from_cumin_asks_for_the_text_of_a_float() {
    let term = FloatTerm::Text("0.50".to_string());
    let mut host = Host::new();
    assert_eq!(
        JSON::from_cumin(Value::Float(term.clone()), &host),
        Err(EvalError::Pending(Request::FloatText(term.clone())))
    );
    host.push(Request::FloatText(term.clone()), Answer::Text("0.5".to_string()));
    assert_eq!(
        JSON::from_cumin(Value::Float(term.clone()), &host),
        Ok(JSON::Float("0.5".to_string()))
    );
    host.push(Request::FloatText(FloatTerm::Nat(1)), Answer::Nat(1));
    assert_eq!(
        JSON::from_cumin(Value::Float(FloatTerm::Nat(1)), &host),
        Err(EvalError::Pending(Request::FloatText(FloatTerm::Nat(1))))
    );
}
