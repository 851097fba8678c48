use cumin::errors::{CompileError, EvalError};
use cumin::eval::eval;
use cumin::host::{Answer, FloatOrder, Host, Request};
use cumin::json::JSON;
use cumin::numeric::{FloatOp, FloatTerm};
use cumin::parser::module::cumin;
use cumin::parser::typing::Typing;
use cumin::parser::value::Value;

fn number(term: &FloatTerm) -> f64 {
    match term {
        FloatTerm::Text(text) => text.parse().unwrap(),
        FloatTerm::Nat(n) => *n as f64,
        FloatTerm::Int(n) => *n as f64,
        FloatTerm::Neg(x) => -number(x),
        FloatTerm::Binary(op, x, y) => {
            let a = number(x);
            let b = number(y);
            match op {
                FloatOp::Add => a + b,
                FloatOp::Sub => a - b,
                FloatOp::Mul => a * b,
                FloatOp::Div => a / b,
                FloatOp::Rem => a % b,
                FloatOp::Pow => a.powf(b),
            }
        }
        FloatTerm::PowNat(x, n) => number(x).powi(*n as i32),
        FloatTerm::PowInt(x, n) => number(x).powi(*n as i32),
    }
}

fn answer(request: &Request) -> Answer {
    match request {
        Request::EnvVar(name) => {
            if name == "CUMIN_TEST_USER" {
                Answer::Text("alice".to_string())
            } else {
                Answer::Absent
            }
        }
        Request::Module(path, _) => {
            if path == "point.cumin" {
                Answer::Module(
                    "/lib/point.cumin".to_string(),
                    "struct Point { x: Int, y: Int = 0 } let origin = Point(0); use \"point.cumin\";"
                        .to_string(),
                )
            } else if path == "locked.cumin" {
                Answer::Unreadable("/lib/locked.cumin".to_string())
            } else {
                Answer::Absent
            }
        }
        Request::FloatOrder(x, y) => {
            let a = number(x);
            let b = number(y);
            Answer::Order(if a < b {
                FloatOrder::Less
            } else if a == b {
                FloatOrder::Equal
            } else if a > b {
                FloatOrder::Greater
            } else {
                FloatOrder::Unordered
            })
        }
        Request::FloatToNat(x) => Answer::Nat(number(x) as u128),
        Request::FloatToInt(x) => Answer::Int(number(x) as i128),
        Request::FloatText(x) => Answer::Text(format!("{}", number(x))),
        Request::FloatParse(text) => Answer::Flag(text.parse::<f64>().is_ok()),
    }
}

fn run(code: &str) -> Result<JSON, EvalError> {
    let (rest, program) = cumin(code).unwrap();
    assert_eq!(rest, "");
    let mut host = Host::new();
    loop {
        match eval(program.clone(), None, &host) {
            Err(EvalError::Pending(request)) => {
                assert!(host.answer(&request).is_none());
                let given = answer(&request);
                host.push(request, given);
            }
            other => return other,
        }
    }
}

fn compiled(code: &str) -> Result<String, CompileError> {
    let mut host = Host::new();
    loop {
        match cumin::compile(code, &host) {
            Err(CompileError::Eval(EvalError::Pending(request))) => {
                let given = answer(&request);
                host.push(request, given);
            }
            other => return other,
        }
    }
}

fn assert_eval(code: &str, json: JSON) {
    assert_eq!(run(code).unwrap(), json);
}

fn assert_cannot_eval(code: &str) {
    assert!(run(code).is_err());
}



    #[test]
    fn test_numbers() {
        assert_eval("-1", JSON::Int(-1));
        assert_eval("-1 + 3", JSON::Int(2));
        assert_eval("-1 / 2", JSON::Int(0));
        assert_eval("1 + 2 * 3", JSON::Nat(7));
        assert_eval("(1 + 2) * 3", JSON::Nat(9));
    }

    #[test]
    fn test_bools() {
        assert_eval(
            "[true or true, true or false, false or true, false or false]",
            JSON::Array(vec![
                JSON::Bool(true),
                JSON::Bool(true),
                JSON::Bool(true),
                JSON::Bool(false)
            ])
        );
        assert_eval(
            "[true and true, true and false, false and true, false and false]",
            JSON::Array(vec![
                JSON::Bool(true),
                JSON::Bool(false),
                JSON::Bool(false),
                JSON::Bool(false)
            ])
        );
        assert_eval(
            "[true xor true, true xor false, false xor true, false xor false]",
            JSON::Array(vec![
                JSON::Bool(false),
                JSON::Bool(true),
                JSON::Bool(true),
                JSON::Bool(false)
            ])
        );
    }

    #[test]
    fn test_builtins() {
        assert_eval("Some(1)", JSON::Nat(1));
        assert_eval("Some(1 + 2)", JSON::Nat(3));
        assert_eval("not(true)", JSON::Bool(false));
        assert_eval("concat()", JSON::Array(vec![]));
        assert_eval("concat([1])", JSON::Array(vec![JSON::Nat(1)]));
        assert_eval(
            "concat([1], [2])",
            JSON::Array(vec![JSON::Nat(1), JSON::Nat(2)])
        );
        assert_eval(
            "concat([1], [2], [3])",
            JSON::Array(vec![JSON::Nat(1), JSON::Nat(2), JSON::Nat(3)])
        );
        assert_eval(
            "reverse([1, 2, 3])",
            JSON::Array(vec![JSON::Nat(3), JSON::Nat(2), JSON::Nat(1)])
        );
    }

    #[test]
    fn eval_test_compare() {
        assert_eval("let x = 2; x == 2", JSON::Bool(true));
        assert_eval("let x = 2; 2 < x + 1", JSON::Bool(true));
    }

    #[test]
    fn test_optional() {
        assert_eval(
            "[None, Some(1)]",
            JSON::Array(vec![JSON::Null, JSON::Nat(1)])
        );
    }

    #[test]
    fn eval_test_dict() {
        assert_eval("{{}}", JSON::Dict(vec![]));
        assert_eval(
            "{{ x = 1, y = 2, }}",
            JSON::Dict(vec![
                ("x".to_string(), JSON::Nat(1)),
                ("y".to_string(), JSON::Nat(2)),
            ])
        );
        assert_eval(
            "{{ x: Float = 1, y = 2, }}",
            JSON::Dict(vec![
                ("x".to_string(), JSON::Float("1".to_string())),
                ("y".to_string(), JSON::Nat(2)),
            ])
        );
    }

    #[test]
    fn test_array() {
        assert_eval(
            "[1, 2, 3]",
            JSON::Array(vec![JSON::Nat(1), JSON::Nat(2), JSON::Nat(3)]),
        );
        assert_eval(
            "[1, 2, 3, -1]",
            JSON::Array(vec![JSON::Int(1), JSON::Int(2), JSON::Int(3), JSON::Int(-1)])
        );
        assert_eval("[None]", JSON::Array(vec![JSON::Null]));
        assert_eval(
            "[Some(1), Some(-1)]",
            JSON::Array(vec![JSON::Int(1), JSON::Int(-1)]),
        );
    }

    #[test]
    fn test_fielded_apply() {
        assert_eval(
            "struct P { x: Nat, y: Nat } P{ x = 1, y = 2 }",
            JSON::Dict(vec![
                ("x".to_string(), JSON::Nat(1)),
                ("y".to_string(), JSON::Nat(2)),
            ])
        );
        assert_eval(
            "struct P { x: Nat, y: Nat } P{ y = 2, x = 1 }",
            JSON::Dict(vec![
                ("x".to_string(), JSON::Nat(1)),
                ("y".to_string(), JSON::Nat(2)),
            ])
        );
        assert_eval(
            "struct P { x: Nat = 42, y: Nat } P{ x = 1, y = 2 }",
            JSON::Dict(vec![
                ("x".to_string(), JSON::Nat(1)),
                ("y".to_string(), JSON::Nat(2)),
            ])
        );
    }

    #[test]
    fn eval_test_enum() {
        assert_eval(
            "enum X { Zoo, Park } X::Park",
            JSON::Str("Park".to_string())
        );
        assert_eval("enum X { Zoo, Park } X::Zoo", JSON::Str("Zoo".to_string()));
    }

    #[test]
    fn eval_test_type() {
        assert_eval(
            "type T = Int | String; [T(1), T(\"hoge\")]",
            JSON::Array(vec![JSON::Int(1), JSON::Str("hoge".to_string())])
        );
    }


    #[test]
    fn test_type_error() {
        assert_cannot_eval("let n: Nat = -1; n");
        assert_cannot_eval("let xs: Array<Nat> = [-1]; xs");
        assert_cannot_eval("let xs: Option<Nat> = Some(-1); xs");
    }

    #[test]
    fn seed_scenarios() {
        assert_eq!(compiled("let x = 2; x == 2").unwrap(), "true");
        assert_eq!(compiled("(1 + 2) * 3").unwrap(), "9");
        assert_eq!(
            compiled("struct P { x: Nat, y: Nat = 100 } P{ y = 2, x = 1 }").unwrap(),
            "{\"x\":1,\"y\":2}"
        );
        assert_eq!(
            compiled("struct P { x: Nat, y: Nat = 100 } P(1)").unwrap(),
            "{\"x\":1,\"y\":100}"
        );
        assert_eq!(compiled("enum X { Zoo, Park } X::Park").unwrap(), "\"Park\"");
        assert_eq!(
            compiled("type T = Int | String; [T(1), T(\"hoge\")]").unwrap(),
            "[1,\"hoge\"]"
        );
        assert_eq!(run("let n: Nat = -1; n"), Err(EvalError::TypeError));
        assert_eq!(
            compiled("fn f(x: Int, y: Int = 0) = x - y; f{y=2, x=3}").unwrap(),
            "1"
        );
        assert_eq!(compiled("reverse([2,1]) ++ [] ++ [3]").unwrap(), "[1,2,3]");
    }

    #[test]
    fn difference_of_nats() {
        assert_eval("3 - 2", JSON::Nat(1));
        assert_eval("2 - 2", JSON::Nat(0));
        assert_eval("2 - 3", JSON::Int(-1));
        assert_eq!(
            run("0 - 340282366920938463463374607431768211455"),
            Err(EvalError::ArithmeticError)
        );
    }

    #[test]
    fn integer_arithmetic() {
        assert_eval("7 / 2", JSON::Nat(3));
        assert_eval("-7 / 2", JSON::Int(-3));
        assert_eval("7 / -2", JSON::Int(-3));
        assert_eval("7 % 3", JSON::Nat(1));
        assert_eval("-7 % 3", JSON::Int(-1));
        assert_eval("7 % -3", JSON::Int(1));
        assert_eval("2 ** 10", JSON::Nat(1024));
        assert_eval("(-2) ** 3", JSON::Int(-8));
        assert_eval("2 ** (3 - 1)", JSON::Nat(4));
        assert_eval("0 ** 0", JSON::Nat(1));
        assert_eval("-(3)", JSON::Int(-3));
        assert_eval("-(-3)", JSON::Int(3));
        assert_eval("1 + -1", JSON::Int(0));
        assert_eval(
            "170141183460469231731687303715884105728 + -1",
            JSON::Int(i128::MAX),
        );
    }

    #[test]
    fn arithmetic_errors() {
        assert_eq!(run("1 / 0"), Err(EvalError::ArithmeticError));
        assert_eq!(run("1 % 0"), Err(EvalError::ArithmeticError));
        assert_eq!(run("-1 / (1 - 1)"), Err(EvalError::ArithmeticError));
        assert_eq!(
            run("340282366920938463463374607431768211455 + 1"),
            Err(EvalError::ArithmeticError)
        );
        assert_eq!(
            run("340282366920938463463374607431768211455 + -1"),
            Err(EvalError::ArithmeticError)
        );
        assert_eq!(run("2 ** 128"), Err(EvalError::ArithmeticError));
        assert_eval("2 ** 127", JSON::Nat(1u128 << 127));
        assert_eq!(run("(-2) ** 128"), Err(EvalError::ArithmeticError));
        assert_eval("(-2) ** 127", JSON::Int(i128::MIN));
        assert_eval(
            "1 ** 340282366920938463463374607431768211455",
            JSON::Nat(1),
        );
        assert_eval(
            "(-1) ** 340282366920938463463374607431768211455",
            JSON::Int(-1),
        );
        assert_eq!(
            run("-(170141183460469231731687303715884105729)"),
            Err(EvalError::ArithmeticError)
        );
        assert_eval(
            "-(170141183460469231731687303715884105728)",
            JSON::Int(i128::MIN),
        );
    }

    #[test]
    fn type_errors() {
        assert_eq!(run("1 + true"), Err(EvalError::TypeError));
        assert_eq!(run("\"a\" - \"b\""), Err(EvalError::TypeError));
        assert_eq!(run("true and 1"), Err(EvalError::TypeError));
        assert_eq!(run("not 1"), Err(EvalError::TypeError));
        assert_eq!(run("-true"), Err(EvalError::TypeError));
        assert_eq!(run("\"a\" == \"a\""), Err(EvalError::TypeError));
        assert_eq!(run("[1, \"x\"]"), Err(EvalError::TypeError));
        assert_eq!(run("[1] ++ 2"), Err(EvalError::TypeError));
        assert_eq!(run("reverse(1)"), Err(EvalError::TypeError));
        assert_eq!(run("concat([1], [\"a\"])"), Err(EvalError::TypeError));
        assert_eq!(run("type T = Int | String; T(true)"), Err(EvalError::TypeError));
        assert_eq!(run("{{ x: Nat = -1 }}"), Err(EvalError::TypeError));
        assert_eq!(run("-1 as Nat"), Err(EvalError::TypeError));
        assert_eq!(run("\"1x\" as Nat"), Err(EvalError::TypeError));
        assert_eq!(run("\"x\" as Float"), Err(EvalError::TypeError));
    }

    #[test]
    fn name_errors() {
        assert_eq!(run("x"), Err(EvalError::NameError));
        assert_eq!(run("f(1)"), Err(EvalError::NameError));
        assert_eq!(run("P{x = 1}"), Err(EvalError::NameError));
        assert_eq!(run("X::A"), Err(EvalError::NameError));
        assert_eq!(run("$CUMIN_TEST_NOBODY"), Err(EvalError::NameError));
        assert_eq!(run("fn f(n: Nat) = f(n); f(1)"), Err(EvalError::NameError));
        assert_eq!(run("let y = x; let x = 1; y"), Err(EvalError::NameError));
        assert_eq!(run("let y = { let x = 1; x }; x"), Err(EvalError::NameError));
    }

    #[test]
    fn enum_errors() {
        assert_eq!(run("enum X { Zoo, Park } X::Pool"), Err(EvalError::EnumError));
        assert_eq!(run("enum X { } X::Zoo"), Err(EvalError::EnumError));
    }

    #[test]
    fn argument_errors() {
        assert_eq!(
            run("struct P { x: Nat, y: Nat = 100 } P{ x = 1, z = 2 }"),
            Err(EvalError::ArgumentError)
        );
        assert_eq!(
            run("struct P { x: Nat, y: Nat = 100 } P{ y = 1 }"),
            Err(EvalError::ArgumentError)
        );
        assert_eq!(
            run("struct P { x: Nat, y: Nat = 100 } P()"),
            Err(EvalError::ArgumentError)
        );
        assert_eq!(
            run("struct P { x: Nat, y: Nat = 100 } P(1, 2, 3)"),
            Err(EvalError::ArgumentError)
        );
        assert_eq!(
            run("fn f(x: Int) = x; f(1, 2)"),
            Err(EvalError::ArgumentError)
        );
        assert_eq!(run("fn f(x: Int) = x; f()"), Err(EvalError::ArgumentError));
        assert_eq!(
            run("fn f(x: Int) = x; f{y = 1}"),
            Err(EvalError::ArgumentError)
        );
        assert_eq!(run("Some()"), Err(EvalError::ArgumentError));
        assert_eq!(run("Some(1, 2)"), Err(EvalError::ArgumentError));
        assert_eq!(run("not(true, false)"), Err(EvalError::TypeError));
        assert_eq!(run("reverse([1], [2])"), Err(EvalError::ArgumentError));
        assert_eq!(
            run("type T = Int | String; T(1, 2)"),
            Err(EvalError::ArgumentError)
        );
    }

    #[test]
    fn functions() {
        assert_eval("fn f(x: Int, y: Int = 0) = x - y; f(3)", JSON::Int(3));
        assert_eval("fn f(x: Int, y: Int = 0) = x - y; f(3, 2)", JSON::Int(1));
        assert_eval("let f(x: Int, y: Int = x) = x + y; f(3)", JSON::Int(6));
        assert_eval("fn f(x: Int, y: Int = 0) = x - y; f{x=3}", JSON::Int(3));
        assert_eval("fn f(x: Int) = x; f{x=1, x=2}", JSON::Int(2));
        assert_eval("let a = 1; fn f(x: Nat) = x + a; let a = 10; f(1)", JSON::Nat(2));
        assert_eval("fn g(x: Nat) = x * 2; fn f(x: Nat) = g(x) + 1; f(2)", JSON::Nat(5));
        assert_eval("fn f(x: Nat) = x; fn f(x: Nat) = x + 1; f(1)", JSON::Nat(2));
        assert_eval("fn f(x: Nat) = y; struct S { a: Nat } let y = 1; 0", JSON::Nat(0));
        assert_eval("fn f() = S(1); struct S { a: Nat } f()", JSON::Dict(vec![("a".to_string(), JSON::Nat(1))]));
    }

    #[test]
    fn application_order() {
        assert_eval("fn concat(x: Nat) = 0; concat()", JSON::Array(vec![]));
        assert_eval("fn reverse(x: Nat) = 0; reverse([1, 2])", JSON::Array(vec![JSON::Nat(2), JSON::Nat(1)]));
        assert_eval(
            "struct T { x: Int } type T = Nat | String; T(1)",
            JSON::Dict(vec![("x".to_string(), JSON::Int(1))]),
        );
        assert_eval("type T = Nat | String; fn T(x: Nat) = 0; T(1)", JSON::Nat(1));
        assert_eval("type T = Int | Nat; T(1)", JSON::Int(1));
    }

    #[test]
    fn blocks() {
        assert_eval("let x = 1; { let x = 2; x } + x", JSON::Nat(3));
        assert_eval("let x = 1; { let y = x + 1; y * 2 }", JSON::Nat(4));
        assert_eval("{ struct P { x: Nat } P(1) }", JSON::Dict(vec![("x".to_string(), JSON::Nat(1))]));
        assert_eq!(run("let a = { struct P { x: Nat } 1 }; P(1)"), Err(EvalError::NameError));
    }

    #[test]
    fn hoisting() {
        assert_eval(
            "let p = P(1); struct P { x: Nat } p",
            JSON::Dict(vec![("x".to_string(), JSON::Nat(1))]),
        );
        assert_eval("let v = X::A; enum X { A } v", JSON::Str("A".to_string()));
        assert_eval("let v = T(1); type T = Int | String; v", JSON::Int(1));
    }

    #[test]
    fn struct_defaults_see_the_application() {
        assert_eval(
            "struct P { x: Nat = a } let a = 1; P()",
            JSON::Dict(vec![("x".to_string(), JSON::Nat(1))]),
        );
        assert_eq!(run("struct P { x = P() } P()"), Err(EvalError::DepthError));
    }

    #[test]
    fn environment_references() {
        assert_eval("$CUMIN_TEST_USER", JSON::Str("alice".to_string()));
        assert_eval("${CUMIN_TEST_USER:-bob}", JSON::Str("alice".to_string()));
        assert_eval("${CUMIN_TEST_NOBODY:-bob}", JSON::Str("bob".to_string()));
        assert_eval("${CUMIN_TEST_NOBODY:-bob} + \"!\"", JSON::Str("bob!".to_string()));
    }

    #[test]
    fn an_unanswered_request_is_pending() {
        let program = cumin("$CUMIN_TEST_USER").unwrap().1;
        let mut host = Host::new();
        assert_eq!(
            eval(program.clone(), None, &host),
            Err(EvalError::Pending(Request::EnvVar("CUMIN_TEST_USER".to_string())))
        );
        host.push(
            Request::EnvVar("CUMIN_TEST_USER".to_string()),
            Answer::Text("carol".to_string()),
        );
        host.push(
            Request::EnvVar("CUMIN_TEST_USER".to_string()),
            Answer::Text("dave".to_string()),
        );
        assert_eq!(
            eval(program, None, &host),
            Ok(JSON::Str("carol".to_string()))
        );
        let import = cumin("use \"a.cumin\"; 1").unwrap().1;
        assert_eq!(
            eval(import, Some("dir".to_string()), &Host::new()),
            Err(EvalError::Pending(Request::Module(
                "a.cumin".to_string(),
                Some("dir".to_string())
            )))
        );
    }

    #[test]
    fn imports() {
        assert_eval(
            "use \"point.cumin\"; Point(1)",
            JSON::Dict(vec![
                ("x".to_string(), JSON::Int(1)),
                ("y".to_string(), JSON::Int(0)),
            ]),
        );
        assert_eval(
            "use \"point.cumin\"; use \"point.cumin\"; origin",
            JSON::Dict(vec![
                ("x".to_string(), JSON::Int(0)),
                ("y".to_string(), JSON::Int(0)),
            ]),
        );
        assert_eval("use \"missing.cumin\"; 1", JSON::Nat(1));
        assert_eval("use \"locked.cumin\"; use \"locked.cumin\"; 1", JSON::Nat(1));
        assert_eq!(run("let p = origin; use \"point.cumin\"; p"), Err(EvalError::NameError));
    }

    #[test]
    fn floats() {
        assert_eval("1.5", JSON::Float("1.5".to_string()));
        assert_eval("1 + 0.5", JSON::Float("1.5".to_string()));
        assert_eval("0.5 * 4", JSON::Float("2".to_string()));
        assert_eval("1 / 4.0", JSON::Float("0.25".to_string()));
        assert_eval("-(0.5)", JSON::Float("-0.5".to_string()));
        assert_eval("2 ** -1", JSON::Float("0.5".to_string()));
        assert_eval("2.0 ** 3", JSON::Float("8".to_string()));
        assert_eval("4 ** 0.5", JSON::Float("2".to_string()));
        assert_eval("7.5 % 2", JSON::Float("1.5".to_string()));
        assert_eval("[1, 1.5]", JSON::Array(vec![
            JSON::Float("1".to_string()),
            JSON::Float("1.5".to_string()),
        ]));
        assert_eval("0.5 < 1.5", JSON::Bool(true));
        assert_eval("1 < 0.5", JSON::Bool(false));
        assert_eval("0.5 == 0.5", JSON::Bool(true));
        assert_eval("0.5 != 0.5", JSON::Bool(false));
        assert_eval("1.0 <= 1", JSON::Bool(true));
        assert_eval("1.9 as Nat", JSON::Nat(1));
        assert_eval("-1.9 as Int", JSON::Int(-1));
        assert_eval("0.25 as String", JSON::Str("0.25".to_string()));
        assert_eval("\"0.25\" as Float", JSON::Float("0.25".to_string()));
        assert_eval("1 as Float", JSON::Float("1".to_string()));
    }

    #[test]
    fn comparisons() {
        assert_eval("1 < 2", JSON::Bool(true));
        assert_eval("2 <= 2", JSON::Bool(true));
        assert_eval("-1 < 1", JSON::Bool(true));
        assert_eval("1 > -1", JSON::Bool(true));
        assert_eval("1 == -1", JSON::Bool(false));
        assert_eval("1 != 1", JSON::Bool(false));
        assert_eval("false < true", JSON::Bool(true));
        assert_eval("true < false", JSON::Bool(false));
        assert_eval("true == true", JSON::Bool(true));
        assert_eval(
            "-170141183460469231731687303715884105728 < 340282366920938463463374607431768211455",
            JSON::Bool(true),
        );
        assert_eval(
            "340282366920938463463374607431768211455 < -170141183460469231731687303715884105728",
            JSON::Bool(false),
        );
        assert_eval(
            "340282366920938463463374607431768211455 == -170141183460469231731687303715884105728",
            JSON::Bool(false),
        );
    }

    #[test]
    fn casts_with_as() {
        assert_eval("1 as Int", JSON::Int(1));
        assert_eval("1 as String", JSON::Str("1".to_string()));
        assert_eval("-12 as String", JSON::Str("-12".to_string()));
        assert_eval("\"12\" as Nat", JSON::Nat(12));
        assert_eval("\"-12\" as Int", JSON::Int(-12));
        assert_eval("\"true\" as Bool", JSON::Bool(true));
        assert_eval("(3 - 1) as Nat", JSON::Nat(2));
    }

    #[test]
    fn tuples_and_strings() {
        assert_eval(
            "(1, \"a\", true)",
            JSON::Array(vec![JSON::Nat(1), JSON::Str("a".to_string()), JSON::Bool(true)]),
        );
        assert_eval("\"a\" + \"b\"", JSON::Str("ab".to_string()));
        assert_eval("[1] ++ [-1]", JSON::Array(vec![JSON::Nat(1), JSON::Int(-1)]));
        assert_eval("[[1], [-1]]", JSON::Array(vec![
            JSON::Array(vec![JSON::Int(1)]),
            JSON::Array(vec![JSON::Int(-1)]),
        ]));
    }

    #[test]
    fn compile_reports_what_is_left() {
        assert_eq!(
            compiled("1 + 2 )"),
            Err(CompileError::Parse(cumin::errors::ParseError {
                rest: ")".to_string()
            }))
        );
        assert_eq!(
            compiled("let x = ;"),
            Err(CompileError::Parse(cumin::errors::ParseError {
                rest: "let x = ;".to_string()
            }))
        );
        assert_eq!(
            compiled("x"),
            Err(CompileError::Eval(EvalError::NameError))
        );
        assert_eq!(compiled(" // nothing\n [1, 2] // end").unwrap(), "[1,2]");
    }

    fn value_of(code: &str) -> Result<Value, EvalError> {
        let program = cumin(code).unwrap().1;
        let mut host = Host::new();
        loop {
            let env = cumin::environ::Environ::new(None);
            match cumin::eval::eval_conf(env, &program, &host, cumin::eval::MAX_DEPTH) {
                Err(EvalError::Pending(request)) => {
                    let given = answer(&request);
                    host.push(request, given);
                }
                other => return other,
            }
        }
    }

    #[test]
    fn arrays_unify_their_elements() {
        assert_eq!(
            value_of("[1, -1]"),
            Ok(Value::Array(Typing::Int, vec![Value::Int(1), Value::Int(-1)]))
        );
        assert_eq!(
            value_of("[1, 1.5]"),
            Ok(Value::Array(
                Typing::Float,
                vec![
                    Value::Float(FloatTerm::Nat(1)),
                    Value::Float(FloatTerm::Text("1.5".to_string()))
                ]
            ))
        );
        assert_eq!(value_of("[1, \"x\"]"), Err(EvalError::TypeError));
        assert_eq!(
            value_of("[None, Some(1)]"),
            Ok(Value::Array(
                Typing::Option(Box::new(Typing::Nat)),
                vec![
                    Value::Optional(Typing::Nat, Box::new(None)),
                    Value::Optional(Typing::Nat, Box::new(Some(Value::Nat(1))))
                ]
            ))
        );
        assert_eq!(compiled("[None, Some(1)]").unwrap(), "[null,1]");
        assert_eq!(value_of("[]"), Ok(Value::Array(Typing::Any, vec![])));
        assert_eq!(
            value_of("type T = Int | String; T(1)"),
            Ok(Value::Wrapped(
                Typing::UserTyping("T".to_string()),
                Box::new(Value::Int(1))
            ))
        );
    }

    #[test]
    fn a_binding_can_stand_for_its_expression() {
        assert_eq!(run("let x = 1 + 2; x * x"), run("(1 + 2) * (1 + 2)"));
        assert_eq!(run("let x = 1 + 2; x * x"), Ok(JSON::Nat(9)));
        assert_eq!(
            run("let x = [1]; {{ a = x ++ x, b = (x, not true) }}"),
            run("{{ a = [1] ++ [1], b = ([1], not true) }}")
        );
        assert_eq!(run("let x = 2; x"), run("2"));
        assert_eq!(run("let x = y; x"), run("y"));
        assert_eq!(
            run("fn f(a: Nat, b: Nat = 1) = a + b; let x = 2 * 3; f(x) + f{b = x, a = x}"),
            run("fn f(a: Nat, b: Nat = 1) = a + b; f(2 * 3) + f{b = 2 * 3, a = 2 * 3}")
        );
        assert_eq!(
            run("let x = 1; concat([x], reverse([x, 2]))"),
            run("concat([1], reverse([1, 2]))")
        );
    }

    #[test]
    fn parameters_may_end_with_a_comma() {
        assert_eval("fn f(x: Int, y: Int = 1,) = x + y; f(1,)", JSON::Int(2));
        assert_eval("fn f(x: Int,) = x; f{x = 1,}", JSON::Int(1));
    }

