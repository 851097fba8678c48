use cumin::parser::declaration::stmt;
use cumin::parser::expr::Expr;
use cumin::parser::statement::Statement;
use cumin::parser::typing::Typing;
use cumin::parser::value::Value;

fn assert_stmt(code: &str, expected: Statement) {
    assert_eq!(stmt(code), Ok((String::new(), expected)));
}

fn number(n: u128) -> Expr {
    Expr::Val(Value::Nat(n))
}

#[test]
fn test_let() {
    assert_stmt(
        "let s = -2;",
        Statement::Let("s".to_string(), Typing::Any, Expr::Val(Value::Int(-2))),
    );
    assert_stmt(
        "let z: Nat = 3;",
        Statement::Let("z".to_string(), Typing::Nat, number(3)),
    );
    assert_stmt(
        "let s:Nat=2; ",
        Statement::Let("s".to_string(), Typing::Nat, number(2)),
    );
    assert_stmt(
        "let name = \"hoge\" ; ",
        Statement::Let(
            "name".to_string(),
            Typing::Any,
            Expr::Val(Value::Str("hoge".to_string())),
        ),
    );
}

#[test]
fn test_struct() {
    assert_stmt("struct X {} ", Statement::Struct("X".to_string(), vec![]));
    assert_stmt(
        "struct X {} // comment",
        Statement::Struct("X".to_string(), vec![]),
    );
    assert_stmt(
        "struct Point { x: Int, y:Int} ",
        Statement::Struct(
            "Point".to_string(),
            vec![
                ("x".to_string(), Typing::Int, None),
                ("y".to_string(), Typing::Int, None),
            ],
        ),
    );
    // comma-trailing
    assert_stmt(
        "struct Point { x: Int, y:Int, } ",
        Statement::Struct(
            "Point".to_string(),
            vec![
                ("x".to_string(), Typing::Int, None),
                ("y".to_string(), Typing::Int, None),
            ],
        ),
    );
    // with default values
    assert_stmt(
        "struct Point {
                name: String = \"hoge\",
                x: Int, y:Int=0, } ",
        Statement::Struct(
            "Point".to_string(),
            vec![
                (
                    "name".to_string(),
                    Typing::String,
                    Some(Expr::Val(Value::Str("hoge".to_string()))),
                ),
                ("x".to_string(), Typing::Int, None),
                ("y".to_string(), Typing::Int, Some(number(0))),
            ],
        ),
    );
    // without type-annotation & with default values
    assert_stmt(
        "struct P { x: Int, y: Int = 2, z = 2 }",
        Statement::Struct(
            "P".to_string(),
            vec![
                ("x".to_string(), Typing::Int, None),
                ("y".to_string(), Typing::Int, Some(number(2))),
                ("z".to_string(), Typing::Any, Some(number(2))),
            ],
        ),
    );
}

#[test]
fn statement_test_enum() {
    assert_stmt("enum A{}", Statement::Enum("A".to_string(), vec![]));
    assert_stmt(
        "enum A{B}",
        Statement::Enum("A".to_string(), vec!["B".to_string()]),
    );
    assert_stmt(
        "enum A{B,}",
        Statement::Enum("A".to_string(), vec!["B".to_string()]),
    );
    assert_stmt(
        "enum Z {
                A,B, C,D
            }
            ",
        Statement::Enum(
            "Z".to_string(),
            vec![
                "A".to_string(),
                "B".to_string(),
                "C".to_string(),
                "D".to_string(),
            ],
        ),
    );
    // comma-trailing
    assert_stmt(
        "enum Z{
                Z1,//,,,
                Z2,
            }
            ",
        Statement::Enum("Z".to_string(), vec!["Z1".to_string(), "Z2".to_string()]),
    );
}

#[test]
fn statement_test_type() {
    assert_stmt(
        "type T = A;",
        Statement::Type("T".to_string(), vec![Typing::UserTyping("A".to_string())]),
    );
    assert_stmt(
        "type T = A | B | Int;",
        Statement::Type(
            "T".to_string(),
            vec![
                Typing::UserTyping("A".to_string()),
                Typing::UserTyping("B".to_string()),
                Typing::Int,
            ],
        ),
    );
}

#[test]
fn test_use() {
    assert_stmt(
        "use \"hoge/fuga/piyo\";",
        Statement::Import("hoge/fuga/piyo".to_string()),
    );
    assert_stmt(
        "use \"hoge/fuga/piyo\" ; // import",
        Statement::Import("hoge/fuga/piyo".to_string()),
    );
}

#[test]
fn test_fn() {
    assert_stmt(
        "fn zero() = 0;",
        Statement::Fun("zero".to_string(), vec![], number(0)),
    );
    assert_stmt(
        "let zero() = 0;",
        Statement::Fun("zero".to_string(), vec![], number(0)),
    );
    assert_stmt(
        "fn zero(x: Int) = x; // identity",
        Statement::Fun(
            "zero".to_string(),
            vec![("x".to_string(), Typing::Int, None)],
            Expr::Var("x".to_string()),
        ),
    );
    assert_stmt(
        "fn zero(x: Int, y: Int = 2) = x + y; // identity",
        Statement::Fun(
            "zero".to_string(),
            vec![
                ("x".to_string(), Typing::Int, None),
                ("y".to_string(), Typing::Int, Some(number(2))),
            ],
            Expr::Add(
                Box::new(Expr::Var("x".to_string())),
                Box::new(Expr::Var("y".to_string())),
            ),
        ),
    );
}

#[test]
fn statements_that_the_grammar_refuses() {
    assert!(stmt("let x = 1").is_err());
    assert!(stmt("let x : Int = 1;").is_err());
    assert!(stmt("fn f(x) = x;").is_err());
    assert!(stmt("type T = ;").is_err());
    assert!(stmt("use \"\";").is_err());
    assert!(stmt("struct let {}").is_err());
    assert_eq!(stmt("x + 1").unwrap_err().rest, "x + 1");
}

#[test]
fn a_statement_leaves_what_follows() {
    assert_eq!(
        stmt("let x = 1; x"),
        Ok((
            "x".to_string(),
            Statement::Let("x".to_string(), Typing::Any, number(1))
        ))
    );
}
