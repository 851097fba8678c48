use cumin::parser::expr::Expr;
use cumin::parser::module::load_module;
use cumin::parser::statement::Statement;
use cumin::parser::typing::Typing;
use cumin::parser::value::Value;

fn assert_module(code: &str, expected: Vec<Statement>) {
    assert_eq!(load_module(code), Ok((String::new(), expected)));
}

#[test]
fn module_test() {
    assert_module("", vec![]);
    assert_module("struct A{}", vec![Statement::Struct("A".to_string(), vec![])]);
    assert_module(
        "struct A{x: Int}",
        vec![Statement::Struct(
            "A".to_string(),
            vec![("x".to_string(), Typing::Int, None)],
        )],
    );
    assert_module(
        "struct A{x: Int}
            struct B{}",
        vec![
            Statement::Struct("A".to_string(), vec![("x".to_string(), Typing::Int, None)]),
            Statement::Struct("B".to_string(), vec![]),
        ],
    );
    assert_module(
        "let x=1;",
        vec![Statement::Let(
            "x".to_string(),
            Typing::Any,
            Expr::Val(Value::Nat(1)),
        )],
    );
    assert_module(
        "let x: Int=1;
            use \"hoge.cumin\";
            ",
        vec![
            Statement::Let("x".to_string(), Typing::Int, Expr::Val(Value::Nat(1))),
            Statement::Import("hoge.cumin".to_string()),
        ],
    );
}

#[test]
fn a_module_leaves_what_is_no_declaration() {
    assert_eq!(
        load_module("  let x = 1; x + 1"),
        Ok((
            "x + 1".to_string(),
            vec![Statement::Let(
                "x".to_string(),
                Typing::Any,
                Expr::Val(Value::Nat(1))
            )]
        ))
    );
}
