use cumin::parser::cumin::Cumin;
use cumin::parser::expr::Expr;
use cumin::parser::expr::Expr::{Add, Apply, Val};
use cumin::parser::module::cumin;
use cumin::parser::statement::Statement::{Let, Struct};
use cumin::parser::typing::Typing;
use cumin::parser::value::Value::{Int, Nat};

fn assert_cumin(code: &str, expected: Cumin) {
    assert_eq!(cumin(code), Ok((String::new(), expected)));
}



    #[test]
    fn cumin_test() {
        assert_cumin("-1", Cumin(vec![], Val(Int(-1))));
        assert_cumin(
            "let x=1; x",
            Cumin(
                vec![Let("x".to_string(), Typing::Any, Val(Nat(1)))],
                Expr::Var("x".to_string())
            )
        );
        assert_cumin(
            "let x:Int=1; //comment
                // comment
                let y = x + 2;
                // comment
                // comment
                x + y",
            Cumin(
                vec![
                    Let("x".to_string(), Typing::Int, Val(Nat(1))),
                    Let(
                        "y".to_string(),
                        Typing::Any,
                        Add(Box::new(Expr::Var("x".to_string())), Box::new(Val(Nat(2))))
                    ),
                ],
                Add(
                    Box::new(Expr::Var("x".to_string())),
                    Box::new(Expr::Var("y".to_string()))
                )
            )
        );
        assert_cumin(
            "struct X { x: Int } x + y",
            Cumin(
                vec![Struct(
                    "X".to_string(),
                    vec![("x".to_string(), Typing::Int, None)]
                )],
                Add(
                    Box::new(Expr::Var("x".to_string())),
                    Box::new(Expr::Var("y".to_string()))
                )
            )
        );
        assert_cumin(
            "struct X { x: Int } let x=1; X(x)",
            Cumin(
                vec![
                    Struct("X".to_string(), vec![("x".to_string(), Typing::Int, None)]),
                    Let("x".to_string(), Typing::Any, Val(Nat(1)))
                ],
                Apply("X".to_string(), vec![Expr::Var("x".to_string())])
            )
        );
    }



    #[test]
    fn config_test() {
        assert_cumin("-1", Cumin(vec![], Val(Int(-1))));
        assert_cumin(
            "let x=1; x",
            Cumin(
                vec![Let("x".to_string(), Typing::Any, Val(Nat(1)))],
                Expr::Var("x".to_string())
            )
        );
        assert_cumin(
            "let x:Int=1; //comment
                // comment
                let y = x + 2;
                // comment
                // comment
                x + y",
            Cumin(
                vec![
                    Let("x".to_string(), Typing::Int, Val(Nat(1))),
                    Let(
                        "y".to_string(),
                        Typing::Any,
                        Add(Box::new(Expr::Var("x".to_string())), Box::new(Val(Nat(2))))
                    ),
                ],
                Add(
                    Box::new(Expr::Var("x".to_string())),
                    Box::new(Expr::Var("y".to_string()))
                )
            )
        );
        assert_cumin(
            "struct X { x: Int } x + y",
            Cumin(
                vec![Struct(
                    "X".to_string(),
                    vec![("x".to_string(), Typing::Int, None)]
                )],
                Add(
                    Box::new(Expr::Var("x".to_string())),
                    Box::new(Expr::Var("y".to_string()))
                )
            )
        );
        assert_cumin(
            "struct X { x: Int } let x=1; X(x)",
            Cumin(
                vec![
                    Struct("X".to_string(), vec![("x".to_string(), Typing::Int, None)]),
                    Let("x".to_string(), Typing::Any, Val(Nat(1)))
                ],
                Apply("X".to_string(), vec![Expr::Var("x".to_string())])
            )
        );
    }
