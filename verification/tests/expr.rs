use cumin::parser::cumin::Cumin;
use cumin::parser::expr::expr;
use cumin::parser::expr::Expr;
use cumin::parser::expr::Expr::{
    Add, And, AnonymousStruct, Apply, Arrayed, AsCast, Blocked, Div, Equal, FieledApply, Less,
    Minus, Mod, Mul, Not, Or, Sub, Val, Var, Xor,
};
use cumin::parser::statement::Statement;
use cumin::parser::typing::Typing;
use cumin::parser::value::Value::{Bool, Int, Nat, Str};

fn assert_expr(code: &str, expected: Expr) {
    assert_eq!(expr(code), Ok((String::new(), expected)));
}



    #[test]
    fn test_value() {
        assert_expr("1 // one", Val(Nat(1)));
        assert_expr("-1 // one", Val(Int(-1)));
        assert_expr(
            "true
            // one",
            Val(Bool(true))
        );
        assert_expr("x // var", Expr::Var("x".to_string()));
    }

    #[test]
    fn test_concat() {
        assert_expr(
            "[] ++ []",
            Expr::Concat(
                Box::new(Expr::Arrayed(vec![])),
                Box::new(Expr::Arrayed(vec![])),
            )
        );
        assert_expr(
            "[] ++ [1] ++ [2]",
            Expr::Concat(
                Box::new(Expr::Concat(
                    Box::new(Expr::Arrayed(vec![])),
                    Box::new(Expr::Arrayed(vec![Expr::Val(Nat(1))])),
                )),
                Box::new(Expr::Arrayed(vec![Expr::Val(Nat(2))])),
            )
        );
    }

    #[test]
    fn expr_test_arith() {
        assert_expr("1 // one", Val(Nat(1)));
        assert_expr("( 1 )", Val(Nat(1)));
        assert_expr("-1", Val(Int(-1)));
        assert_expr("0 + 1", Add(Box::new(Val(Nat(0))), Box::new(Val(Nat(1)))));
        assert_expr(
            "0 + x",
            Add(Box::new(Val(Nat(0))), Box::new(Expr::Var("x".to_string())))
        );
        assert_expr(
            "x + 2",
            Add(Box::new(Expr::Var("x".to_string())), Box::new(Val(Nat(2))))
        );
        assert_expr(
            "x + y + z",
            Add(
                Box::new(Add(
                    Box::new(Expr::Var("x".to_string())),
                    Box::new(Expr::Var("y".to_string())),
                )),
                Box::new(Expr::Var("z".to_string())),
            )
        );
        assert_expr(
            "x - y",
            Sub(
                Box::new(Expr::Var("x".to_string())),
                Box::new(Expr::Var("y".to_string())),
            )
        );
        assert_expr(
            "( 1 - 2 ) ",
            Sub(Box::new(Val(Nat(1))), Box::new(Val(Nat(2))))
        );
        assert_expr(
            "(x * y) / z",
            Div(
                Box::new(Mul(
                    Box::new(Expr::Var("x".to_string())),
                    Box::new(Expr::Var("y".to_string())),
                )),
                Box::new(Expr::Var("z".to_string()))
            )
        );
        assert_expr("5 % 2", Mod(Box::new(Val(Nat(5))), Box::new(Val(Nat(2)))));
        assert_expr("5 %2", Mod(Box::new(Val(Nat(5))), Box::new(Val(Nat(2)))));
        assert_expr("5% 2", Mod(Box::new(Val(Nat(5))), Box::new(Val(Nat(2)))));
        assert_expr("5%2", Mod(Box::new(Val(Nat(5))), Box::new(Val(Nat(2)))));
        assert_expr("1+-1", Add(Box::new(Val(Nat(1))), Box::new(Val(Int(-1)))));
        assert_expr("1 / 2", Div(Box::new(Val(Nat(1))), Box::new(Val(Nat(2)))));
        assert_expr("1  /2", Div(Box::new(Val(Nat(1))), Box::new(Val(Nat(2)))));
        assert_expr("1/  2", Div(Box::new(Val(Nat(1))), Box::new(Val(Nat(2)))));
        assert_expr("1/2", Div(Box::new(Val(Nat(1))), Box::new(Val(Nat(2)))));
        assert_expr(
            "1 + 2 - 3",
            Sub(
                Box::new(Add(Box::new(Val(Nat(1))), Box::new(Val(Nat(2))),)),
                Box::new(Val(Nat(3)))
            )
        );
        assert_expr(
            "1 * 2 * 3 / 4",
            Div(
                Box::new(Mul(
                    Box::new(Mul(Box::new(Val(Nat(1))), Box::new(Val(Nat(2))),)),
                    Box::new(Val(Nat(3)))
                )),
                Box::new(Val(Nat(4)))
            )
        );
        assert_expr(
            "1 + 2 * 3",
            Add(
                Box::new(Val(Nat(1))),
                Box::new(Mul(Box::new(Val(Nat(2))), Box::new(Val(Nat(3))),))
            )
        );
        assert_expr(
            "(1 + 2) * ((3) / 4 - 5)",
            Mul(
                Box::new(Add(Box::new(Val(Nat(1))), Box::new(Val(Nat(2))),)),
                Box::new(Sub(
                    Box::new(Div(Box::new(Val(Nat(3))), Box::new(Val(Nat(4))),)),
                    Box::new(Val(Nat(5)))
                ))
            )
        );
        assert_expr("-(-2)", Minus(Box::new(Val(Int(-2)))));
        assert_expr("-x", Minus(Box::new(Expr::Var("x".to_string()))));
        assert_expr(
            "f(x) + 1",
            Add(
                Box::new(Apply("f".to_string(), vec![Expr::Var("x".to_string())])),
                Box::new(Val(Nat(1)))
            )
        );
        assert_expr(
            "f(x) + g(z)",
            Add(
                Box::new(Apply("f".to_string(), vec![Expr::Var("x".to_string())])),
                Box::new(Apply("g".to_string(), vec![Expr::Var("z".to_string())])),
            )
        );
    }

    #[test]
    fn test_bool_expression() {
        assert_expr("true", Val(Bool(true)));
        assert_expr("false", Val(Bool(false)));
        assert_expr("not false", Not(Box::new(Val(Bool(false)))));
        assert_expr("not(false)", Not(Box::new(Val(Bool(false)))));
        assert_expr("notfalse", Var("notfalse".to_string()));
        assert_expr(
            "true or false",
            Or(Box::new(Val(Bool(true))), Box::new(Val(Bool(false))))
        );
        assert_expr(
            "true xor false",
            Xor(Box::new(Val(Bool(true))), Box::new(Val(Bool(false))))
        );
        assert_expr(
            "(a or not b) xor (not c and d)",
            Xor(
                Box::new(Or(
                    Box::new(Expr::Var("a".to_string())),
                    Box::new(Not(Box::new(Expr::Var("b".to_string()))))
                )),
                Box::new(And(
                    Box::new(Not(Box::new(Expr::Var("c".to_string())))),
                    Box::new(Expr::Var("d".to_string()))
                ))
            )
        );
        assert_expr(
            "not not(true)",
            Not(Box::new(Not(Box::new(Val(Bool(true))))))
        );
    }

    #[test]
    fn expr_test_dict() {
        assert_expr("{{ }}", AnonymousStruct(vec![]));
        assert_expr(
            "{{x=1,}}",
            AnonymousStruct(vec![("x".to_string(), Typing::Any, Val(Nat(1)))])
        );
        assert_expr(
            "{{x: Int = 1,}}",
            AnonymousStruct(vec![("x".to_string(), Typing::Int, Val(Nat(1)))])
        );
        assert_expr(
            "{{ x=1, z = 2 }}",
            AnonymousStruct(vec![
                ("x".to_string(), Typing::Any, Val(Nat(1))),
                ("z".to_string(), Typing::Any, Val(Nat(2)))
            ])
        );
        assert_expr(
            "{{
                x:Int= 1,
                z = \"hoge\",
                }}",
            AnonymousStruct(vec![
                ("x".to_string(), Typing::Int, Val(Nat(1))),
                ("z".to_string(), Typing::Any, Val(Str("hoge".to_string())))
            ])
        );
    }

    #[test]
    fn test_arrayed() {
        assert_expr("[]", Arrayed(vec![]));
        assert_expr(
            "[1, 2, 3,]",
            Arrayed(vec![Val(Nat(1)), Val(Nat(2)), Val(Nat(3))])
        );
        assert_expr(
            "[1, 2, 3]",
            Arrayed(vec![Val(Nat(1)), Val(Nat(2)), Val(Nat(3))])
        );
        assert_expr(
            "[1, 2, 3]//comment",
            Arrayed(vec![Val(Nat(1)), Val(Nat(2)), Val(Nat(3))])
        );
        assert_expr(
            "[1, //one
                2, //two
                3]//comment",
            Arrayed(vec![Val(Nat(1)), Val(Nat(2)), Val(Nat(3))])
        );
    }

    #[test]
    fn test_apply() {
        assert_expr("f()", Apply("f".to_string(), vec![]));
        assert_expr("f(1)", Apply("f".to_string(), vec![Val(Nat(1))]));
        assert_expr(
            "X(1, -2, \"x\")",
            Apply(
                "X".to_string(),
                vec![Val(Nat(1)), Val(Int(-2)), Val(Str("x".to_string()))]
            )
        );
        assert_expr(
            "X(1, // comment
                -2, \"x\")//comment",
            Apply(
                "X".to_string(),
                vec![Val(Nat(1)), Val(Int(-2)), Val(Str("x".to_string()))]
            )
        );
        assert_expr(
            "X.Y(1, -2, \"x\")",
            Apply(
                "X".to_string(),
                vec![Apply(
                    "Y".to_string(),
                    vec![Val(Nat(1)), Val(Int(-2)), Val(Str("x".to_string()))]
                )]
            )
        );
    }

    #[test]
    fn test_field_apply() {
        assert_expr("X{}", FieledApply("X".to_string(), vec![]));
        assert_expr(
            "X{x=1}",
            FieledApply("X".to_string(), vec![("x".to_string(), Val(Nat(1)))])
        );
        assert_expr(
            "X { x=1, y=-2, z=\"x\"}",
            FieledApply(
                "X".to_string(),
                vec![
                    ("x".to_string(), Val(Nat(1))),
                    ("y".to_string(), Val(Int(-2))),
                    ("z".to_string(), Val(Str("x".to_string())))
                ]
            )
        );
        assert_expr(
            "X {//comment
                x=1, //comment
                // comment
                y=-2,//comment
                z=\"x\"
                } // comment",
            FieledApply(
                "X".to_string(),
                vec![
                    ("x".to_string(), Val(Nat(1))),
                    ("y".to_string(), Val(Int(-2))),
                    ("z".to_string(), Val(Str("x".to_string())))
                ]
            )
        );
        assert_expr(
            "X.Y.Z{}",
            Apply(
                "X".to_string(),
                vec![Apply(
                    "Y".to_string(),
                    vec![FieledApply("Z".to_string(), vec![])]
                )]
            )
        );
    }

    #[test]
    fn test_blocked() {
        assert_expr(
            "{
                let x: Int = 1;
                let y = -2;
                x + y
                }
                ",
            Blocked(Box::new(Cumin(
                vec![
                    Statement::Let("x".to_string(), Typing::Int, Val(Nat(1))),
                    Statement::Let("y".to_string(), Typing::Any, Val(Int(-2))),
                ],
                Add(
                    Box::new(Expr::Var("x".to_string())),
                    Box::new(Expr::Var("y".to_string()))
                )
            )))
        );
    }

    #[test]
    fn test_as_cast() {
        assert_expr("1 as Int", AsCast(Box::new(Val(Nat(1))), Typing::Int));
        assert_expr(
            "{ 1 } as Int",
            AsCast(
                Box::new(Blocked(Box::new(Cumin(vec![], Val(Nat(1)))))),
                Typing::Int
            )
        );
        assert_expr(
            "1 as Int
                // Nat -> Int",
            AsCast(Box::new(Val(Nat(1))), Typing::Int)
        );
        assert_expr(
            "(1+1) as Int",
            AsCast(
                Box::new(Add(Box::new(Val(Nat(1))), Box::new(Val(Nat(1))))),
                Typing::Int
            )
        );
        assert_expr(
            "f(1+1) as Int",
            AsCast(
                Box::new(Apply(
                    "f".to_string(),
                    vec![Add(Box::new(Val(Nat(1))), Box::new(Val(Nat(1))))]
                )),
                Typing::Int
            )
        );
        assert_expr(
            "f(1) + 2 as Int",
            Add(
                Box::new(Apply("f".to_string(), vec![Val(Nat(1))])),
                Box::new(AsCast(Box::new(Val(Nat(2))), Typing::Int))
            )
        );
    }

    #[test]
    fn expr_test_bool() {
        assert_expr("true", Val(Bool(true)));
        assert_expr("not x", Not(Box::new(Expr::Var("x".to_string()))));
        assert_expr(
            "not true or true",
            Or(
                Box::new(Not(Box::new(Val(Bool(true))))),
                Box::new(Val(Bool(true)))
            )
        );
        assert_expr(
            "true or not true",
            Or(
                Box::new(Val(Bool(true))),
                Box::new(Not(Box::new(Val(Bool(true)))))
            )
        );
        assert_expr(
            "x and y",
            And(
                Box::new(Expr::Var("x".to_string())),
                Box::new(Expr::Var("y".to_string()))
            )
        );
        assert_expr(
            "true and false or true xor false",
            Xor(
                Box::new(Or(
                    Box::new(And(Box::new(Val(Bool(true))), Box::new(Val(Bool(false))))),
                    Box::new(Val(Bool(true)))
                )),
                Box::new(Val(Bool(false)))
            )
        );
        assert_expr(
            "true and (false or not true)",
            And(
                Box::new(Val(Bool(true))),
                Box::new(Or(
                    Box::new(Val(Bool(false))),
                    Box::new(Not(Box::new(Val(Bool(true)))))
                ))
            )
        );
    }

    #[test]
    fn expr_test_compare() {
        assert_expr(
            "1 == 2",
            Equal(Box::new(Val(Nat(1))), Box::new(Val(Nat(2))))
        );
        assert_expr(
            "1 <= 2",
            Not(Box::new(Less(Box::new(Val(Nat(2))), Box::new(Val(Nat(1))))))
        );
        assert_expr(
            "1 + 1 == 2 - 0",
            Equal(
                Box::new(Add(Box::new(Val(Nat(1))), Box::new(Val(Nat(1))))),
                Box::new(Sub(Box::new(Val(Nat(2))), Box::new(Val(Nat(0)))))
            )
        );
        assert_expr(
            "(1 <= 2) == false",
            Equal(
                Box::new(Not(Box::new(Less(
                    Box::new(Val(Nat(2))),
                    Box::new(Val(Nat(1)))
                )))),
                Box::new(Val(Bool(false)))
            )
        );
    }

    #[test]
    fn test_var() {
        assert_expr("hoge", Expr::Var("hoge".to_string()));
        assert_expr("_hoge0", Expr::Var("_hoge0".to_string()));
    }

    #[test]
    fn test_tuple() {
        assert_expr("(1, 2)", Expr::Tuple(vec![Val(Nat(1)), Val(Nat(2)),]));
    }
