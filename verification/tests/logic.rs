use cumin::parser::expr::logic_expr;
use cumin::parser::expr::Expr;
use cumin::parser::expr::Expr::{Add, And, Div, Equal, Less, Minus, Mul, Not, Or, Sub, Val, Xor};
use cumin::parser::value::Value::{Bool, Int, Nat};

fn assert_logic(code: &str, expected: Expr) {
    assert_eq!(logic_expr(code), Ok((String::new(), expected)));
}



    #[test]
    fn logic_test_arith() {
        assert_logic("1 // one", Val(Nat(1)));
        assert_logic("1+-1", Add(Box::new(Val(Nat(1))), Box::new(Val(Int(-1)))));
        assert_logic("1  /2", Div(Box::new(Val(Nat(1))), Box::new(Val(Nat(2)))));
        assert_logic(
            "1 + 2 - 3",
            Sub(
                Box::new(Add(Box::new(Val(Nat(1))), Box::new(Val(Nat(2))),)),
                Box::new(Val(Nat(3)))
            )
        );
        assert_logic(
            "1 * 2 * 3 / 4",
            Div(
                Box::new(Mul(
                    Box::new(Mul(Box::new(Val(Nat(1))), Box::new(Val(Nat(2))),)),
                    Box::new(Val(Nat(3)))
                )),
                Box::new(Val(Nat(4)))
            )
        );
        assert_logic(
            "1 + 2 * 3",
            Add(
                Box::new(Val(Nat(1))),
                Box::new(Mul(Box::new(Val(Nat(2))), Box::new(Val(Nat(3))),))
            )
        );
        assert_logic(
            "(1 + 2) * ((3) / 4 - 5)",
            Mul(
                Box::new(Add(Box::new(Val(Nat(1))), Box::new(Val(Nat(2))),)),
                Box::new(Sub(
                    Box::new(Div(Box::new(Val(Nat(3))), Box::new(Val(Nat(4))),)),
                    Box::new(Val(Nat(5)))
                ))
            )
        );
        assert_logic("-(-2)", Minus(Box::new(Val(Int(-2)))));
        assert_logic("-x", Minus(Box::new(Expr::Var("x".to_string()))));
    }

    #[test]
    fn logic_test_bool() {
        assert_logic("true", Val(Bool(true)));
        assert_logic("not x", Not(Box::new(Expr::Var("x".to_string()))));
        assert_logic(
            "not true or true",
            Or(
                Box::new(Not(Box::new(Val(Bool(true))))),
                Box::new(Val(Bool(true)))
            )
        );
        assert_logic(
            "true or not true",
            Or(
                Box::new(Val(Bool(true))),
                Box::new(Not(Box::new(Val(Bool(true)))))
            )
        );
        assert_logic(
            "x and y",
            And(
                Box::new(Expr::Var("x".to_string())),
                Box::new(Expr::Var("y".to_string()))
            )
        );
        assert_logic(
            "true and false or true xor false",
            Xor(
                Box::new(Or(
                    Box::new(And(Box::new(Val(Bool(true))), Box::new(Val(Bool(false))))),
                    Box::new(Val(Bool(true)))
                )),
                Box::new(Val(Bool(false)))
            )
        );
        assert_logic(
            "true and (false or not true)",
            And(
                Box::new(Val(Bool(true))),
                Box::new(Or(
                    Box::new(Val(Bool(false))),
                    Box::new(Not(Box::new(Val(Bool(true)))))
                ))
            )
        );
    }
    #[test]
    fn logic_test_compare() {
        assert_logic(
            "1 == 2",
            Equal(Box::new(Val(Nat(1))), Box::new(Val(Nat(2))))
        );
        assert_logic(
            "1 <= 2",
            Not(Box::new(Less(Box::new(Val(Nat(2))), Box::new(Val(Nat(1))))))
        );
        assert_logic(
            "1 + 1 == 2 - 0",
            Equal(
                Box::new(Add(Box::new(Val(Nat(1))), Box::new(Val(Nat(1))))),
                Box::new(Sub(Box::new(Val(Nat(2))), Box::new(Val(Nat(0)))))
            )
        );
        assert_logic(
            "(1 <= 2) == false",
            Equal(
                Box::new(Not(Box::new(Less(
                    Box::new(Val(Nat(2))),
                    Box::new(Val(Nat(1)))
                )))),
                Box::new(Val(Bool(false)))
            )
        );
    }
