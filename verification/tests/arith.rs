use cumin::parser::expr::logic_expr;
use cumin::parser::expr::Expr;
use cumin::parser::expr::Expr::{Add, Div, Mul, Sub, Val};
use cumin::parser::value::Value::Nat;

fn parsed(code: &str) -> Result<(Expr, &'static str), String> {
    match logic_expr(code) {
        Ok((rest, e)) => {
            assert_eq!(rest, "");
            Ok((e, ""))
        }
        Err(e) => Err(e.rest),
    }
}


    #[test]
    fn arith_test() {
        assert_eq!(
            parsed("1  /2"),
            Ok((Div(Box::new(Val(Nat(1))), Box::new(Val(Nat(2))),), ""))
        );
        assert_eq!(
            parsed("1 + 2 - 3"),
            Ok((
                Sub(
                    Box::new(Add(Box::new(Val(Nat(1))), Box::new(Val(Nat(2))),)),
                    Box::new(Val(Nat(3)))
                ),
                ""
            ))
        );
        assert_eq!(
            parsed("1 * 2 * 3 / 4"),
            Ok((
                Div(
                    Box::new(Mul(
                        Box::new(Mul(Box::new(Val(Nat(1))), Box::new(Val(Nat(2))),)),
                        Box::new(Val(Nat(3)))
                    )),
                    Box::new(Val(Nat(4)))
                ),
                ""
            ))
        );
        assert_eq!(
            parsed("1 + 2 * 3"),
            Ok((
                Add(
                    Box::new(Val(Nat(1))),
                    Box::new(Mul(Box::new(Val(Nat(2))), Box::new(Val(Nat(3))),))
                ),
                ""
            ))
        );
        assert_eq!(
            parsed("(1 + 2) * ((3) / 4 - 5)"),
            Ok((
                Mul(
                    Box::new(Add(Box::new(Val(Nat(1))), Box::new(Val(Nat(2))),)),
                    Box::new(Sub(
                        Box::new(Div(Box::new(Val(Nat(3))), Box::new(Val(Nat(4))),)),
                        Box::new(Val(Nat(5)))
                    ))
                ),
                ""
            ))
        );
    }
