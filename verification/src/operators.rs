//! The operators of the language on values.

use crate::arith::{power, truncated_quotient, truncated_remainder, Wide};
use crate::builtins::{concat, concat_model};
use crate::errors::{EvalError, EvalErrorModel};
use crate::host::{answer_to, Answer, AnswerModel, FloatOrder, Host, Request, RequestModel};
use crate::numeric::{FloatModel, FloatOp, FloatTerm};
use crate::parser::expr::BinaryOp;
use crate::parser::value::{value_result_view, value_views, Value, ValueModel};
use vstd::prelude::*;

verus! {

/// The integer that a `Nat` or an `Int` holds.
pub open spec fn integer_of(v: ValueModel) -> Option<int> {
    match v {
        ValueModel::Nat(n) => Some(n as int),
        ValueModel::Int(n) => Some(n),
        _ => None,
    }
}

/// The floating-point number that a number turns into where it meets one.
pub open spec fn float_of(v: ValueModel) -> Option<FloatModel> {
    match v {
        ValueModel::Nat(n) => Some(FloatModel::Nat(n)),
        ValueModel::Int(n) => Some(FloatModel::Int(n)),
        ValueModel::Float(x) => Some(x),
        _ => None,
    }
}

/// An integer as a `Nat`, where it is one.
pub open spec fn nat_result(x: int) -> Result<ValueModel, EvalErrorModel> {
    if 0 <= x <= u128::MAX {
        Ok(ValueModel::Nat(x as nat))
    } else {
        Err(EvalErrorModel::ArithmeticError)
    }
}

/// An integer as an `Int`, where it fits one.
pub open spec fn int_result(x: int) -> Result<ValueModel, EvalErrorModel> {
    if i128::MIN <= x <= i128::MAX {
        Ok(ValueModel::Int(x))
    } else {
        Err(EvalErrorModel::ArithmeticError)
    }
}

/// The operation on floating-point numbers that an operator stands for.
pub open spec fn float_op(op: BinaryOp) -> FloatOp {
    match op {
        BinaryOp::Add => FloatOp::Add,
        BinaryOp::Sub => FloatOp::Sub,
        BinaryOp::Mul => FloatOp::Mul,
        BinaryOp::Div => FloatOp::Div,
        BinaryOp::Mod => FloatOp::Rem,
        _ => FloatOp::Pow,
    }
}

/// Whether an operator is one of `+ - * / % **`.
pub open spec fn is_arithmetic(op: BinaryOp) -> bool {
    op is Add || op is Sub || op is Mul || op is Div || op is Mod || op is Pow
}

/// The result of an arithmetic operator on two integers. Two `Nat`s give
/// a `Nat`, but for a difference below zero, which is an `Int`; with an
/// `Int` among them the result is an `Int`. A result that does not fit,
/// and a division by zero, are an `ArithmeticError`. The exponent of a
/// power is not negative here.
pub open spec fn integer_model(op: BinaryOp, x: int, y: int, nats: bool) -> Result<
    ValueModel,
    EvalErrorModel,
> {
    let exact = match op {
        BinaryOp::Add => Some(x + y),
        BinaryOp::Sub => Some(x - y),
        BinaryOp::Mul => Some(x * y),
        BinaryOp::Div => if y == 0 {
            None
        } else {
            Some(truncated_quotient(x, y))
        },
        BinaryOp::Mod => if y == 0 {
            None
        } else {
            Some(truncated_remainder(x, y))
        },
        _ => Some(power(x, y as nat)),
    };
    match exact {
        Some(r) => if nats && !(op is Sub && x < y) {
            nat_result(r)
        } else {
            int_result(r)
        },
        None => Err(EvalErrorModel::ArithmeticError),
    }
}

/// The result of an arithmetic operator. Integers follow
/// [`integer_model`], but a power with a negative exponent is a
/// floating-point number. With a floating-point operand the result is the
/// term of the operation on both operands as floating-point numbers. `+`
/// joins two strings. Everything else is a `TypeError`.
pub open spec fn arithmetic_model(op: BinaryOp, a: ValueModel, b: ValueModel) -> Result<
    ValueModel,
    EvalErrorModel,
> {
    match (float_of(a), float_of(b)) {
        (Some(f), Some(g)) => match (integer_of(a), integer_of(b)) {
            (Some(x), Some(y)) => if op is Pow && y < 0 {
                Ok(ValueModel::Float(FloatModel::PowInt(Box::new(f), y)))
            } else {
                integer_model(op, x, y, a is Nat && b is Nat)
            },
            _ => if op is Pow && b is Nat {
                Ok(ValueModel::Float(FloatModel::PowNat(Box::new(f), b->Nat_0)))
            } else if op is Pow && b is Int {
                Ok(ValueModel::Float(FloatModel::PowInt(Box::new(f), b->Int_0)))
            } else {
                Ok(ValueModel::Float(FloatModel::Binary(float_op(op), Box::new(f), Box::new(g))))
            },
        },
        _ => match (a, b) {
            (ValueModel::Str(s), ValueModel::Str(t)) => if op is Add {
                Ok(ValueModel::Str(s + t))
            } else {
                Err(EvalErrorModel::TypeError)
            },
            _ => Err(EvalErrorModel::TypeError),
        },
    }
}

/// The result of `and`, `or` and `xor`: both operands are truth values.
pub open spec fn logic_model(op: BinaryOp, a: ValueModel, b: ValueModel) -> Result<
    ValueModel,
    EvalErrorModel,
> {
    match (a, b) {
        (ValueModel::Bool(x), ValueModel::Bool(y)) => Ok(
            ValueModel::Bool(
                match op {
                    BinaryOp::And => x && y,
                    BinaryOp::Or => x || y,
                    _ => x != y,
                },
            ),
        ),
        _ => Err(EvalErrorModel::TypeError),
    }
}

/// The result of `==` and `<`. Two integers compare as integers; with a
/// floating-point operand the host says how the two compare as
/// floating-point numbers; of two truth values `false` is the lesser.
pub open spec fn comparison_value(
    op: BinaryOp,
    a: ValueModel,
    b: ValueModel,
    host: Seq<(RequestModel, AnswerModel)>,
) -> Result<ValueModel, EvalErrorModel> {
    match (float_of(a), float_of(b)) {
        (Some(f), Some(g)) => match (integer_of(a), integer_of(b)) {
            (Some(x), Some(y)) => Ok(
                ValueModel::Bool(
                    if op is Equal {
                        x == y
                    } else {
                        x < y
                    },
                ),
            ),
            _ => match answer_to(host, RequestModel::FloatOrder(f, g)) {
                Some(AnswerModel::Order(o)) => Ok(
                    ValueModel::Bool(
                        if op is Equal {
                            o is Equal
                        } else {
                            o is Less
                        },
                    ),
                ),
                _ => Err(EvalErrorModel::Pending(RequestModel::FloatOrder(f, g))),
            },
        },
        _ => match (a, b) {
            (ValueModel::Bool(x), ValueModel::Bool(y)) => Ok(
                ValueModel::Bool(
                    if op is Equal {
                        x == y
                    } else {
                        !x && y
                    },
                ),
            ),
            _ => Err(EvalErrorModel::TypeError),
        },
    }
}

/// The result of an operator with two operands.
pub open spec fn binary_model(
    op: BinaryOp,
    a: ValueModel,
    b: ValueModel,
    host: Seq<(RequestModel, AnswerModel)>,
) -> Result<ValueModel, EvalErrorModel> {
    match op {
        BinaryOp::Concat => concat_model(seq![a, b]),
        BinaryOp::And | BinaryOp::Or | BinaryOp::Xor => logic_model(op, a, b),
        BinaryOp::Equal | BinaryOp::Less => comparison_value(op, a, b, host),
        _ => arithmetic_model(op, a, b),
    }
}

/// The result of the negation with `-`.
pub open spec fn minus_model(a: ValueModel) -> Result<ValueModel, EvalErrorModel> {
    match a {
        ValueModel::Nat(n) => int_result(-(n as int)),
        ValueModel::Int(n) => int_result(-n),
        ValueModel::Float(x) => Ok(ValueModel::Float(FloatModel::Neg(Box::new(x)))),
        _ => Err(EvalErrorModel::TypeError),
    }
}

/// The result of the negation with `not`.
pub open spec fn not_model(a: ValueModel) -> Result<ValueModel, EvalErrorModel> {
    match a {
        ValueModel::Bool(x) => Ok(ValueModel::Bool(!x)),
        _ => Err(EvalErrorModel::TypeError),
    }
}

/// The integer that a `Nat` or an `Int` holds, in wide form.
fn wide_of(v: &Value) -> (r: Option<Wide>)
    ensures
        integer_of(v@) == match r {
            Some(w) => Some(w.value()),
            None => None,
        },
{
    match v {
        Value::Nat(n) => Some(Wide::of_nat(*n)),
        Value::Int(n) => Some(Wide::of_int(*n)),
        _ => None,
    }
}

/// The floating-point number that a number turns into where it meets one.
fn term_of(v: &Value) -> (r: Option<FloatTerm>)
    ensures
        float_of(v@) == match r {
            Some(x) => Some(x@),
            None => None,
        },
{
    match v {
        Value::Nat(n) => Some(FloatTerm::Nat(*n)),
        Value::Int(n) => Some(FloatTerm::Int(*n)),
        Value::Float(x) => Some(x.clone()),
        _ => None,
    }
}

/// The operation on floating-point numbers that an operator stands for.
fn float_operation(op: BinaryOp) -> (r: FloatOp)
    ensures
        r == float_op(op),
{
    match op {
        BinaryOp::Add => FloatOp::Add,
        BinaryOp::Sub => FloatOp::Sub,
        BinaryOp::Mul => FloatOp::Mul,
        BinaryOp::Div => FloatOp::Div,
        BinaryOp::Mod => FloatOp::Rem,
        _ => FloatOp::Pow,
    }
}

/// A wide integer as a `Nat` or, where `nats` does not hold, as an `Int`.
fn fit(w: Option<Wide>, nats: bool, Ghost(exact): Ghost<int>) -> (r: Result<Value, EvalError>)
    requires
        match w {
            Some(w) => w.value() == exact,
            None => crate::arith::out_of_range(exact),
        },
    ensures
        value_result_view(r) == if nats {
            nat_result(exact)
        } else {
            int_result(exact)
        },
{
    match w {
        Some(w) => {
            if nats {
                match w.to_nat() {
                    Some(n) => Ok(Value::Nat(n)),
                    None => Err(EvalError::ArithmeticError),
                }
            } else {
                match w.to_int() {
                    Some(n) => Ok(Value::Int(n)),
                    None => Err(EvalError::ArithmeticError),
                }
            }
        },
        None => Err(EvalError::ArithmeticError),
    }
}

/// Applies an arithmetic operator to two integers.
fn integers(op: BinaryOp, x: Wide, y: Wide, nats: bool) -> (r: Result<Value, EvalError>)
    requires
        is_arithmetic(op),
        op is Pow ==> y.value() >= 0,
        nats ==> x.value() >= 0 && y.value() >= 0,
    ensures
        value_result_view(r) == integer_model(op, x.value(), y.value(), nats),
{
    match op {
        BinaryOp::Add => fit(x.plus(&y), nats, Ghost(x.value() + y.value())),
        BinaryOp::Sub => {
            let difference = x.minus(&y);
            let natural = nats && match difference {
                Some(d) => !(d.negative && d.magnitude > 0),
                None => false,
            };
            fit(difference, natural, Ghost(x.value() - y.value()))
        },
        BinaryOp::Mul => fit(x.times(&y), nats, Ghost(x.value() * y.value())),
        BinaryOp::Div => {
            match x.quotient(&y) {
                Some(q) => fit(Some(q), nats, Ghost(truncated_quotient(x.value(), y.value()))),
                None => Err(EvalError::ArithmeticError),
            }
        },
        BinaryOp::Mod => {
            match x.remainder(&y) {
                Some(q) => fit(Some(q), nats, Ghost(truncated_remainder(x.value(), y.value()))),
                None => Err(EvalError::ArithmeticError),
            }
        },
        _ => fit(x.raised(y.magnitude), nats, Ghost(power(x.value(), y.value() as nat))),
    }
}

/// Applies an arithmetic operator.
fn arithmetic(op: BinaryOp, a: &Value, b: &Value) -> (r: Result<Value, EvalError>)
    requires
        is_arithmetic(op),
    ensures
        value_result_view(r) == arithmetic_model(op, a@, b@),
{
    match (term_of(a), term_of(b)) {
        (Some(f), Some(g)) => {
            match (wide_of(a), wide_of(b)) {
                (Some(x), Some(y)) => {
                    let power = match op {
                        BinaryOp::Pow => true,
                        _ => false,
                    };
                    if power && y.negative && y.magnitude > 0 {
                        match b {
                            Value::Int(n) => Ok(Value::Float(FloatTerm::PowInt(Box::new(f), *n))),
                            _ => Err(EvalError::TypeError),
                        }
                    } else {
                        let nats = match (a, b) {
                            (Value::Nat(_), Value::Nat(_)) => true,
                            _ => false,
                        };
                        integers(op, x, y, nats)
                    }
                },
                _ => {
                    match (op, b) {
                        (BinaryOp::Pow, Value::Nat(n)) => Ok(
                            Value::Float(FloatTerm::PowNat(Box::new(f), *n)),
                        ),
                        (BinaryOp::Pow, Value::Int(n)) => Ok(
                            Value::Float(FloatTerm::PowInt(Box::new(f), *n)),
                        ),
                        _ => Ok(
                            Value::Float(
                                FloatTerm::Binary(float_operation(op), Box::new(f), Box::new(g)),
                            ),
                        ),
                    }
                },
            }
        },
        _ => {
            match (op, a, b) {
                (BinaryOp::Add, Value::Str(s), Value::Str(t)) => {
                    let mut joined = s.clone();
                    joined.append(t.as_str());
                    Ok(Value::Str(joined))
                },
                _ => Err(EvalError::TypeError),
            }
        },
    }
}

/// Applies `and`, `or` or `xor`.
pub fn logic(op: BinaryOp, a: &Value, b: &Value) -> (r: Result<Value, EvalError>)
    ensures
        value_result_view(r) == logic_model(op, a@, b@),
{
    match (a, b) {
        (Value::Bool(x), Value::Bool(y)) => {
            let value = match op {
                BinaryOp::And => *x && *y,
                BinaryOp::Or => *x || *y,
                _ => *x != *y,
            };
            Ok(Value::Bool(value))
        },
        _ => Err(EvalError::TypeError),
    }
}

/// Applies `==` or `<`.
pub fn compare(op: BinaryOp, a: &Value, b: &Value, host: &Host) -> (r: Result<Value, EvalError>)
    ensures
        value_result_view(r) == comparison_value(op, a@, b@, host@),
{
    let equal = match op {
        BinaryOp::Equal => true,
        _ => false,
    };
    match (term_of(a), term_of(b)) {
        (Some(f), Some(g)) => {
            match (wide_of(a), wide_of(b)) {
                (Some(x), Some(y)) => {
                    let difference = x.minus(&y);
                    let value = match difference {
                        Some(d) => {
                            if equal {
                                d.magnitude == 0
                            } else {
                                d.negative && d.magnitude > 0
                            }
                        },
                        None => !equal && x.negative,
                    };
                    Ok(Value::Bool(value))
                },
                _ => {
                    let request = Request::FloatOrder(f, g);
                    match host.answer(&request) {
                        Some(Answer::Order(o)) => {
                            let value = match (equal, o) {
                                (true, FloatOrder::Equal) => true,
                                (false, FloatOrder::Less) => true,
                                _ => false,
                            };
                            Ok(Value::Bool(value))
                        },
                        _ => Err(EvalError::Pending(request)),
                    }
                },
            }
        },
        _ => {
            match (a, b) {
                (Value::Bool(x), Value::Bool(y)) => {
                    Ok(
                        Value::Bool(
                            if equal {
                                *x == *y
                            } else {
                                !*x && *y
                            },
                        ),
                    )
                },
                _ => Err(EvalError::TypeError),
            }
        },
    }
}

/// Applies an operator with two operands.
pub fn apply_binary(op: BinaryOp, a: Value, b: Value, host: &Host) -> (r: Result<Value, EvalError>)
    ensures
        value_result_view(r) == binary_model(op, a@, b@, host@),
{
    match op {
        BinaryOp::Concat => {
            let ghost both = seq![a@, b@];
            let mut args: Vec<Value> = Vec::new();
            args.push(a);
            args.push(b);
            assert(value_views(args@) =~= both);
            concat(&args)
        },
        BinaryOp::And | BinaryOp::Or | BinaryOp::Xor => logic(op, &a, &b),
        BinaryOp::Equal | BinaryOp::Less => compare(op, &a, &b, host),
        _ => arithmetic(op, &a, &b),
    }
}

/// Applies the negation with `-`.
pub fn apply_minus(a: Value) -> (r: Result<Value, EvalError>)
    ensures
        value_result_view(r) == minus_model(a@),
{
    match a {
        Value::Nat(n) => {
            let opposite = Wide { negative: true, magnitude: n };
            match opposite.to_int() {
                Some(x) => Ok(Value::Int(x)),
                None => Err(EvalError::ArithmeticError),
            }
        },
        Value::Int(n) => {
            if n == i128::MIN {
                Err(EvalError::ArithmeticError)
            } else {
                Ok(Value::Int(-n))
            }
        },
        Value::Float(x) => Ok(Value::Float(FloatTerm::Neg(Box::new(x)))),
        _ => Err(EvalError::TypeError),
    }
}

/// Applies the negation with `not`.
pub fn apply_not(a: Value) -> (r: Result<Value, EvalError>)
    ensures
        value_result_view(r) == not_model(a@),
{
    match a {
        Value::Bool(x) => Ok(Value::Bool(!x)),
        _ => Err(EvalError::TypeError),
    }
}

} // verus!
