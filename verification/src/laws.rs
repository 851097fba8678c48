//! Laws of the type algebra, of integer arithmetic, of bindings and of the
//! JSON text.

use crate::environ::{binding_of, with_var, BindingModel, EnvironModel};
use crate::errors::EvalErrorModel;
use crate::host::{AnswerModel, RequestModel};
use crate::json::{
    escaped_char, escaped_from, hex_digit, hex_value, json_text, quoted, read_back, read_from,
    JsonModel, JSON,
};
use crate::operators::arithmetic_model;
use crate::parser::cumin::CuminModel;
use crate::parser::expr::{BinaryOp, ExprModel};
use crate::parser::statement::StatementModel;
use crate::parser::typing::{is_numeric, unify_from, unify_model, TypingModel};
use crate::parser::value::{cast_model, type_of_model, ValueModel};
use crate::semantics::{bound, bound_one, declared, eval_conf, eval_expr, hoisted};
use crate::text::{int_digits, int_of_text, is_digit, lemma_nat_digits, nat_digits, nat_of_text};
use vstd::prelude::*;

verus! {

/// A value converted to the type it reports is the value itself.
pub proof fn lemma_cast_own_type(v: ValueModel)
    ensures
        cast_model(v, type_of_model(v)) == Ok::<ValueModel, EvalErrorModel>(v),
{
}

/// `Any` is a two-sided identity of unification.
pub proof fn lemma_unify_any(t: TypingModel)
    ensures
        unify_model(t, TypingModel::Any) == Some(t),
        unify_model(TypingModel::Any, t) == Some(t),
{
}

/// On the numeric types unification is commutative.
pub proof fn lemma_unify_numeric_commutative(a: TypingModel, b: TypingModel)
    requires
        is_numeric(a),
        is_numeric(b),
    ensures
        unify_model(a, b) == unify_model(b, a),
        unify_model(a, b) is Some,
        is_numeric(unify_model(a, b)->0),
{
}

/// On the numeric types unification is associative.
pub proof fn lemma_unify_numeric_associative(a: TypingModel, b: TypingModel, c: TypingModel)
    requires
        is_numeric(a),
        is_numeric(b),
        is_numeric(c),
    ensures
        unify_model(unify_model(a, b)->0, c) == unify_model(a, unify_model(b, c)->0),
{
}

/// Unification is commutative on all types.
pub proof fn lemma_unify_commutative(a: TypingModel, b: TypingModel)
    ensures
        unify_model(a, b) == unify_model(b, a),
    decreases a,
{
    if a != b {
        match (a, b) {
            (TypingModel::Array(s), TypingModel::Array(t)) => {
                lemma_unify_commutative(*s, *t);
            },
            (TypingModel::Option(s), TypingModel::Option(t)) => {
                lemma_unify_commutative(*s, *t);
            },
            (TypingModel::Tuple(xs), TypingModel::Tuple(ys)) => {
                if xs.len() == ys.len() {
                    lemma_unify_from_commutative(xs, ys, 0);
                }
            },
            _ => {},
        }
    }
}

/// [`lemma_unify_commutative`] for two sequences of one length, from position `i` on.
proof fn lemma_unify_from_commutative(xs: Seq<TypingModel>, ys: Seq<TypingModel>, i: int)
    requires
        xs.len() == ys.len(),
        0 <= i,
    ensures
        unify_from(xs, ys, i) == unify_from(ys, xs, i),
    decreases xs, xs.len() - i,
{
    if i < xs.len() {
        lemma_unify_commutative(xs[i], ys[i]);
        lemma_unify_from_commutative(xs, ys, i + 1);
    }
}

/// The difference of two `Nat`s is a `Nat` where the first is at least
/// the second, and an `Int` otherwise; the `Int` is there where the
/// difference fits one.
pub proof fn lemma_nat_difference(x: nat, y: nat)
    requires
        x <= u128::MAX,
        y <= u128::MAX,
    ensures
        x >= y ==> arithmetic_model(BinaryOp::Sub, ValueModel::Nat(x), ValueModel::Nat(y)) == Ok::<
            ValueModel,
            EvalErrorModel,
        >(ValueModel::Nat((x - y) as nat)),
        x < y && x - y >= i128::MIN ==> arithmetic_model(
            BinaryOp::Sub,
            ValueModel::Nat(x),
            ValueModel::Nat(y),
        ) == Ok::<ValueModel, EvalErrorModel>(ValueModel::Int(x - y)),
        x < y && x - y < i128::MIN ==> arithmetic_model(
            BinaryOp::Sub,
            ValueModel::Nat(x),
            ValueModel::Nat(y),
        ) == Err::<ValueModel, EvalErrorModel>(EvalErrorModel::ArithmeticError),
{
}

/// Two JSON values with one model have one text: the text depends on
/// nothing but the value.
pub proof fn lemma_text_determined(a: JSON, b: JSON, s: Seq<char>, t: Seq<char>)
    requires
        a@ == b@,
        s == json_text(a@),
        t == json_text(b@),
    ensures
        s == t,
{
}

/// The digits of a number begin with a digit.
proof fn lemma_digits_begin_with_a_digit(n: nat)
    ensures
        nat_digits(n).len() > 0,
        is_digit(nat_digits(n)[0]),
{
    lemma_nat_digits(n);
}

/// The text of a `Nat` reads back as the same number, whatever its size.
pub proof fn lemma_nat_text_reads_back(n: nat)
    requires
        n <= u128::MAX,
    ensures
        nat_of_text(json_text(JsonModel::Nat(n))) == Some(n),
{
    lemma_nat_digits(n);
    lemma_digits_begin_with_a_digit(n);
}

/// The text of an `Int` reads back as the same number, whatever its size.
pub proof fn lemma_int_text_reads_back(n: int)
    requires
        i128::MIN <= n <= i128::MAX,
    ensures
        int_of_text(json_text(JsonModel::Int(n))) == Some(n),
{
    if n < 0 {
        let m = (-n) as nat;
        lemma_nat_digits(m);
        let s = int_digits(n);
        assert(s[0] == '-');
        assert(s.skip(1) =~= nat_digits(m));
    } else {
        lemma_nat_digits(n as nat);
        lemma_digits_begin_with_a_digit(n as nat);
    }
}

/// A program that binds a name to an expression, without a type, and
/// gives the name as its result comes to what the expression alone comes to.
pub proof fn lemma_binding_is_its_expression(
    env: EnvironModel,
    name: Seq<char>,
    e: ExprModel,
    host: Seq<(RequestModel, AnswerModel)>,
    depth: nat,
)
    ensures
        eval_conf(
            env,
            CuminModel {
                statements: seq![StatementModel::Let(name, TypingModel::Any, e)],
                result: ExprModel::Var(name),
            },
            host,
            depth,
        ) == eval_expr(env, e, host, depth),
{
    let statement = StatementModel::Let(name, TypingModel::Any, e);
    let statements = seq![statement];
    let c = CuminModel { statements, result: ExprModel::Var(name) };
    assert(hoisted(env, statements, 1) == env);
    assert(hoisted(env, statements, 0) == env);
    assert(declared(env, statements, host, depth) == bound(env, statements, host, depth, 0));
    match eval_expr(env, e, host, depth) {
        Ok(v) => {
            let next = with_var(env, BindingModel { name, typ: TypingModel::Any, value: v });
            assert(cast_model(v, TypingModel::Any) == Ok::<ValueModel, EvalErrorModel>(v));
            assert(bound_one(env, statement, host, depth) == Ok::<EnvironModel, EvalErrorModel>(
                next,
            ));
            assert(bound(next, statements, host, depth, 1) == Ok::<EnvironModel, EvalErrorModel>(
                next,
            ));
            assert(bound(env, statements, host, depth, 0) == Ok::<EnvironModel, EvalErrorModel>(
                next,
            ));
            assert(binding_of(next, name) == Some(
                BindingModel { name, typ: TypingModel::Any, value: v },
            )) by {
                assert(next.vars.len() == env.vars.len() + 1);
                assert(next.vars[next.vars.len() - 1] == BindingModel {
                    name,
                    typ: TypingModel::Any,
                    value: v,
                });
            }
            assert(eval_expr(next, ExprModel::Var(name), host, depth) == Ok::<
                ValueModel,
                EvalErrorModel,
            >(v));
        },
        Err(err) => {
            assert(bound_one(env, statement, host, depth) == Err::<EnvironModel, EvalErrorModel>(
                err,
            ));
            assert(bound(env, statements, host, depth, 0) == Err::<EnvironModel, EvalErrorModel>(
                err,
            ));
        },
    }
}

/// The two digits of base sixteen of a control character stand for its code.
proof fn lemma_control_code(c: char)
    requires
        (c as nat) < 32,
    ensures
        hex_value('0') == Some(0nat),
        hex_value(hex_digit(c as nat / 16)) == Some(c as nat / 16),
        hex_value(hex_digit(c as nat % 16)) == Some(c as nat % 16),
        ((0 * 16 + 0) * 16 + c as nat / 16) * 16 + c as nat % 16 == c as nat,
        ((c as nat) as u32) as char == c,
{
}

/// A reader of JSON that stands at the escaped form of the characters of
/// `s` from position `i` on, with a quote behind them, reads those
/// characters and stops at the quote.
proof fn lemma_read_escaped(before: Seq<char>, s: Seq<char>, i: int)
    requires
        0 <= i <= s.len(),
    ensures
        read_from(before + escaped_from(s, i) + seq!['"'], before.len() as int) == Some(
            (s.subrange(i, s.len() as int), (before + escaped_from(s, i)).len() as int),
        ),
    decreases s.len() - i,
{
    let t = before + escaped_from(s, i) + seq!['"'];
    let at = before.len() as int;
    if i == s.len() {
        assert(escaped_from(s, i) =~= Seq::<char>::empty());
        assert(t[at] == '"');
        assert(s.subrange(i, s.len() as int) =~= Seq::<char>::empty());
    } else {
        let c = s[i];
        let piece = escaped_char(c);
        let next = before + piece;
        lemma_read_escaped(next, s, i + 1);
        assert(t =~= next + escaped_from(s, i + 1) + seq!['"']);
        assert(next + escaped_from(s, i + 1) =~= before + escaped_from(s, i));
        assert(s.subrange(i, s.len() as int) =~= seq![c] + s.subrange(i + 1, s.len() as int));
        assert(forall|k: int| 0 <= k < piece.len() ==> t[at + k] == piece[k]);
        if c == '"' || c == '\\' || c == '\n' || c == '\r' || c == '\t' {
            assert(t[at] == piece[0]);
            assert(t[at + 1] == piece[1]);
        } else if (c as nat) < 32 {
            let high = c as nat / 16;
            let low = c as nat % 16;
            assert(t[at] == piece[0]);
            assert(t[at + 1] == piece[1]);
            assert(t[at + 2] == piece[2]);
            assert(t[at + 3] == piece[3]);
            assert(t[at + 4] == piece[4]);
            assert(t[at + 5] == piece[5]);
            lemma_control_code(c);
        } else {
            assert(t[at] == c);
        }
    }
}

/// A text written as a JSON string reads back as the same text.
pub proof fn lemma_string_reads_back(s: Seq<char>)
    ensures
        read_back(quoted(s)) == Some(s),
        read_back(json_text(JsonModel::Str(s))) == Some(s),
{
    let before = seq!['"'];
    lemma_read_escaped(before, s, 0);
    assert(quoted(s) =~= before + escaped_from(s, 0) + seq!['"']);
    assert(s.subrange(0, s.len() as int) =~= s);
}

} // verus!
