//! Expressions and the reader of expressions.

use crate::errors::ParseError;
use crate::parser::cumin::{Cumin, CuminModel};
use crate::parser::module::read_cumin;
use crate::parser::grammar::{
    additive_at, additive_expr_at, additive_rest_at, annotation_at, apply_at, array_at,
    block_at, bracketed_at, cast_at, comparison_at, comparison_model, dict_at, dict_field_at,
    dict_fields_at, expr_at, exprs_at, factor_at, logic_at, minus_at, more_dict_fields_at,
    more_exprs_at, more_named_args_at, more_names_at, multiplicative_at, name_at, named_apply_at,
    named_arg_at, named_args_at, not_at, path_at, term_at, term_rest_at, tuple_at, wrap_path,
    Comparison,
};
use crate::parser::statement::text_views;
use crate::parser::typing::{parsed_typing, read_typing, Typing, TypingModel};
use crate::parser::util::{
    outcome, read_callee, read_identifier, skip_blank, skip_comma, skip_spaces,
};
use crate::parser::value::{read_value, Value, ValueModel};
use crate::text::{chars_of, has_char, has_tag, text_of};
use vstd::prelude::*;

verus! {

/// An expression of the language.
#[derive(Debug, PartialEq)]
pub enum Expr {
    Val(Value),
    Var(String),
    Apply(String, Vec<Expr>),
    FieledApply(String, Vec<(String, Expr)>),
    AnonymousStruct(Vec<(String, Typing, Expr)>),
    Concat(Box<Expr>, Box<Expr>),
    Add(Box<Expr>, Box<Expr>),
    Sub(Box<Expr>, Box<Expr>),
    Mul(Box<Expr>, Box<Expr>),
    Div(Box<Expr>, Box<Expr>),
    Mod(Box<Expr>, Box<Expr>),
    Pow(Box<Expr>, Box<Expr>),
    Minus(Box<Expr>),
    And(Box<Expr>, Box<Expr>),
    Or(Box<Expr>, Box<Expr>),
    Xor(Box<Expr>, Box<Expr>),
    Not(Box<Expr>),
    Equal(Box<Expr>, Box<Expr>),
    Less(Box<Expr>, Box<Expr>),
    Arrayed(Vec<Expr>),
    Tuple(Vec<Expr>),
    Blocked(Box<Cumin>),
    AsCast(Box<Expr>, Typing),
}

/// An operator with two operands.
#[derive(Debug, Clone, Copy, PartialEq, Eq, Hash, Structural)]
pub enum BinaryOp {
    Concat,
    Add,
    Sub,
    Mul,
    Div,
    Mod,
    Pow,
    And,
    Or,
    Xor,
    Equal,
    Less,
}

/// The mathematical value of an [`Expr`]. The operators with two operands
/// share one form.
pub enum ExprModel {
    Val(ValueModel),
    Var(Seq<char>),
    Apply(Seq<char>, Seq<ExprModel>),
    FieledApply(Seq<char>, Seq<(Seq<char>, ExprModel)>),
    AnonymousStruct(Seq<(Seq<char>, TypingModel, ExprModel)>),
    Binary(BinaryOp, Box<ExprModel>, Box<ExprModel>),
    Minus(Box<ExprModel>),
    Not(Box<ExprModel>),
    Arrayed(Seq<ExprModel>),
    Tuple(Seq<ExprModel>),
    Blocked(Box<CuminModel>),
    AsCast(Box<ExprModel>, TypingModel),
}

impl Expr {
    /// The mathematical value of this expression.
    pub open spec fn model(&self) -> ExprModel
        decreases self,
    {
        match self {
            Expr::Val(v) => ExprModel::Val(v@),
            Expr::Var(name) => ExprModel::Var(name@),
            Expr::Apply(name, args) => ExprModel::Apply(name@, expr_views(args@)),
            Expr::FieledApply(name, args) => ExprModel::FieledApply(name@, named_expr_views(args@)),
            Expr::AnonymousStruct(fields) => ExprModel::AnonymousStruct(typed_expr_views(fields@)),
            Expr::Concat(x, y) => ExprModel::Binary(
                BinaryOp::Concat,
                Box::new(x.model()),
                Box::new(y.model()),
            ),
            Expr::Add(x, y) => ExprModel::Binary(
                BinaryOp::Add,
                Box::new(x.model()),
                Box::new(y.model()),
            ),
            Expr::Sub(x, y) => ExprModel::Binary(
                BinaryOp::Sub,
                Box::new(x.model()),
                Box::new(y.model()),
            ),
            Expr::Mul(x, y) => ExprModel::Binary(
                BinaryOp::Mul,
                Box::new(x.model()),
                Box::new(y.model()),
            ),
            Expr::Div(x, y) => ExprModel::Binary(
                BinaryOp::Div,
                Box::new(x.model()),
                Box::new(y.model()),
            ),
            Expr::Mod(x, y) => ExprModel::Binary(
                BinaryOp::Mod,
                Box::new(x.model()),
                Box::new(y.model()),
            ),
            Expr::Pow(x, y) => ExprModel::Binary(
                BinaryOp::Pow,
                Box::new(x.model()),
                Box::new(y.model()),
            ),
            Expr::Minus(x) => ExprModel::Minus(Box::new(x.model())),
            Expr::And(x, y) => ExprModel::Binary(
                BinaryOp::And,
                Box::new(x.model()),
                Box::new(y.model()),
            ),
            Expr::Or(x, y) => ExprModel::Binary(
                BinaryOp::Or,
                Box::new(x.model()),
                Box::new(y.model()),
            ),
            Expr::Xor(x, y) => ExprModel::Binary(
                BinaryOp::Xor,
                Box::new(x.model()),
                Box::new(y.model()),
            ),
            Expr::Not(x) => ExprModel::Not(Box::new(x.model())),
            Expr::Equal(x, y) => ExprModel::Binary(
                BinaryOp::Equal,
                Box::new(x.model()),
                Box::new(y.model()),
            ),
            Expr::Less(x, y) => ExprModel::Binary(
                BinaryOp::Less,
                Box::new(x.model()),
                Box::new(y.model()),
            ),
            Expr::Arrayed(xs) => ExprModel::Arrayed(expr_views(xs@)),
            Expr::Tuple(xs) => ExprModel::Tuple(expr_views(xs@)),
            Expr::Blocked(c) => ExprModel::Blocked(Box::new(c.model())),
            Expr::AsCast(x, t) => ExprModel::AsCast(Box::new(x.model()), t@),
        }
    }
}

impl View for Expr {
    type V = ExprModel;

    open spec fn view(&self) -> ExprModel {
        self.model()
    }
}

/// The models of a sequence of expressions, position by position.
pub open spec fn expr_views(xs: Seq<Expr>) -> Seq<ExprModel>
    decreases xs,
{
    Seq::new(
        xs.len(),
        |i: int|
            if 0 <= i < xs.len() {
                xs[i].model()
            } else {
                ExprModel::Var(Seq::empty())
            },
    )
}

/// The models of a sequence of named expressions, position by position.
pub open spec fn named_expr_views(xs: Seq<(String, Expr)>) -> Seq<(Seq<char>, ExprModel)>
    decreases xs,
{
    Seq::new(
        xs.len(),
        |i: int|
            if 0 <= i < xs.len() {
                (xs[i].0@, xs[i].1.model())
            } else {
                (Seq::empty(), ExprModel::Var(Seq::empty()))
            },
    )
}

/// The models of a sequence of named and typed expressions, position by position.
pub open spec fn typed_expr_views(xs: Seq<(String, Typing, Expr)>) -> Seq<
    (Seq<char>, TypingModel, ExprModel),
>
    decreases xs,
{
    Seq::new(
        xs.len(),
        |i: int|
            if 0 <= i < xs.len() {
                (xs[i].0@, xs[i].1@, xs[i].2.model())
            } else {
                (Seq::empty(), TypingModel::Any, ExprModel::Var(Seq::empty()))
            },
    )
}

/// Copies a list of expressions.
#[verifier::loop_isolation(false)]
pub fn clone_exprs(xs: &Vec<Expr>) -> (r: Vec<Expr>)
    ensures
        expr_views(r@) == expr_views(xs@),
    decreases xs,
{
    let mut out: Vec<Expr> = Vec::new();
    let mut i: usize = 0;
    while i < xs.len()
        invariant
            i <= xs.len(),
            out.len() == i,
            forall|j: int| 0 <= j < i ==> out[j]@ == xs[j]@,
        decreases xs.len() - i,
    {
        out.push(xs[i].clone());
        i += 1;
    }
    assert(expr_views(out@) =~= expr_views(xs@));
    out
}

/// Copies a list of named expressions.
#[verifier::loop_isolation(false)]
pub fn clone_named_exprs(xs: &Vec<(String, Expr)>) -> (r: Vec<(String, Expr)>)
    ensures
        named_expr_views(r@) == named_expr_views(xs@),
    decreases xs,
{
    let mut out: Vec<(String, Expr)> = Vec::new();
    let mut i: usize = 0;
    while i < xs.len()
        invariant
            i <= xs.len(),
            out.len() == i,
            forall|j: int| 0 <= j < i ==> out[j].0@ == xs[j].0@ && out[j].1@ == xs[j].1@,
        decreases xs.len() - i,
    {
        out.push((xs[i].0.clone(), xs[i].1.clone()));
        i += 1;
    }
    assert(named_expr_views(out@) =~= named_expr_views(xs@));
    out
}

/// Copies a list of named and typed expressions.
#[verifier::loop_isolation(false)]
pub fn clone_typed_exprs(xs: &Vec<(String, Typing, Expr)>) -> (r: Vec<(String, Typing, Expr)>)
    ensures
        typed_expr_views(r@) == typed_expr_views(xs@),
    decreases xs,
{
    let mut out: Vec<(String, Typing, Expr)> = Vec::new();
    let mut i: usize = 0;
    while i < xs.len()
        invariant
            i <= xs.len(),
            out.len() == i,
            forall|j: int|
                0 <= j < i ==> out[j].0@ == xs[j].0@ && out[j].1@ == xs[j].1@ && out[j].2@
                    == xs[j].2@,
        decreases xs.len() - i,
    {
        out.push((xs[i].0.clone(), xs[i].1.clone(), xs[i].2.clone()));
        i += 1;
    }
    assert(typed_expr_views(out@) =~= typed_expr_views(xs@));
    out
}

impl Clone for Expr {
    fn clone(&self) -> (r: Expr)
        ensures
            r@ == self@,
        decreases self,
    {
        match self {
            Expr::Val(v) => Expr::Val(v.clone()),
            Expr::Var(name) => Expr::Var(name.clone()),
            Expr::Apply(name, args) => Expr::Apply(name.clone(), clone_exprs(args)),
            Expr::FieledApply(name, args) => Expr::FieledApply(
                name.clone(),
                clone_named_exprs(args),
            ),
            Expr::AnonymousStruct(fields) => Expr::AnonymousStruct(clone_typed_exprs(fields)),
            Expr::Concat(x, y) => Expr::Concat(Box::new((**x).clone()), Box::new((**y).clone())),
            Expr::Add(x, y) => Expr::Add(Box::new((**x).clone()), Box::new((**y).clone())),
            Expr::Sub(x, y) => Expr::Sub(Box::new((**x).clone()), Box::new((**y).clone())),
            Expr::Mul(x, y) => Expr::Mul(Box::new((**x).clone()), Box::new((**y).clone())),
            Expr::Div(x, y) => Expr::Div(Box::new((**x).clone()), Box::new((**y).clone())),
            Expr::Mod(x, y) => Expr::Mod(Box::new((**x).clone()), Box::new((**y).clone())),
            Expr::Pow(x, y) => Expr::Pow(Box::new((**x).clone()), Box::new((**y).clone())),
            Expr::Minus(x) => Expr::Minus(Box::new((**x).clone())),
            Expr::And(x, y) => Expr::And(Box::new((**x).clone()), Box::new((**y).clone())),
            Expr::Or(x, y) => Expr::Or(Box::new((**x).clone()), Box::new((**y).clone())),
            Expr::Xor(x, y) => Expr::Xor(Box::new((**x).clone()), Box::new((**y).clone())),
            Expr::Not(x) => Expr::Not(Box::new((**x).clone())),
            Expr::Equal(x, y) => Expr::Equal(Box::new((**x).clone()), Box::new((**y).clone())),
            Expr::Less(x, y) => Expr::Less(Box::new((**x).clone()), Box::new((**y).clone())),
            Expr::Arrayed(xs) => Expr::Arrayed(clone_exprs(xs)),
            Expr::Tuple(xs) => Expr::Tuple(clone_exprs(xs)),
            Expr::Blocked(c) => Expr::Blocked(Box::new((**c).clone())),
            Expr::AsCast(x, t) => Expr::AsCast(Box::new((**x).clone()), t.clone()),
        }
    }
}

/// The model of a parsed expression with the position after it.
pub open spec fn parsed_expr(r: Option<(Expr, usize)>) -> Option<(ExprModel, int)> {
    match r {
        Some((e, end)) => Some((e@, end as int)),
        None => None,
    }
}

/// The expression that joins two operands by an operator.
pub fn binary(op: BinaryOp, x: Expr, y: Expr) -> (r: Expr)
    ensures
        r@ == ExprModel::Binary(op, Box::new(x@), Box::new(y@)),
{
    match op {
        BinaryOp::Concat => Expr::Concat(Box::new(x), Box::new(y)),
        BinaryOp::Add => Expr::Add(Box::new(x), Box::new(y)),
        BinaryOp::Sub => Expr::Sub(Box::new(x), Box::new(y)),
        BinaryOp::Mul => Expr::Mul(Box::new(x), Box::new(y)),
        BinaryOp::Div => Expr::Div(Box::new(x), Box::new(y)),
        BinaryOp::Mod => Expr::Mod(Box::new(x), Box::new(y)),
        BinaryOp::Pow => Expr::Pow(Box::new(x), Box::new(y)),
        BinaryOp::And => Expr::And(Box::new(x), Box::new(y)),
        BinaryOp::Or => Expr::Or(Box::new(x), Box::new(y)),
        BinaryOp::Xor => Expr::Xor(Box::new(x), Box::new(y)),
        BinaryOp::Equal => Expr::Equal(Box::new(x), Box::new(y)),
        BinaryOp::Less => Expr::Less(Box::new(x), Box::new(y)),
    }
}

/// The expression that a comparison stands for.
pub fn comparison(op: Comparison, x: Expr, y: Expr) -> (r: Expr)
    ensures
        r@ == comparison_model(op, x@, y@),
{
    match op {
        Comparison::Equal => Expr::Equal(Box::new(x), Box::new(y)),
        Comparison::NotEqual => Expr::Not(Box::new(binary(BinaryOp::Equal, x, y))),
        Comparison::LessOrEqual => Expr::Not(Box::new(binary(BinaryOp::Less, y, x))),
        Comparison::GreaterOrEqual => Expr::Not(Box::new(binary(BinaryOp::Less, x, y))),
        Comparison::Less => Expr::Less(Box::new(x), Box::new(y)),
        Comparison::Greater => Expr::Less(Box::new(y), Box::new(x)),
    }
}

/// Reads the comparison operator at `pos`.
fn read_comparison(input: &Vec<char>, pos: usize) -> (r: Option<(Comparison, usize)>)
    requires
        pos <= input.len(),
    ensures
        comparison_at(input@, pos as int) == match r {
            Some((op, end)) => Some((op, end as int)),
            None => None,
        },
        r matches Some((_, end)) ==> pos < end <= input.len(),
{
    let equal = ['=', '='];
    let unequal = ['!', '='];
    let at_most = ['<', '='];
    let at_least = ['>', '='];
    assert(equal@ =~= seq!['=', '=']);
    assert(unequal@ =~= seq!['!', '=']);
    assert(at_most@ =~= seq!['<', '=']);
    assert(at_least@ =~= seq!['>', '=']);
    if has_tag(input, pos, &equal) {
        Some((Comparison::Equal, pos + 2))
    } else if has_tag(input, pos, &unequal) {
        Some((Comparison::NotEqual, pos + 2))
    } else if has_tag(input, pos, &at_most) {
        Some((Comparison::LessOrEqual, pos + 2))
    } else if has_tag(input, pos, &at_least) {
        Some((Comparison::GreaterOrEqual, pos + 2))
    } else if has_char(input, pos, '<') {
        Some((Comparison::Less, pos + 1))
    } else if has_char(input, pos, '>') {
        Some((Comparison::Greater, pos + 1))
    } else {
        None
    }
}

/// Reads the operator of the additive level at `pos`.
fn read_additive_op(input: &Vec<char>, pos: usize) -> (r: Option<(BinaryOp, usize)>)
    requires
        pos <= input.len(),
    ensures
        additive_at(input@, pos as int) == match r {
            Some((op, end)) => Some((op, end as int)),
            None => None,
        },
        r matches Some((_, end)) ==> pos < end <= input.len(),
{
    let w_and = ['a', 'n', 'd'];
    let w_or = ['o', 'r'];
    let w_xor = ['x', 'o', 'r'];
    let w_concat = ['+', '+'];
    assert(w_and@ =~= seq!['a', 'n', 'd']);
    assert(w_or@ =~= seq!['o', 'r']);
    assert(w_xor@ =~= seq!['x', 'o', 'r']);
    assert(w_concat@ =~= seq!['+', '+']);
    if has_tag(input, pos, &w_and) {
        Some((BinaryOp::And, pos + 3))
    } else if has_tag(input, pos, &w_or) {
        Some((BinaryOp::Or, pos + 2))
    } else if has_tag(input, pos, &w_xor) {
        Some((BinaryOp::Xor, pos + 3))
    } else if has_tag(input, pos, &w_concat) {
        Some((BinaryOp::Concat, pos + 2))
    } else if has_char(input, pos, '+') {
        Some((BinaryOp::Add, pos + 1))
    } else if has_char(input, pos, '-') {
        Some((BinaryOp::Sub, pos + 1))
    } else {
        None
    }
}

/// Reads the operator of the multiplicative level at `pos`.
fn read_multiplicative_op(input: &Vec<char>, pos: usize) -> (r: Option<(BinaryOp, usize)>)
    requires
        pos <= input.len(),
    ensures
        multiplicative_at(input@, pos as int) == match r {
            Some((op, end)) => Some((op, end as int)),
            None => None,
        },
        r matches Some((_, end)) ==> pos < end <= input.len(),
{
    let power = ['*', '*'];
    assert(power@ =~= seq!['*', '*']);
    if has_tag(input, pos, &power) {
        Some((BinaryOp::Pow, pos + 2))
    } else if has_char(input, pos, '*') {
        Some((BinaryOp::Mul, pos + 1))
    } else if has_char(input, pos, '/') {
        Some((BinaryOp::Div, pos + 1))
    } else if has_char(input, pos, '%') {
        Some((BinaryOp::Mod, pos + 1))
    } else {
        None
    }
}

/// Reads the type annotation at `pos`.
pub(crate) fn read_annotation(input: &Vec<char>, pos: usize) -> (r: Option<(Typing, usize)>)
    requires
        pos <= input.len(),
    ensures
        parsed_typing(r) == annotation_at(input@, pos as int),
        r matches Some((_, end)) ==> pos < end <= input.len(),
{
    if has_char(input, pos, ':') {
        match read_typing(input, skip_blank(input, pos + 1)) {
            Some((t, end)) => Some((t, skip_blank(input, end))),
            None => None,
        }
    } else {
        None
    }
}

/// Reads the name at `pos`.
fn read_name(input: &Vec<char>, pos: usize, applied: bool) -> (r: Option<(String, usize)>)
    requires
        pos <= input.len(),
    ensures
        name_at(input@, pos as int, applied) == match r {
            Some((name, end)) => Some((name@, end as int)),
            None => None,
        },
        r matches Some((_, end)) ==> pos < end <= input.len(),
{
    if applied {
        read_callee(input, pos)
    } else {
        read_identifier(input, pos)
    }
}

/// Reads the dotted path at `pos`.
#[verifier::loop_isolation(false)]
fn read_path(input: &Vec<char>, pos: usize, applied: bool) -> (r: Option<(Vec<String>, usize)>)
    requires
        pos <= input.len(),
    ensures
        path_at(input@, pos as int, applied) == match r {
            Some((names, end)) => Some((text_views(names@), end as int)),
            None => None,
        },
        r matches Some((names, end)) ==> pos < end <= input.len() && names.len() > 0,
{
    let (first, start) = match read_name(input, pos, applied) {
        Some(found) => found,
        None => {
            return None;
        },
    };
    let ghost s = input@;
    let ghost head = first@;
    let mut out: Vec<String> = Vec::new();
    out.push(first);
    let mut at: usize = start;
    assert(text_views(out@) =~= seq![head]);
    loop
        invariant
            pos < at <= input.len(),
            out.len() > 0,
            seq![head] + more_names_at(s, start as int, applied).0 == text_views(out@)
                + more_names_at(s, at as int, applied).0,
            more_names_at(s, start as int, applied).1 == more_names_at(s, at as int, applied).1,
        decreases input.len() - at,
    {
        if !has_char(input, at, '.') {
            break;
        }
        match read_name(input, at + 1, applied) {
            Some((name, end)) => {
                proof {
                    let before = text_views(out@);
                    let rest = more_names_at(s, end as int, applied).0;
                    assert(text_views(out@.push(name)) =~= before.push(name@));
                    assert(before + (seq![name@] + rest) =~= before.push(name@) + rest);
                }
                out.push(name);
                at = end;
            },
            None => {
                break;
            },
        }
    }
    assert(text_views(out@) + Seq::<Seq<char>>::empty() =~= text_views(out@));
    Some((out, at))
}

/// Applies the names of a path but the last to `inner`, the last of them innermost.
#[verifier::loop_isolation(false)]
fn wrap(names: &Vec<String>, inner: Expr) -> (r: Expr)
    requires
        names.len() > 0,
    ensures
        r@ == wrap_path(text_views(names@), names.len() - 1, inner@),
{
    let ghost path = text_views(names@);
    let mut e = inner;
    let mut k: usize = names.len() - 1;
    while k > 0
        invariant
            k < names.len(),
            wrap_path(path, names.len() - 1, inner@) == wrap_path(path, k as int, e@),
        decreases k,
    {
        let mut args: Vec<Expr> = Vec::new();
        let ghost before = e@;
        args.push(e);
        assert(expr_views(args@) =~= seq![before]);
        e = Expr::Apply(names[k - 1].clone(), args);
        k -= 1;
    }
    e
}

/// Reads the expression at `pos`.
pub(crate) fn read_expr(input: &Vec<char>, pos: usize) -> (r: Option<(Expr, usize)>)
    requires
        pos <= input.len(),
    ensures
        parsed_expr(r) == expr_at(input@, pos as int),
        r matches Some((_, end)) ==> pos < end <= input.len(),
    decreases input.len() - pos, 60nat,
{
    match read_logic(input, pos) {
        Some((e, end)) => Some((e, skip_blank(input, end))),
        None => None,
    }
}

/// Reads the comparison at `pos`.
pub(crate) fn read_logic(input: &Vec<char>, pos: usize) -> (r: Option<(Expr, usize)>)
    requires
        pos <= input.len(),
    ensures
        parsed_expr(r) == logic_at(input@, pos as int),
        r matches Some((_, end)) ==> pos < end <= input.len(),
    decreases input.len() - pos, 50nat,
{
    let (x, end) = match read_additive(input, pos) {
        Some(found) => found,
        None => {
            return None;
        },
    };
    match read_comparison(input, skip_blank(input, end)) {
        Some((op, after)) => {
            let right = skip_blank(input, after);
            match read_additive(input, right) {
                Some((y, last)) => Some((comparison(op, x, y), skip_blank(input, last))),
                None => Some((x, end)),
            }
        },
        None => Some((x, end)),
    }
}

/// Reads the additive expression at `pos`.
#[verifier::loop_isolation(false)]
fn read_additive(input: &Vec<char>, pos: usize) -> (r: Option<(Expr, usize)>)
    requires
        pos <= input.len(),
    ensures
        parsed_expr(r) == additive_expr_at(input@, pos as int),
        r matches Some((_, end)) ==> pos < end <= input.len(),
    decreases input.len() - pos, 40nat,
{
    let (x, end) = match read_term(input, pos) {
        Some(found) => found,
        None => {
            return None;
        },
    };
    let next = skip_blank(input, end);
    let ghost s = input@;
    let ghost first = x@;
    let mut acc = x;
    let mut at: usize = next;
    loop
        invariant
            pos < at <= input.len(),
            additive_rest_at(s, next as int, first) == additive_rest_at(s, at as int, acc@),
        decreases input.len() - at,
    {
        let (op, after) = match read_additive_op(input, at) {
            Some(found) => found,
            None => {
                break;
            },
        };
        let right = skip_blank(input, after);
        match read_term(input, right) {
            Some((y, last)) => {
                acc = binary(op, acc, y);
                at = last;
            },
            None => {
                break;
            },
        }
    }
    Some((acc, at))
}

/// Reads the term at `pos`.
#[verifier::loop_isolation(false)]
fn read_term(input: &Vec<char>, pos: usize) -> (r: Option<(Expr, usize)>)
    requires
        pos <= input.len(),
    ensures
        parsed_expr(r) == term_at(input@, pos as int),
        r matches Some((_, end)) ==> pos < end <= input.len(),
    decreases input.len() - pos, 30nat,
{
    let (x, end) = match read_cast(input, pos) {
        Some(found) => found,
        None => {
            return None;
        },
    };
    let next = skip_blank(input, end);
    let ghost s = input@;
    let ghost first = x@;
    let mut acc = x;
    let mut at: usize = next;
    loop
        invariant
            pos < at <= input.len(),
            term_rest_at(s, next as int, first) == term_rest_at(s, at as int, acc@),
        decreases input.len() - at,
    {
        let (op, after) = match read_multiplicative_op(input, at) {
            Some(found) => found,
            None => {
                break;
            },
        };
        let right = skip_blank(input, after);
        match read_cast(input, right) {
            Some((y, last)) => {
                acc = binary(op, acc, y);
                at = last;
            },
            None => {
                break;
            },
        }
    }
    Some((acc, at))
}

/// Reads the cast at `pos`.
fn read_cast(input: &Vec<char>, pos: usize) -> (r: Option<(Expr, usize)>)
    requires
        pos <= input.len(),
    ensures
        parsed_expr(r) == cast_at(input@, pos as int),
        r matches Some((_, end)) ==> pos < end <= input.len(),
    decreases input.len() - pos, 20nat,
{
    let (e, end) = match read_factor(input, pos) {
        Some(found) => found,
        None => {
            return None;
        },
    };
    let w_as = ['a', 's'];
    assert(w_as@ =~= seq!['a', 's']);
    let word = skip_blank(input, end);
    if has_tag(input, word, &w_as) {
        match read_typing(input, skip_blank(input, word + 2)) {
            Some((t, last)) => Some((Expr::AsCast(Box::new(e), t), last)),
            None => Some((e, end)),
        }
    } else {
        Some((e, end))
    }
}

/// Reads the factor at `pos`.
fn read_factor(input: &Vec<char>, pos: usize) -> (r: Option<(Expr, usize)>)
    requires
        pos <= input.len(),
    ensures
        parsed_expr(r) == factor_at(input@, pos as int),
        r matches Some((_, end)) ==> pos < end <= input.len(),
    decreases input.len() - pos, 10nat,
{
    let found = if let Some((v, end)) = read_value(input, pos) {
        Some((Expr::Val(v), end))
    } else if let Some(found) = read_not(input, pos) {
        Some(found)
    } else if let Some(found) = read_minus(input, pos) {
        Some(found)
    } else if let Some(found) = read_bracketed(input, pos) {
        Some(found)
    } else if let Some(found) = read_dict(input, pos) {
        Some(found)
    } else if let Some(found) = read_block(input, pos) {
        Some(found)
    } else if let Some(found) = read_array(input, pos) {
        Some(found)
    } else if let Some(found) = read_apply(input, pos) {
        Some(found)
    } else if let Some(found) = read_tuple(input, pos) {
        Some(found)
    } else if let Some(found) = read_named_apply(input, pos) {
        Some(found)
    } else {
        match read_identifier(input, pos) {
            Some((name, end)) => Some((Expr::Var(name), end)),
            None => None,
        }
    };
    match found {
        Some((e, end)) => Some((e, skip_blank(input, end))),
        None => None,
    }
}

/// Reads the negation with `not` at `pos`.
fn read_not(input: &Vec<char>, pos: usize) -> (r: Option<(Expr, usize)>)
    requires
        pos <= input.len(),
    ensures
        parsed_expr(r) == not_at(input@, pos as int),
        r matches Some((_, end)) ==> pos < end <= input.len(),
    decreases input.len() - pos, 5nat,
{
    let w_not = ['n', 'o', 't'];
    assert(w_not@ =~= seq!['n', 'o', 't']);
    if !has_tag(input, pos, &w_not) {
        return None;
    }
    if pos + 3 >= input.len() {
        return None;
    }
    if !(crate::parser::util::whitespace(input[pos + 3]) || input[pos + 3] == '(') {
        return None;
    }
    let operand = skip_spaces(input, pos + 3);
    match read_term(input, operand) {
        Some((e, end)) => Some((Expr::Not(Box::new(e)), end)),
        None => None,
    }
}

/// Reads the negation with `-` at `pos`.
fn read_minus(input: &Vec<char>, pos: usize) -> (r: Option<(Expr, usize)>)
    requires
        pos <= input.len(),
    ensures
        parsed_expr(r) == minus_at(input@, pos as int),
        r matches Some((_, end)) ==> pos < end <= input.len(),
    decreases input.len() - pos, 5nat,
{
    if !has_char(input, pos, '-') {
        return None;
    }
    match read_additive(input, pos + 1) {
        Some((e, end)) => Some((Expr::Minus(Box::new(e)), end)),
        None => None,
    }
}

/// Reads the expression in round brackets at `pos`.
fn read_bracketed(input: &Vec<char>, pos: usize) -> (r: Option<(Expr, usize)>)
    requires
        pos <= input.len(),
    ensures
        parsed_expr(r) == bracketed_at(input@, pos as int),
        r matches Some((_, end)) ==> pos < end <= input.len(),
    decreases input.len() - pos, 5nat,
{
    if !has_char(input, pos, '(') {
        return None;
    }
    let inner = skip_blank(input, pos + 1);
    match read_expr(input, inner) {
        Some((e, end)) => {
            let close = skip_blank(input, end);
            if has_char(input, close, ')') {
                Some((e, close + 1))
            } else {
                None
            }
        },
        None => None,
    }
}

/// Reads the field of a dict at `pos`.
fn read_dict_field(input: &Vec<char>, pos: usize) -> (r: Option<((String, Typing, Expr), usize)>)
    requires
        pos <= input.len(),
    ensures
        dict_field_at(input@, pos as int) == match r {
            Some((field, end)) => Some(((field.0@, field.1@, field.2@), end as int)),
            None => None,
        },
        r matches Some((_, end)) ==> pos < end <= input.len(),
    decreases input.len() - pos, 94nat,
{
    let (name, end) = match read_identifier(input, pos) {
        Some(found) => found,
        None => {
            return None;
        },
    };
    let after = skip_blank(input, end);
    let (typ, equals) = match read_annotation(input, after) {
        Some(found) => found,
        None => (Typing::Any, after),
    };
    if !has_char(input, equals, '=') {
        return None;
    }
    let value = skip_blank(input, equals + 1);
    match read_expr(input, value) {
        Some((e, last)) => Some(((name, typ, e), skip_blank(input, last))),
        None => None,
    }
}

/// Reads the fields of a dict at `pos`, separated by commas.
#[verifier::loop_isolation(false)]
fn read_dict_fields(input: &Vec<char>, pos: usize) -> (r: (Vec<(String, Typing, Expr)>, usize))
    requires
        pos <= input.len(),
    ensures
        dict_fields_at(input@, pos as int) == (typed_expr_views(r.0@), r.1 as int),
        pos <= r.1 <= input.len(),
    decreases input.len() - pos, 100nat,
{
    let ghost s = input@;
    let mut out: Vec<(String, Typing, Expr)> = Vec::new();
    let (first, start) = match read_dict_field(input, pos) {
        Some(found) => found,
        None => {
            assert(typed_expr_views(out@) =~= Seq::empty());
            return (out, pos);
        },
    };
    let ghost head = (first.0@, first.1@, first.2@);
    out.push(first);
    let mut at: usize = start;
    assert(typed_expr_views(out@) =~= seq![head]);
    loop
        invariant
            pos < at <= input.len(),
            seq![head] + more_dict_fields_at(s, start as int).0 == typed_expr_views(out@)
                + more_dict_fields_at(s, at as int).0,
            more_dict_fields_at(s, start as int).1 == more_dict_fields_at(s, at as int).1,
        decreases input.len() - at,
    {
        if !has_char(input, at, ',') {
            break;
        }
        let next = skip_blank(input, at + 1);
        match read_dict_field(input, next) {
            Some((field, end)) => {
                proof {
                    let before = typed_expr_views(out@);
                    let rest = more_dict_fields_at(s, end as int).0;
                    let item = (field.0@, field.1@, field.2@);
                    assert(typed_expr_views(out@.push(field)) =~= before.push(item));
                    assert(before + (seq![item] + rest) =~= before.push(item) + rest);
                }
                out.push(field);
                at = end;
            },
            None => {
                break;
            },
        }
    }
    assert(typed_expr_views(out@) + Seq::<(Seq<char>, TypingModel, ExprModel)>::empty()
        =~= typed_expr_views(out@));
    (out, at)
}

/// Reads the dict at `pos`.
fn read_dict(input: &Vec<char>, pos: usize) -> (r: Option<(Expr, usize)>)
    requires
        pos <= input.len(),
    ensures
        parsed_expr(r) == dict_at(input@, pos as int),
        r matches Some((_, end)) ==> pos < end <= input.len(),
    decreases input.len() - pos, 5nat,
{
    let open = ['{', '{'];
    let shut = ['}', '}'];
    assert(open@ =~= seq!['{', '{']);
    assert(shut@ =~= seq!['}', '}']);
    if !has_tag(input, pos, &open) {
        return None;
    }
    let inner = skip_blank(input, pos + 2);
    let (fields, end) = read_dict_fields(input, inner);
    let close = skip_comma(input, end);
    if has_tag(input, close, &shut) {
        Some((Expr::AnonymousStruct(fields), close + 2))
    } else {
        None
    }
}

/// Reads the block at `pos`.
fn read_block(input: &Vec<char>, pos: usize) -> (r: Option<(Expr, usize)>)
    requires
        pos <= input.len(),
    ensures
        parsed_expr(r) == block_at(input@, pos as int),
        r matches Some((_, end)) ==> pos < end <= input.len(),
    decreases input.len() - pos, 5nat,
{
    if !has_char(input, pos, '{') {
        return None;
    }
    match read_cumin(input, pos + 1) {
        Some((c, end)) => {
            if has_char(input, end, '}') {
                Some((Expr::Blocked(Box::new(c)), end + 1))
            } else {
                None
            }
        },
        None => None,
    }
}

/// Reads the expressions at `pos`, separated by commas.
#[verifier::loop_isolation(false)]
#[verifier::rlimit(60)]
fn read_exprs(input: &Vec<char>, pos: usize, padded: bool) -> (r: (Vec<Expr>, usize))
    requires
        pos <= input.len(),
    ensures
        exprs_at(input@, pos as int, padded) == (expr_views(r.0@), r.1 as int),
        pos <= r.1 <= input.len(),
    decreases input.len() - pos, 100nat,
{
    let ghost s = input@;
    let mut out: Vec<Expr> = Vec::new();
    let (first, after) = match read_expr(input, pos) {
        Some(found) => found,
        None => {
            assert(expr_views(out@) =~= Seq::empty());
            return (out, pos);
        },
    };
    let start = if padded {
        skip_blank(input, after)
    } else {
        after
    };
    let ghost head = first@;
    out.push(first);
    let mut at: usize = start;
    assert(expr_views(out@) =~= seq![head]);
    loop
        invariant
            pos < at <= input.len(),
            seq![head] + more_exprs_at(s, start as int, padded).0 == expr_views(out@)
                + more_exprs_at(s, at as int, padded).0,
            more_exprs_at(s, start as int, padded).1 == more_exprs_at(s, at as int, padded).1,
        decreases input.len() - at,
    {
        if !has_char(input, at, ',') {
            break;
        }
        let next = skip_blank(input, at + 1);
        match read_expr(input, next) {
            Some((e, after)) => {
                let end = if padded {
                    skip_blank(input, after)
                } else {
                    after
                };
                proof {
                    let before = expr_views(out@);
                    let rest = more_exprs_at(s, end as int, padded).0;
                    assert(expr_views(out@.push(e)) =~= before.push(e@));
                    assert(before + (seq![e@] + rest) =~= before.push(e@) + rest);
                }
                out.push(e);
                at = end;
            },
            None => {
                break;
            },
        }
    }
    assert(expr_views(out@) + Seq::<ExprModel>::empty() =~= expr_views(out@));
    (out, at)
}

/// Reads the array at `pos`.
fn read_array(input: &Vec<char>, pos: usize) -> (r: Option<(Expr, usize)>)
    requires
        pos <= input.len(),
    ensures
        parsed_expr(r) == array_at(input@, pos as int),
        r matches Some((_, end)) ==> pos < end <= input.len(),
    decreases input.len() - pos, 5nat,
{
    if !has_char(input, pos, '[') {
        return None;
    }
    let inner = skip_blank(input, pos + 1);
    let (elements, end) = read_exprs(input, inner, true);
    let close = skip_comma(input, end);
    if has_char(input, close, ']') {
        Some((Expr::Arrayed(elements), close + 1))
    } else {
        None
    }
}

/// Reads the application at `pos`.
fn read_apply(input: &Vec<char>, pos: usize) -> (r: Option<(Expr, usize)>)
    requires
        pos <= input.len(),
    ensures
        parsed_expr(r) == apply_at(input@, pos as int),
        r matches Some((_, end)) ==> pos < end <= input.len(),
    decreases input.len() - pos, 5nat,
{
    let (names, end) = match read_path(input, pos, true) {
        Some(found) => found,
        None => {
            return None;
        },
    };
    let open = skip_spaces(input, end);
    if !has_char(input, open, '(') {
        return None;
    }
    let inner = skip_blank(input, open + 1);
    let (args, last) = read_exprs(input, inner, false);
    let close = skip_comma(input, last);
    if has_char(input, close, ')') {
        let innermost = Expr::Apply(names[names.len() - 1].clone(), args);
        assert(text_views(names@).last() == names[names.len() - 1]@);
        Some((wrap(&names, innermost), close + 1))
    } else {
        None
    }
}

/// Reads the tuple at `pos`.
fn read_tuple(input: &Vec<char>, pos: usize) -> (r: Option<(Expr, usize)>)
    requires
        pos <= input.len(),
    ensures
        parsed_expr(r) == tuple_at(input@, pos as int),
        r matches Some((_, end)) ==> pos < end <= input.len(),
    decreases input.len() - pos, 5nat,
{
    if !has_char(input, pos, '(') {
        return None;
    }
    let (elements, end) = read_exprs(input, pos + 1, false);
    assert(expr_views(elements@).len() == elements.len());
    if elements.len() > 0 && has_char(input, end, ')') {
        Some((Expr::Tuple(elements), end + 1))
    } else {
        None
    }
}

/// Reads the named argument at `pos`.
fn read_named_arg(input: &Vec<char>, pos: usize) -> (r: Option<((String, Expr), usize)>)
    requires
        pos <= input.len(),
    ensures
        named_arg_at(input@, pos as int) == match r {
            Some((arg, end)) => Some(((arg.0@, arg.1@), end as int)),
            None => None,
        },
        r matches Some((_, end)) ==> pos < end <= input.len(),
    decreases input.len() - pos, 94nat,
{
    let (name, end) = match read_identifier(input, pos) {
        Some(found) => found,
        None => {
            return None;
        },
    };
    let equals = skip_blank(input, end);
    if !has_char(input, equals, '=') {
        return None;
    }
    let value = skip_blank(input, equals + 1);
    match read_expr(input, value) {
        Some((e, last)) => Some(((name, e), skip_blank(input, last))),
        None => None,
    }
}

/// Reads the named arguments at `pos`, separated by commas.
#[verifier::loop_isolation(false)]
fn read_named_args(input: &Vec<char>, pos: usize) -> (r: (Vec<(String, Expr)>, usize))
    requires
        pos <= input.len(),
    ensures
        named_args_at(input@, pos as int) == (named_expr_views(r.0@), r.1 as int),
        pos <= r.1 <= input.len(),
    decreases input.len() - pos, 100nat,
{
    let ghost s = input@;
    let mut out: Vec<(String, Expr)> = Vec::new();
    let (first, start) = match read_named_arg(input, pos) {
        Some(found) => found,
        None => {
            assert(named_expr_views(out@) =~= Seq::empty());
            return (out, pos);
        },
    };
    let ghost head = (first.0@, first.1@);
    out.push(first);
    let mut at: usize = start;
    assert(named_expr_views(out@) =~= seq![head]);
    loop
        invariant
            pos < at <= input.len(),
            seq![head] + more_named_args_at(s, start as int).0 == named_expr_views(out@)
                + more_named_args_at(s, at as int).0,
            more_named_args_at(s, start as int).1 == more_named_args_at(s, at as int).1,
        decreases input.len() - at,
    {
        if !has_char(input, at, ',') {
            break;
        }
        let next = skip_blank(input, at + 1);
        match read_named_arg(input, next) {
            Some((arg, end)) => {
                proof {
                    let before = named_expr_views(out@);
                    let rest = more_named_args_at(s, end as int).0;
                    let item = (arg.0@, arg.1@);
                    assert(named_expr_views(out@.push(arg)) =~= before.push(item));
                    assert(before + (seq![item] + rest) =~= before.push(item) + rest);
                }
                out.push(arg);
                at = end;
            },
            None => {
                break;
            },
        }
    }
    assert(named_expr_views(out@) + Seq::<(Seq<char>, ExprModel)>::empty() =~= named_expr_views(
        out@,
    ));
    (out, at)
}

/// Reads the application with named arguments at `pos`.
fn read_named_apply(input: &Vec<char>, pos: usize) -> (r: Option<(Expr, usize)>)
    requires
        pos <= input.len(),
    ensures
        parsed_expr(r) == named_apply_at(input@, pos as int),
        r matches Some((_, end)) ==> pos < end <= input.len(),
    decreases input.len() - pos, 5nat,
{
    let (names, end) = match read_path(input, pos, false) {
        Some(found) => found,
        None => {
            return None;
        },
    };
    let open = skip_blank(input, end);
    if !has_char(input, open, '{') {
        return None;
    }
    let inner = skip_blank(input, open + 1);
    let (args, last) = read_named_args(input, inner);
    let close = skip_comma(input, last);
    if has_char(input, close, '}') {
        let innermost = Expr::FieledApply(names[names.len() - 1].clone(), args);
        assert(text_views(names@).last() == names[names.len() - 1]@);
        Some((wrap(&names, innermost), close + 1))
    } else {
        None
    }
}

/// Reads the expression that begins a text.
pub fn expr(input: &str) -> (r: Result<(String, Expr), ParseError>)
    ensures
        match r {
            Ok((rest, e)) => outcome(input@, expr_at(input@, 0)) == Ok::<
                (Seq<char>, ExprModel),
                Seq<char>,
            >((rest@, e@)),
            Err(e) => outcome(input@, expr_at(input@, 0)) == Err::<
                (Seq<char>, ExprModel),
                Seq<char>,
            >(e.rest@),
        },
{
    let chars = chars_of(input);
    match read_expr(&chars, 0) {
        Some((e, end)) => {
            let rest = text_of(&chars, end, chars.len());
            assert(chars@.subrange(end as int, chars.len() as int) =~= input@.skip(end as int));
            Ok((rest, e))
        },
        None => {
            let rest = text_of(&chars, 0, chars.len());
            assert(chars@.subrange(0, chars.len() as int) =~= input@);
            Err(ParseError { rest })
        },
    }
}

/// Reads the comparison that begins a text.
pub fn logic_expr(input: &str) -> (r: Result<(String, Expr), ParseError>)
    ensures
        match r {
            Ok((rest, e)) => outcome(input@, logic_at(input@, 0)) == Ok::<
                (Seq<char>, ExprModel),
                Seq<char>,
            >((rest@, e@)),
            Err(e) => outcome(input@, logic_at(input@, 0)) == Err::<
                (Seq<char>, ExprModel),
                Seq<char>,
            >(e.rest@),
        },
{
    let chars = chars_of(input);
    match read_logic(&chars, 0) {
        Some((e, end)) => {
            let rest = text_of(&chars, end, chars.len());
            assert(chars@.subrange(end as int, chars.len() as int) =~= input@.skip(end as int));
            Ok((rest, e))
        },
        None => {
            let rest = text_of(&chars, 0, chars.len());
            assert(chars@.subrange(0, chars.len() as int) =~= input@);
            Err(ParseError { rest })
        },
    }
}

} // verus!
