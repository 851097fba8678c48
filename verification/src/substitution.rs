//! Substitution: in an expression that binds no name and builds no struct,
//! a bound name can stand for the expression that it is bound to.

use crate::environ::{
    binding_of, find_last, struct_of, with_var, BindingModel, EnvironModel,
};
use crate::errors::EvalErrorModel;
use crate::host::{AnswerModel, RequestModel};
use crate::parser::cumin::CuminModel;
use crate::parser::expr::ExprModel;
use crate::parser::statement::StatementModel;
use crate::parser::typing::TypingModel;
use crate::parser::value::{cast_model, ValueModel};
use crate::semantics::{
    apply_model, bound, bound_one, declared, eval_conf, eval_expr, eval_exprs, eval_named,
    eval_typed, hoisted, literal_model, named_apply_model,
};
use vstd::prelude::*;

verus! {

/// Whether an expression is plain in an environment: it is made of
/// literals, variables, operators, casts, arrays, tuples, dicts and
/// applications of names that are no structs there. Such an expression
/// holds no block, so that it binds no name, and builds no struct, whose
/// defaults would look names up where the struct is built.
pub open spec fn is_plain(env: EnvironModel, e: ExprModel) -> bool
    decreases e,
{
    match e {
        ExprModel::Val(_) => true,
        ExprModel::Var(_) => true,
        ExprModel::Binary(_, x, y) => is_plain(env, *x) && is_plain(env, *y),
        ExprModel::Minus(x) => is_plain(env, *x),
        ExprModel::Not(x) => is_plain(env, *x),
        ExprModel::AsCast(x, _) => is_plain(env, *x),
        ExprModel::Arrayed(xs) => forall|i: int|
            0 <= i < xs.len() ==> is_plain(env, #[trigger] xs[i]),
        ExprModel::Tuple(xs) => forall|i: int|
            0 <= i < xs.len() ==> is_plain(env, #[trigger] xs[i]),
        ExprModel::AnonymousStruct(fields) => forall|i: int|
            0 <= i < fields.len() ==> is_plain(env, (#[trigger] fields[i]).2),
        ExprModel::Apply(name, args) => struct_of(env, name) is None && forall|i: int|
            0 <= i < args.len() ==> is_plain(env, #[trigger] args[i]),
        ExprModel::FieledApply(name, args) => struct_of(env, name) is None && forall|i: int|
            0 <= i < args.len() ==> is_plain(env, (#[trigger] args[i]).1),
        ExprModel::Blocked(_) => false,
    }
}

/// The expression `body` with `e` in the place of every variable `name`.
/// Blocks are left as they are.
pub open spec fn substituted(body: ExprModel, name: Seq<char>, e: ExprModel) -> ExprModel
    decreases body,
{
    match body {
        ExprModel::Var(other) => if other == name {
            e
        } else {
            body
        },
        ExprModel::Binary(op, x, y) => ExprModel::Binary(
            op,
            Box::new(substituted(*x, name, e)),
            Box::new(substituted(*y, name, e)),
        ),
        ExprModel::Minus(x) => ExprModel::Minus(Box::new(substituted(*x, name, e))),
        ExprModel::Not(x) => ExprModel::Not(Box::new(substituted(*x, name, e))),
        ExprModel::AsCast(x, t) => ExprModel::AsCast(Box::new(substituted(*x, name, e)), t),
        ExprModel::Arrayed(xs) => ExprModel::Arrayed(substituted_each(xs, name, e)),
        ExprModel::Tuple(xs) => ExprModel::Tuple(substituted_each(xs, name, e)),
        ExprModel::AnonymousStruct(fields) => ExprModel::AnonymousStruct(
            substituted_fields(fields, name, e),
        ),
        ExprModel::Apply(applied, args) => ExprModel::Apply(
            applied,
            substituted_each(args, name, e),
        ),
        ExprModel::FieledApply(applied, args) => ExprModel::FieledApply(
            applied,
            substituted_named(args, name, e),
        ),
        _ => body,
    }
}

/// The named expressions of `xs`, each with `e` in the place of `name`.
pub open spec fn substituted_named(xs: Seq<(Seq<char>, ExprModel)>, name: Seq<char>, e: ExprModel) -> Seq<
    (Seq<char>, ExprModel),
>
    decreases xs,
{
    Seq::new(
        xs.len(),
        |i: int|
            if 0 <= i < xs.len() {
                (xs[i].0, substituted(xs[i].1, name, e))
            } else {
                (name, e)
            },
    )
}

/// The expressions of `xs`, each with `e` in the place of `name`.
pub open spec fn substituted_each(xs: Seq<ExprModel>, name: Seq<char>, e: ExprModel) -> Seq<
    ExprModel,
>
    decreases xs,
{
    Seq::new(
        xs.len(),
        |i: int|
            if 0 <= i < xs.len() {
                substituted(xs[i], name, e)
            } else {
                e
            },
    )
}

/// The fields of `xs`, each with `e` in the place of `name`.
pub open spec fn substituted_fields(
    xs: Seq<(Seq<char>, TypingModel, ExprModel)>,
    name: Seq<char>,
    e: ExprModel,
) -> Seq<(Seq<char>, TypingModel, ExprModel)>
    decreases xs,
{
    Seq::new(
        xs.len(),
        |i: int|
            if 0 <= i < xs.len() {
                (xs[i].0, xs[i].1, substituted(xs[i].2, name, e))
            } else {
                (name, TypingModel::Any, e)
            },
    )
}

/// The environment with `name` bound to `v`, without a type.
pub open spec fn extended(env: EnvironModel, name: Seq<char>, v: ValueModel) -> EnvironModel {
    with_var(env, BindingModel { name, typ: TypingModel::Any, value: v })
}

/// In a plain expression a variable can stand for the expression that
/// it is bound to, and the other way round: where `e` has the value `v`,
/// `body` with `name` bound to `v` has the value of `body` with `e` in
/// the place of `name`.
pub proof fn lemma_substitution(
    env: EnvironModel,
    name: Seq<char>,
    e: ExprModel,
    v: ValueModel,
    body: ExprModel,
    host: Seq<(RequestModel, AnswerModel)>,
    depth: nat,
)
    requires
        eval_expr(env, e, host, depth) == Ok::<ValueModel, EvalErrorModel>(v),
        is_plain(env, body),
    ensures
        eval_expr(extended(env, name, v), body, host, depth) == eval_expr(
            env,
            substituted(body, name, e),
            host,
            depth,
        ),
    decreases body, 0nat,
{
    let inner = extended(env, name, v);
    match body {
        ExprModel::Val(literal) => {
            assert(literal_model(inner, literal, host) == literal_model(env, literal, host));
        },
        ExprModel::Var(other) => {
            let key = |d: BindingModel| d.name;
            assert(inner.vars.len() == env.vars.len() + 1);
            assert(inner.vars[inner.vars.len() - 1] == BindingModel {
                name,
                typ: TypingModel::Any,
                value: v,
            });
            if other != name {
                lemma_find_in_prefix(env.vars, inner.vars, other, key, env.vars.len() as int);
                assert(find_last(inner.vars, other, key, inner.vars.len() as int) == find_last(
                    inner.vars,
                    other,
                    key,
                    env.vars.len() as int,
                ));
            }
        },
        ExprModel::Binary(_, x, y) => {
            lemma_substitution(env, name, e, v, *x, host, depth);
            lemma_substitution(env, name, e, v, *y, host, depth);
        },
        ExprModel::Minus(x) => {
            lemma_substitution(env, name, e, v, *x, host, depth);
        },
        ExprModel::Not(x) => {
            lemma_substitution(env, name, e, v, *x, host, depth);
        },
        ExprModel::AsCast(x, _) => {
            lemma_substitution(env, name, e, v, *x, host, depth);
        },
        ExprModel::Arrayed(xs) => {
            lemma_substitution_each(env, name, e, v, xs, host, depth, 0);
        },
        ExprModel::Tuple(xs) => {
            lemma_substitution_each(env, name, e, v, xs, host, depth, 0);
        },
        ExprModel::AnonymousStruct(fields) => {
            lemma_substitution_fields(env, name, e, v, fields, host, depth, 0);
        },
        ExprModel::Apply(applied, args) => {
            lemma_substitution_each(env, name, e, v, args, host, depth, 0);
            assert(struct_of(inner, applied) == struct_of(env, applied));
            match eval_exprs(inner, args, host, depth, 0) {
                Ok(vs) => {
                    assert(apply_model(inner, applied, vs, host, depth) == apply_model(
                        env,
                        applied,
                        vs,
                        host,
                        depth,
                    ));
                },
                Err(_) => {},
            }
        },
        ExprModel::FieledApply(applied, args) => {
            lemma_substitution_named(env, name, e, v, args, host, depth, 0);
            assert(struct_of(inner, applied) == struct_of(env, applied));
            match eval_named(inner, args, host, depth, 0) {
                Ok(vs) => {
                    assert(named_apply_model(inner, applied, vs, host, depth)
                        == named_apply_model(env, applied, vs, host, depth));
                },
                Err(_) => {},
            }
        },
        _ => {},
    }
}

/// [`lemma_substitution`] for the named expressions of a sequence from position `i` on.
proof fn lemma_substitution_named(
    env: EnvironModel,
    name: Seq<char>,
    e: ExprModel,
    v: ValueModel,
    xs: Seq<(Seq<char>, ExprModel)>,
    host: Seq<(RequestModel, AnswerModel)>,
    depth: nat,
    i: int,
)
    requires
        eval_expr(env, e, host, depth) == Ok::<ValueModel, EvalErrorModel>(v),
        forall|j: int| 0 <= j < xs.len() ==> is_plain(env, (#[trigger] xs[j]).1),
        0 <= i,
    ensures
        eval_named(extended(env, name, v), xs, host, depth, i) == eval_named(
            env,
            substituted_named(xs, name, e),
            host,
            depth,
            i,
        ),
    decreases xs, xs.len() - i,
{
    if i < xs.len() {
        lemma_substitution(env, name, e, v, xs[i].1, host, depth);
        lemma_substitution_named(env, name, e, v, xs, host, depth, i + 1);
        assert(substituted_named(xs, name, e)[i] == (xs[i].0, substituted(xs[i].1, name, e)));
    }
}

/// The last entry under a name among the first `i` entries is the same
/// in two sequences that agree on those entries.
proof fn lemma_find_in_prefix(
    short: Seq<BindingModel>,
    long: Seq<BindingModel>,
    name: Seq<char>,
    key: spec_fn(BindingModel) -> Seq<char>,
    i: int,
)
    requires
        0 <= i <= short.len() <= long.len(),
        forall|j: int| 0 <= j < short.len() ==> short[j] == long[j],
    ensures
        find_last(short, name, key, i) == find_last(long, name, key, i),
    decreases i,
{
    if i > 0 {
        lemma_find_in_prefix(short, long, name, key, i - 1);
    }
}

/// [`lemma_substitution`] for the expressions of a sequence from position `i` on.
proof fn lemma_substitution_each(
    env: EnvironModel,
    name: Seq<char>,
    e: ExprModel,
    v: ValueModel,
    xs: Seq<ExprModel>,
    host: Seq<(RequestModel, AnswerModel)>,
    depth: nat,
    i: int,
)
    requires
        eval_expr(env, e, host, depth) == Ok::<ValueModel, EvalErrorModel>(v),
        forall|j: int| 0 <= j < xs.len() ==> is_plain(env, #[trigger] xs[j]),
        0 <= i,
    ensures
        eval_exprs(extended(env, name, v), xs, host, depth, i) == eval_exprs(
            env,
            substituted_each(xs, name, e),
            host,
            depth,
            i,
        ),
    decreases xs, xs.len() - i,
{
    if i < xs.len() {
        lemma_substitution(env, name, e, v, xs[i], host, depth);
        lemma_substitution_each(env, name, e, v, xs, host, depth, i + 1);
        assert(substituted_each(xs, name, e)[i] == substituted(xs[i], name, e));
    }
}

/// [`lemma_substitution`] for the fields of a dict from position `i` on.
proof fn lemma_substitution_fields(
    env: EnvironModel,
    name: Seq<char>,
    e: ExprModel,
    v: ValueModel,
    xs: Seq<(Seq<char>, TypingModel, ExprModel)>,
    host: Seq<(RequestModel, AnswerModel)>,
    depth: nat,
    i: int,
)
    requires
        eval_expr(env, e, host, depth) == Ok::<ValueModel, EvalErrorModel>(v),
        forall|j: int| 0 <= j < xs.len() ==> is_plain(env, (#[trigger] xs[j]).2),
        0 <= i,
    ensures
        eval_typed(extended(env, name, v), xs, host, depth, i) == eval_typed(
            env,
            substituted_fields(xs, name, e),
            host,
            depth,
            i,
        ),
    decreases xs, xs.len() - i,
{
    if i < xs.len() {
        lemma_substitution(env, name, e, v, xs[i].2, host, depth);
        lemma_substitution_fields(env, name, e, v, xs, host, depth, i + 1);
        assert(substituted_fields(xs, name, e)[i] == (
            xs[i].0,
            xs[i].1,
            substituted(xs[i].2, name, e),
        ));
    }
}

/// A program that binds a name to an expression, without a type, and
/// then gives a plain expression comes to what that expression comes to
/// with the bound expression in the place of the name, where the bound
/// expression has a value.
pub proof fn lemma_binding_can_be_substituted(
    env: EnvironModel,
    name: Seq<char>,
    e: ExprModel,
    body: ExprModel,
    host: Seq<(RequestModel, AnswerModel)>,
    depth: nat,
)
    requires
        eval_expr(env, e, host, depth) is Ok,
        is_plain(env, body),
    ensures
        eval_conf(
            env,
            CuminModel {
                statements: seq![StatementModel::Let(name, TypingModel::Any, e)],
                result: body,
            },
            host,
            depth,
        ) == eval_expr(env, substituted(body, name, e), host, depth),
{
    let v = eval_expr(env, e, host, depth)->Ok_0;
    let statement = StatementModel::Let(name, TypingModel::Any, e);
    let statements = seq![statement];
    let next = extended(env, name, v);
    assert(hoisted(env, statements, 1) == env);
    assert(hoisted(env, statements, 0) == env);
    assert(declared(env, statements, host, depth) == bound(env, statements, host, depth, 0));
    assert(cast_model(v, TypingModel::Any) == Ok::<ValueModel, EvalErrorModel>(v));
    assert(bound_one(env, statement, host, depth) == Ok::<EnvironModel, EvalErrorModel>(next));
    assert(bound(next, statements, host, depth, 1) == Ok::<EnvironModel, EvalErrorModel>(next));
    assert(bound(env, statements, host, depth, 0) == Ok::<EnvironModel, EvalErrorModel>(next));
    lemma_substitution(env, name, e, v, body, host, depth);
}

} // verus!
