//! The evaluator: it computes what [`crate::semantics`] defines.

use crate::builtins::{concat, reverse};
use crate::environ::{empty_environ, has_text, Environ, EnvironModel, FunctionDecl, StructDecl};
use crate::errors::{EvalError, EvalErrorModel};
use crate::host::{clone_text_option, text_option_view, Answer, Host, Request};
use crate::json::{json_result_view, project_model, JSON, JsonModel};
use crate::operators::{apply_binary, apply_minus, apply_not};
use crate::parser::cumin::{clone_params, clone_texts, clone_typings, Cumin, CuminModel};
use crate::parser::expr::{expr_views, named_expr_views, typed_expr_views, BinaryOp, Expr};
use crate::parser::module::load_module;
use crate::parser::statement::{
    lemma_param_views, param_view, param_views, statement_views, text_views, Statement,
};
use crate::parser::typing::{typing_views, Typing, TypingModel};
use crate::parser::value::{field_views, value_result_view, value_views, Value, ValueModel};
use crate::semantics;
use crate::semantics::{
    all_known, apply_model, argument_of, array_model, bind_params, bound, bound_one, build_model,
    call_model, cast_values, declared, fill_fields, given_by_name, given_in_order, has_param,
    hoisted, imported, literal_model, name_concat, name_not, name_reverse, name_some,
    named_apply_model, supplied_model, unify_values, upcast_model,
};
use crate::text::{chars_of, same_chars};
use vstd::prelude::*;

verus! {

/// How deep defaults, function bodies and modules may nest.
pub const MAX_DEPTH: usize = 128;

/// What a program comes to: the JSON value of the value of its result,
/// from an environment in which nothing is declared.
pub open spec fn evaluation(
    c: CuminModel,
    cd: Option<Seq<char>>,
    host: Seq<(crate::host::RequestModel, crate::host::AnswerModel)>,
) -> Result<JsonModel, EvalErrorModel> {
    match semantics::eval_conf(empty_environ(cd), c, host, MAX_DEPTH as nat) {
        Ok(v) => project_model(v, host),
        Err(e) => Err(e),
    }
}

/// Evaluates a program to a JSON value. `cd` is the directory from which
/// the host resolves the paths of imports. Where the host has not yet
/// answered something that the program needs, the result is that request.
pub fn eval(cumin: Cumin, cd: Option<String>, host: &Host) -> (r: Result<JSON, EvalError>)
    ensures
        json_result_view(r) == evaluation(cumin@, text_option_view(cd), host@),
{
    match eval_conf(Environ::new(cd), &cumin, host, MAX_DEPTH) {
        Ok(v) => JSON::from_cumin(v, host),
        Err(e) => Err(e),
    }
}

/// The models of what is given for a sequence of parameters.
pub open spec fn given_views(xs: Seq<Option<Value>>) -> Seq<Option<ValueModel>> {
    Seq::new(
        xs.len(),
        |i: int|
            match xs[i] {
                Some(v) => Some(v@),
                None => None,
            },
    )
}

/// The model of the outcome of an operation that yields values.
pub open spec fn values_result_view(r: Result<Vec<Value>, EvalError>) -> Result<
    Seq<ValueModel>,
    EvalErrorModel,
> {
    match r {
        Ok(vs) => Ok(value_views(vs@)),
        Err(e) => Err(e@),
    }
}

/// The model of the outcome of an operation that yields named values.
pub open spec fn fields_result_view(r: Result<Vec<(String, Value)>, EvalError>) -> Result<
    Seq<(Seq<char>, ValueModel)>,
    EvalErrorModel,
> {
    match r {
        Ok(vs) => Ok(field_views(vs@)),
        Err(e) => Err(e@),
    }
}

/// Tells whether `x` is among the texts of `xs`.
#[verifier::loop_isolation(false)]
fn contains_text(xs: &Vec<String>, x: &String) -> (r: bool)
    ensures
        r == has_text(text_views(xs@), x@, xs.len() as int),
{
    let mut i: usize = xs.len();
    while i > 0
        invariant
            i <= xs.len(),
            has_text(text_views(xs@), x@, xs.len() as int) == has_text(
                text_views(xs@),
                x@,
                i as int,
            ),
        decreases i,
    {
        if xs[i - 1] == *x {
            return true;
        }
        i -= 1;
    }
    false
}

/// Evaluates a literal.
pub fn eval_value(env: &Environ, value: &Value, host: &Host) -> (r: Result<Value, EvalError>)
    ensures
        value_result_view(r) == literal_model(env@, value@, host@),
{
    match value {
        Value::Env(name, default) => {
            let request = Request::EnvVar(name.clone());
            match host.answer(&request) {
                Some(Answer::Text(text)) => Ok(Value::Str(text.clone())),
                Some(Answer::Absent) => {
                    match default {
                        Some(text) => Ok(Value::Str(text.clone())),
                        None => Err(EvalError::NameError),
                    }
                },
                _ => Err(EvalError::Pending(request)),
            }
        },
        Value::EnumVariant(name, variant) => {
            match env.enumeration(name) {
                Some(d) => {
                    if contains_text(&d.variants, variant) {
                        Ok(value.clone())
                    } else {
                        Err(EvalError::EnumError)
                    }
                },
                None => Err(EvalError::NameError),
            }
        },
        _ => Ok(value.clone()),
    }
}

/// Builds the array of some values.
#[verifier::loop_isolation(false)]
pub fn make_array(values: &Vec<Value>) -> (r: Result<Value, EvalError>)
    ensures
        value_result_view(r) == array_model(value_views(values@)),
{
    let ghost vs = value_views(values@);
    let mut t = Typing::Any;
    let mut i: usize = 0;
    while i < values.len()
        invariant
            i <= values.len(),
            unify_values(vs, TypingModel::Any, 0) == unify_values(vs, t@, i as int),
        decreases values.len() - i,
    {
        assert(vs[i as int] == values[i as int]@);
        let own = values[i].type_of();
        match Typing::unify(&t, &own) {
            Some(u) => {
                t = u;
            },
            None => {
                return Err(EvalError::TypeError);
            },
        }
        i += 1;
    }
    let mut out: Vec<Value> = Vec::new();
    let mut j: usize = 0;
    assert(value_views(out@) + cast_values(vs, t@, 0)->Ok_0 =~= cast_values(vs, t@, 0)->Ok_0);
    while j < values.len()
        invariant
            j <= values.len(),
            cast_values(vs, t@, 0) == match cast_values(vs, t@, j as int) {
                Ok(rest) => Ok(value_views(out@) + rest),
                Err(e) => Err(e),
            },
        decreases values.len() - j,
    {
        assert(vs[j as int] == values[j as int]@);
        let ghost before = value_views(out@);
        match values[j].cast(&t) {
            Ok(w) => {
                out.push(w);
                proof {
                    assert(value_views(out@) =~= before.push(w@));
                    if cast_values(vs, t@, j + 1) is Ok {
                        let rest = cast_values(vs, t@, j + 1)->Ok_0;
                        assert(before + (seq![w@] + rest) =~= before.push(w@) + rest);
                    }
                }
            },
            Err(e) => {
                return Err(e);
            },
        }
        j += 1;
    }
    assert(value_views(out@) + Seq::<ValueModel>::empty() =~= value_views(out@));
    Ok(Value::Array(t, out))
}

/// Builds the value of a sum.
#[verifier::loop_isolation(false)]
pub fn upcast(name: &String, variants: &Vec<Typing>, value: &Value) -> (r: Result<Value, EvalError>)
    ensures
        value_result_view(r) == upcast_model(name@, typing_views(variants@), value@, 0),
{
    let ghost ts = typing_views(variants@);
    let mut i: usize = 0;
    while i < variants.len()
        invariant
            i <= variants.len(),
            upcast_model(name@, ts, value@, 0) == upcast_model(name@, ts, value@, i as int),
        decreases variants.len() - i,
    {
        assert(ts[i as int] == variants[i as int]@);
        match value.cast(&variants[i]) {
            Ok(w) => {
                return Ok(Value::Wrapped(Typing::UserTyping(name.clone()), Box::new(w)));
            },
            Err(_) => {},
        }
        i += 1;
    }
    Err(EvalError::TypeError)
}

/// What is given for each of `count` parameters by arguments in order.
#[verifier::loop_isolation(false)]
fn in_order(count: usize, values: &Vec<Value>) -> (r: Vec<Option<Value>>)
    ensures
        given_views(r@) == given_in_order(count as nat, value_views(values@)),
        r.len() == count,
{
    let mut out: Vec<Option<Value>> = Vec::new();
    let mut i: usize = 0;
    while i < count
        invariant
            i <= count,
            out.len() == i,
            forall|j: int|
                0 <= j < i ==> given_views(out@)[j] == given_in_order(
                    count as nat,
                    value_views(values@),
                )[j],
        decreases count - i,
    {
        let ghost before = out@;
        if i < values.len() {
            out.push(Some(values[i].clone()));
        } else {
            out.push(None);
        }
        assert forall|j: int| 0 <= j < i + 1 implies given_views(out@)[j] == given_in_order(
            count as nat,
            value_views(values@),
        )[j] by {
            if j < i {
                assert(out@[j] == before[j]);
                assert(given_views(before)[j] == given_in_order(
                    count as nat,
                    value_views(values@),
                )[j]);
            }
        }
        i += 1;
    }
    assert(given_views(out@) =~= given_in_order(count as nat, value_views(values@)));
    out
}

/// The last named argument under `name`.
#[verifier::loop_isolation(false)]
fn argument(args: &Vec<(String, Value)>, name: &String) -> (r: Option<Value>)
    ensures
        argument_of(field_views(args@), name@, args.len() as int) == match r {
            Some(v) => Some(v@),
            None => None,
        },
{
    let ghost all = field_views(args@);
    let mut i: usize = args.len();
    while i > 0
        invariant
            i <= args.len(),
            argument_of(all, name@, args.len() as int) == argument_of(all, name@, i as int),
        decreases i,
    {
        assert(all[i - 1] == (args[i - 1].0@, args[i - 1].1@));
        if args[i - 1].0 == *name {
            return Some(args[i - 1].1.clone());
        }
        i -= 1;
    }
    None
}

/// What is given for each parameter by named arguments.
#[verifier::loop_isolation(false)]
fn by_name(params: &Vec<(String, Typing, Option<Expr>)>, args: &Vec<(String, Value)>) -> (r: Vec<
    Option<Value>,
>)
    ensures
        given_views(r@) == given_by_name(param_views(params@), field_views(args@)),
        r.len() == params.len(),
{
    let ghost ps = param_views(params@);
    let ghost all = field_views(args@);
    proof {
        lemma_param_views(params@);
    }
    let mut out: Vec<Option<Value>> = Vec::new();
    let mut i: usize = 0;
    while i < params.len()
        invariant
            i <= params.len(),
            out.len() == i,
            forall|j: int| 0 <= j < i ==> given_views(out@)[j] == given_by_name(ps, all)[j],
        decreases params.len() - i,
    {
        let ghost before = out@;
        assert(ps[i as int] == param_view(params[i as int]));
        out.push(argument(args, &params[i].0));
        assert forall|j: int| 0 <= j < i + 1 implies given_views(out@)[j] == given_by_name(
            ps,
            all,
        )[j] by {
            if j < i {
                assert(out@[j] == before[j]);
                assert(given_views(before)[j] == given_by_name(ps, all)[j]);
            }
        }
        i += 1;
    }
    assert(given_views(out@) =~= given_by_name(ps, all));
    out
}

/// Tells whether a parameter has the name `name`.
#[verifier::loop_isolation(false)]
fn param_named(params: &Vec<(String, Typing, Option<Expr>)>, name: &String) -> (r: bool)
    ensures
        r == has_param(param_views(params@), name@, params.len() as int),
{
    let ghost ps = param_views(params@);
    proof {
        lemma_param_views(params@);
    }
    let mut i: usize = params.len();
    while i > 0
        invariant
            i <= params.len(),
            has_param(ps, name@, params.len() as int) == has_param(ps, name@, i as int),
        decreases i,
    {
        assert(ps[i - 1] == param_view(params[i - 1]));
        if params[i - 1].0 == *name {
            return true;
        }
        i -= 1;
    }
    false
}

/// Tells whether each of the named arguments names a parameter.
#[verifier::loop_isolation(false)]
fn known(params: &Vec<(String, Typing, Option<Expr>)>, args: &Vec<(String, Value)>) -> (r: bool)
    ensures
        r == all_known(param_views(params@), field_views(args@), 0),
{
    let ghost ps = param_views(params@);
    let ghost all = field_views(args@);
    proof {
        lemma_param_views(params@);
    }
    let mut i: usize = 0;
    while i < args.len()
        invariant
            i <= args.len(),
            ps.len() == params.len(),
            all_known(ps, all, 0) == all_known(ps, all, i as int),
        decreases args.len() - i,
    {
        assert(all[i as int] == (args[i as int].0@, args[i as int].1@));
        if !param_named(params, &args[i].0) {
            return false;
        }
        i += 1;
    }
    true
}

/// The operator and the operands of an expression with two operands.
fn binary_parts(expr: &Expr) -> (r: Option<(BinaryOp, &Expr, &Expr)>)
    ensures
        match r {
            Some((op, x, y)) => expr@ == crate::parser::expr::ExprModel::Binary(
                op,
                Box::new(x@),
                Box::new(y@),
            ) && decreases_to!(expr => x) && decreases_to!(expr => y),
            None => !(expr@ is Binary),
        },
{
    match expr {
        Expr::Concat(x, y) => Some((BinaryOp::Concat, x, y)),
        Expr::Add(x, y) => Some((BinaryOp::Add, x, y)),
        Expr::Sub(x, y) => Some((BinaryOp::Sub, x, y)),
        Expr::Mul(x, y) => Some((BinaryOp::Mul, x, y)),
        Expr::Div(x, y) => Some((BinaryOp::Div, x, y)),
        Expr::Mod(x, y) => Some((BinaryOp::Mod, x, y)),
        Expr::Pow(x, y) => Some((BinaryOp::Pow, x, y)),
        Expr::And(x, y) => Some((BinaryOp::And, x, y)),
        Expr::Or(x, y) => Some((BinaryOp::Or, x, y)),
        Expr::Xor(x, y) => Some((BinaryOp::Xor, x, y)),
        Expr::Equal(x, y) => Some((BinaryOp::Equal, x, y)),
        Expr::Less(x, y) => Some((BinaryOp::Less, x, y)),
        _ => None,
    }
}

/// Evaluates an expression in an environment.
pub fn eval_expr(env: &Environ, expr: &Expr, host: &Host, depth: usize) -> (r: Result<
    Value,
    EvalError,
>)
    ensures
        value_result_view(r) == semantics::eval_expr(env@, expr@, host@, depth as nat),
    decreases depth, 1nat, expr, 0nat, 0nat,
{
    if let Some((op, x, y)) = binary_parts(expr) {
        let a = match eval_expr(env, x, host, depth) {
            Ok(a) => a,
            Err(e) => {
                return Err(e);
            },
        };
        let b = match eval_expr(env, y, host, depth) {
            Ok(b) => b,
            Err(e) => {
                return Err(e);
            },
        };
        return apply_binary(op, a, b, host);
    }
    match expr {
        Expr::Val(v) => eval_value(env, v, host),
        Expr::Var(name) => {
            match env.binding(name) {
                Some(b) => Ok(b.value.clone()),
                None => Err(EvalError::NameError),
            }
        },
        Expr::Apply(name, args) => {
            match eval_exprs(env, args, host, depth) {
                Ok(values) => apply(env, name, &values, host, depth),
                Err(e) => Err(e),
            }
        },
        Expr::FieledApply(name, args) => {
            match eval_named(env, args, host, depth) {
                Ok(values) => named_apply(env, name, &values, host, depth),
                Err(e) => Err(e),
            }
        },
        Expr::AnonymousStruct(fields) => {
            match eval_typed(env, fields, host, depth) {
                Ok(items) => Ok(Value::Dict(None, items)),
                Err(e) => Err(e),
            }
        },
        Expr::Minus(x) => {
            match eval_expr(env, x, host, depth) {
                Ok(a) => apply_minus(a),
                Err(e) => Err(e),
            }
        },
        Expr::Not(x) => {
            match eval_expr(env, x, host, depth) {
                Ok(a) => apply_not(a),
                Err(e) => Err(e),
            }
        },
        Expr::Arrayed(xs) => {
            match eval_exprs(env, xs, host, depth) {
                Ok(values) => make_array(&values),
                Err(e) => Err(e),
            }
        },
        Expr::Tuple(xs) => {
            match eval_exprs(env, xs, host, depth) {
                Ok(values) => Ok(Value::Tuple(values)),
                Err(e) => Err(e),
            }
        },
        Expr::Blocked(c) => eval_conf(env.clone(), c, host, depth),
        Expr::AsCast(x, t) => {
            match eval_expr(env, x, host, depth) {
                Ok(a) => a.coerce(t, host),
                Err(e) => Err(e),
            }
        },
        _ => Err(EvalError::TypeError),
    }
}

/// Evaluates expressions in order.
#[verifier::loop_isolation(false)]
fn eval_exprs(env: &Environ, exprs: &Vec<Expr>, host: &Host, depth: usize) -> (r: Result<
    Vec<Value>,
    EvalError,
>)
    ensures
        values_result_view(r) == semantics::eval_exprs(
            env@,
            expr_views(exprs@),
            host@,
            depth as nat,
            0,
        ),
    decreases depth, 1nat, exprs, 0nat, 0nat,
{
    let ghost es = expr_views(exprs@);
    let ghost d = depth as nat;
    let mut out: Vec<Value> = Vec::new();
    let mut i: usize = 0;
    assert(value_views(out@) + semantics::eval_exprs(env@, es, host@, d, 0)->Ok_0
        =~= semantics::eval_exprs(env@, es, host@, d, 0)->Ok_0);
    while i < exprs.len()
        invariant
            i <= exprs.len(),
            semantics::eval_exprs(env@, es, host@, d, 0) == match semantics::eval_exprs(
                env@,
                es,
                host@,
                d,
                i as int,
            ) {
                Ok(rest) => Ok(value_views(out@) + rest),
                Err(e) => Err(e),
            },
        decreases exprs.len() - i,
    {
        assert(es[i as int] == exprs[i as int]@);
        let ghost before = value_views(out@);
        match eval_expr(env, &exprs[i], host, depth) {
            Ok(v) => {
                out.push(v);
                proof {
                    assert(value_views(out@) =~= before.push(v@));
                    if semantics::eval_exprs(env@, es, host@, d, i + 1) is Ok {
                        let rest = semantics::eval_exprs(env@, es, host@, d, i + 1)->Ok_0;
                        assert(before + (seq![v@] + rest) =~= before.push(v@) + rest);
                    }
                }
            },
            Err(e) => {
                return Err(e);
            },
        }
        i += 1;
    }
    assert(value_views(out@) + Seq::<ValueModel>::empty() =~= value_views(out@));
    Ok(out)
}

/// Evaluates named expressions in order.
#[verifier::loop_isolation(false)]
fn eval_named(env: &Environ, exprs: &Vec<(String, Expr)>, host: &Host, depth: usize) -> (r: Result<
    Vec<(String, Value)>,
    EvalError,
>)
    ensures
        fields_result_view(r) == semantics::eval_named(
            env@,
            named_expr_views(exprs@),
            host@,
            depth as nat,
            0,
        ),
    decreases depth, 1nat, exprs, 0nat, 0nat,
{
    let ghost es = named_expr_views(exprs@);
    let ghost d = depth as nat;
    let mut out: Vec<(String, Value)> = Vec::new();
    let mut i: usize = 0;
    assert(field_views(out@) + semantics::eval_named(env@, es, host@, d, 0)->Ok_0
        =~= semantics::eval_named(env@, es, host@, d, 0)->Ok_0);
    while i < exprs.len()
        invariant
            i <= exprs.len(),
            semantics::eval_named(env@, es, host@, d, 0) == match semantics::eval_named(
                env@,
                es,
                host@,
                d,
                i as int,
            ) {
                Ok(rest) => Ok(field_views(out@) + rest),
                Err(e) => Err(e),
            },
        decreases exprs.len() - i,
    {
        assert(es[i as int] == (exprs[i as int].0@, exprs[i as int].1@));
        let ghost before = field_views(out@);
        match eval_expr(env, &exprs[i].1, host, depth) {
            Ok(v) => {
                let ghost item = (exprs[i as int].0@, v@);
                out.push((exprs[i].0.clone(), v));
                proof {
                    assert(field_views(out@) =~= before.push(item));
                    if semantics::eval_named(env@, es, host@, d, i + 1) is Ok {
                        let rest = semantics::eval_named(env@, es, host@, d, i + 1)->Ok_0;
                        assert(before + (seq![item] + rest) =~= before.push(item) + rest);
                    }
                }
            },
            Err(e) => {
                return Err(e);
            },
        }
        i += 1;
    }
    assert(field_views(out@) + Seq::<(Seq<char>, ValueModel)>::empty() =~= field_views(out@));
    Ok(out)
}

/// Evaluates the fields of a dict in order.
#[verifier::loop_isolation(false)]
fn eval_typed(env: &Environ, exprs: &Vec<(String, Typing, Expr)>, host: &Host, depth: usize) -> (r:
    Result<Vec<(String, Value)>, EvalError>)
    ensures
        fields_result_view(r) == semantics::eval_typed(
            env@,
            typed_expr_views(exprs@),
            host@,
            depth as nat,
            0,
        ),
    decreases depth, 1nat, exprs, 0nat, 0nat,
{
    let ghost es = typed_expr_views(exprs@);
    let ghost d = depth as nat;
    let mut out: Vec<(String, Value)> = Vec::new();
    let mut i: usize = 0;
    assert(field_views(out@) + semantics::eval_typed(env@, es, host@, d, 0)->Ok_0
        =~= semantics::eval_typed(env@, es, host@, d, 0)->Ok_0);
    while i < exprs.len()
        invariant
            i <= exprs.len(),
            semantics::eval_typed(env@, es, host@, d, 0) == match semantics::eval_typed(
                env@,
                es,
                host@,
                d,
                i as int,
            ) {
                Ok(rest) => Ok(field_views(out@) + rest),
                Err(e) => Err(e),
            },
        decreases exprs.len() - i,
    {
        assert(es[i as int] == (exprs[i as int].0@, exprs[i as int].1@, exprs[i as int].2@));
        let ghost before = field_views(out@);
        let v = match eval_expr(env, &exprs[i].2, host, depth) {
            Ok(v) => v,
            Err(e) => {
                return Err(e);
            },
        };
        match v.cast(&exprs[i].1) {
            Ok(w) => {
                let ghost item = (exprs[i as int].0@, w@);
                out.push((exprs[i].0.clone(), w));
                proof {
                    assert(field_views(out@) =~= before.push(item));
                    if semantics::eval_typed(env@, es, host@, d, i + 1) is Ok {
                        let rest = semantics::eval_typed(env@, es, host@, d, i + 1)->Ok_0;
                        assert(before + (seq![item] + rest) =~= before.push(item) + rest);
                    }
                }
            },
            Err(e) => {
                return Err(e);
            },
        }
        i += 1;
    }
    assert(field_views(out@) + Seq::<(Seq<char>, ValueModel)>::empty() =~= field_views(out@));
    Ok(out)
}

/// Applies a name to values in order.
fn apply(env: &Environ, name: &String, values: &Vec<Value>, host: &Host, depth: usize) -> (r:
    Result<Value, EvalError>)
    ensures
        value_result_view(r) == apply_model(
            env@,
            name@,
            value_views(values@),
            host@,
            depth as nat,
        ),
    decreases depth, 0nat, host, 2nat, 0nat,
{
    let chars = chars_of(name.as_str());
    let n_some = ['S', 'o', 'm', 'e'];
    let n_not = ['n', 'o', 't'];
    let n_concat = ['c', 'o', 'n', 'c', 'a', 't'];
    let n_reverse = ['r', 'e', 'v', 'e', 'r', 's', 'e'];
    assert(n_some@ =~= name_some());
    assert(n_not@ =~= name_not());
    assert(n_concat@ =~= name_concat());
    assert(n_reverse@ =~= name_reverse());
    assert(value_views(values@).len() == values.len());
    if values.len() > 0 {
        assert(value_views(values@)[0] == values[0]@);
    }
    if same_chars(&chars, &n_some) {
        if values.len() == 1 {
            let v = values[0].clone();
            let t = v.type_of();
            Ok(Value::Optional(t, Box::new(Some(v))))
        } else {
            Err(EvalError::ArgumentError)
        }
    } else if same_chars(&chars, &n_not) {
        if values.len() == 1 {
            apply_not(values[0].clone())
        } else {
            Err(EvalError::ArgumentError)
        }
    } else if same_chars(&chars, &n_concat) {
        concat(values)
    } else if same_chars(&chars, &n_reverse) {
        if values.len() == 1 {
            reverse(&values[0])
        } else {
            Err(EvalError::ArgumentError)
        }
    } else if let Some(d) = env.structure(name) {
        proof {
            lemma_param_views(d.fields@);
        }
        if values.len() > d.fields.len() {
            Err(EvalError::ArgumentError)
        } else {
            let given = in_order(d.fields.len(), values);
            build(env, d, &given, host, depth)
        }
    } else if let Some(d) = env.sum(name) {
        if values.len() == 1 {
            upcast(name, &d.variants, &values[0])
        } else {
            Err(EvalError::ArgumentError)
        }
    } else if let Some(f) = env.function(name) {
        proof {
            lemma_param_views(f.params@);
        }
        if values.len() > f.params.len() {
            Err(EvalError::ArgumentError)
        } else {
            let given = in_order(f.params.len(), values);
            call(f, &given, host, depth)
        }
    } else {
        Err(EvalError::NameError)
    }
}

/// Applies a name to named values.
fn named_apply(
    env: &Environ,
    name: &String,
    args: &Vec<(String, Value)>,
    host: &Host,
    depth: usize,
) -> (r: Result<Value, EvalError>)
    ensures
        value_result_view(r) == named_apply_model(
            env@,
            name@,
            field_views(args@),
            host@,
            depth as nat,
        ),
    decreases depth, 0nat, host, 2nat, 0nat,
{
    if let Some(d) = env.structure(name) {
        if known(&d.fields, args) {
            let given = by_name(&d.fields, args);
            build(env, d, &given, host, depth)
        } else {
            Err(EvalError::ArgumentError)
        }
    } else if let Some(f) = env.function(name) {
        if known(&f.params, args) {
            let given = by_name(&f.params, args);
            call(f, &given, host, depth)
        } else {
            Err(EvalError::ArgumentError)
        }
    } else {
        Err(EvalError::NameError)
    }
}

/// The model of what is given for one parameter.
pub open spec fn given_view(v: Option<Value>) -> Option<ValueModel> {
    match v {
        Some(v) => Some(v@),
        None => None,
    }
}

/// The value of a field or parameter.
fn supplied(
    env: &Environ,
    param: &(String, Typing, Option<Expr>),
    given: &Option<Value>,
    host: &Host,
    depth: usize,
) -> (r: Result<Value, EvalError>)
    ensures
        value_result_view(r) == supplied_model(
            env@,
            param_view(*param),
            given_view(*given),
            host@,
            depth as nat,
        ),
    decreases depth, 0nat, host, 0nat, 0nat,
{
    match given {
        Some(v) => v.cast(&param.1),
        None => {
            match &param.2 {
                Some(e) => {
                    if depth == 0 {
                        Err(EvalError::DepthError)
                    } else {
                        match eval_expr(env, e, host, depth - 1) {
                            Ok(v) => v.cast(&param.1),
                            Err(e) => Err(e),
                        }
                    }
                },
                None => Err(EvalError::ArgumentError),
            }
        },
    }
}

/// Builds the dict of a struct.
#[verifier::loop_isolation(false)]
fn build(env: &Environ, d: &StructDecl, given: &Vec<Option<Value>>, host: &Host, depth: usize) -> (r:
    Result<Value, EvalError>)
    requires
        given.len() == d.fields.len(),
    ensures
        value_result_view(r) == build_model(env@, d@, given_views(given@), host@, depth as nat),
    decreases depth, 0nat, host, 1nat, 0nat,
{
    let ghost fields = param_views(d.fields@);
    let ghost gs = given_views(given@);
    let ghost n = depth as nat;
    proof {
        lemma_param_views(d.fields@);
    }
    let mut out: Vec<(String, Value)> = Vec::new();
    let mut i: usize = 0;
    assert(field_views(out@) + fill_fields(env@, fields, gs, host@, n, 0)->Ok_0 =~= fill_fields(
        env@,
        fields,
        gs,
        host@,
        n,
        0,
    )->Ok_0);
    while i < d.fields.len()
        invariant
            i <= d.fields.len(),
            fields.len() == d.fields.len(),
            fill_fields(env@, fields, gs, host@, n, 0) == match fill_fields(
                env@,
                fields,
                gs,
                host@,
                n,
                i as int,
            ) {
                Ok(rest) => Ok(field_views(out@) + rest),
                Err(e) => Err(e),
            },
        decreases d.fields.len() - i,
    {
        assert(fields[i as int] == param_view(d.fields[i as int]));
        assert(gs[i as int] == given_view(given[i as int]));
        let ghost before = field_views(out@);
        match supplied(env, &d.fields[i], &given[i], host, depth) {
            Ok(v) => {
                let ghost item = (d.fields[i as int].0@, v@);
                out.push((d.fields[i].0.clone(), v));
                proof {
                    assert(field_views(out@) =~= before.push(item));
                    if fill_fields(env@, fields, gs, host@, n, i + 1) is Ok {
                        let rest = fill_fields(env@, fields, gs, host@, n, i + 1)->Ok_0;
                        assert(before + (seq![item] + rest) =~= before.push(item) + rest);
                    }
                }
            },
            Err(e) => {
                return Err(e);
            },
        }
        i += 1;
    }
    assert(field_views(out@) + Seq::<(Seq<char>, ValueModel)>::empty() =~= field_views(out@));
    Ok(Value::Dict(Some(d.name.clone()), out))
}

/// Calls a function.
#[verifier::loop_isolation(false)]
fn call(f: &FunctionDecl, given: &Vec<Option<Value>>, host: &Host, depth: usize) -> (r: Result<
    Value,
    EvalError,
>)
    requires
        given.len() == f.params.len(),
    ensures
        value_result_view(r) == call_model(f@, given_views(given@), host@, depth as nat),
    decreases depth, 0nat, host, 1nat, 0nat,
{
    if depth == 0 {
        return Err(EvalError::DepthError);
    }
    let ghost params = param_views(f.params@);
    let ghost gs = given_views(given@);
    let ghost n = depth as nat;
    proof {
        lemma_param_views(f.params@);
    }
    let mut env = f.env.clone();
    let mut i: usize = 0;
    while i < f.params.len()
        invariant
            i <= f.params.len(),
            params.len() == f.params.len(),
            bind_params(f@.env, params, gs, host@, n, 0) == bind_params(
                env@,
                params,
                gs,
                host@,
                n,
                i as int,
            ),
        decreases f.params.len() - i,
    {
        assert(params[i as int] == param_view(f.params[i as int]));
        assert(gs[i as int] == given_view(given[i as int]));
        match supplied(&env, &f.params[i], &given[i], host, depth) {
            Ok(v) => {
                env.bind(f.params[i].0.clone(), f.params[i].1.clone(), v);
            },
            Err(e) => {
                return Err(e);
            },
        }
        i += 1;
    }
    eval_expr(&env, &f.body, host, depth - 1)
}

/// The model of the outcome of an operation that yields an environment.
pub open spec fn environ_result_view(r: Result<Environ, EvalError>) -> Result<
    EnvironModel,
    EvalErrorModel,
> {
    match r {
        Ok(env) => Ok(env@),
        Err(e) => Err(e@),
    }
}

/// Declares the sums, structs and enums among some declarations.
#[verifier::loop_isolation(false)]
fn hoist(env: Environ, statements: &Vec<Statement>) -> (r: Environ)
    ensures
        r@ == hoisted(env@, statement_views(statements@), 0),
{
    let ghost all = statement_views(statements@);
    let ghost start = env@;
    let mut env = env;
    let mut i: usize = 0;
    while i < statements.len()
        invariant
            i <= statements.len(),
            hoisted(start, all, 0) == hoisted(env@, all, i as int),
        decreases statements.len() - i,
    {
        assert(all[i as int] == statements[i as int]@);
        match &statements[i] {
            Statement::Type(name, variants) => {
                env.declare_sum(name.clone(), clone_typings(variants));
            },
            Statement::Struct(name, fields) => {
                env.declare_struct(name.clone(), clone_params(fields));
            },
            Statement::Enum(name, variants) => {
                env.declare_enum(name.clone(), clone_texts(variants));
            },
            _ => {},
        }
        i += 1;
    }
    env
}

/// Declares what some declarations declare.
fn declare(env: Environ, statements: &Vec<Statement>, host: &Host, depth: usize) -> (r: Result<
    Environ,
    EvalError,
>)
    ensures
        environ_result_view(r) == declared(
            env@,
            statement_views(statements@),
            host@,
            depth as nat,
        ),
    decreases depth, 1nat, statements, 1nat, 0nat,
{
    bind_all(hoist(env, statements), statements, host, depth)
}

/// Processes the imports, bindings and functions among some declarations.
#[verifier::loop_isolation(false)]
fn bind_all(env: Environ, statements: &Vec<Statement>, host: &Host, depth: usize) -> (r: Result<
    Environ,
    EvalError,
>)
    ensures
        environ_result_view(r) == bound(
            env@,
            statement_views(statements@),
            host@,
            depth as nat,
            0,
        ),
    decreases depth, 1nat, statements, 0nat, 0nat,
{
    let ghost all = statement_views(statements@);
    let ghost n = depth as nat;
    let ghost start = env@;
    let mut env = env;
    let mut i: usize = 0;
    while i < statements.len()
        invariant
            i <= statements.len(),
            bound(start, all, host@, n, 0) == bound(env@, all, host@, n, i as int),
        decreases statements.len() - i,
    {
        assert(all[i as int] == statements[i as int]@);
        env = match bind_one(env, &statements[i], host, depth) {
            Ok(next) => next,
            Err(e) => {
                return Err(e);
            },
        };
        i += 1;
    }
    Ok(env)
}

/// Processes one declaration.
fn bind_one(env: Environ, statement: &Statement, host: &Host, depth: usize) -> (r: Result<
    Environ,
    EvalError,
>)
    ensures
        environ_result_view(r) == bound_one(env@, statement@, host@, depth as nat),
    decreases depth, 1nat, statement, 0nat, 0nat,
{
    let mut env = env;
    match statement {
        Statement::Let(name, typ, e) => {
            let v = match eval_expr(&env, e, host, depth) {
                Ok(v) => v,
                Err(e) => {
                    return Err(e);
                },
            };
            match v.cast(typ) {
                Ok(w) => {
                    env.bind(name.clone(), typ.clone(), w);
                    Ok(env)
                },
                Err(e) => Err(e),
            }
        },
        Statement::Fun(name, params, body) => {
            let decl = FunctionDecl {
                env: env.clone(),
                name: name.clone(),
                params: clone_params(params),
                body: body.clone(),
            };
            env.declare_function(decl);
            Ok(env)
        },
        Statement::Import(path) => import(env, path, host, depth),
        _ => Ok(env),
    }
}

/// Processes the import of `path`.
fn import(env: Environ, path: &String, host: &Host, depth: usize) -> (r: Result<Environ, EvalError>)
    ensures
        environ_result_view(r) == imported(env@, path@, host@, depth as nat),
    decreases depth, 0nat, host, 3nat, 0nat,
{
    let mut env = env;
    let request = Request::Module(path.clone(), clone_text_option(&env.cd));
    match host.answer(&request) {
        Some(Answer::Module(found, content)) => {
            if env.loaded(found) {
                return Ok(env);
            }
            if depth == 0 {
                return Err(EvalError::DepthError);
            }
            env.mark_loaded(found.clone());
            let module = match load_module(content.as_str()) {
                Ok((_, module)) => module,
                Err(_) => Vec::new(),
            };
            declare(env, &module, host, depth - 1)
        },
        Some(Answer::Unreadable(found)) => {
            if !env.loaded(found) {
                env.mark_loaded(found.clone());
            }
            Ok(env)
        },
        Some(Answer::Absent) => Ok(env),
        _ => Err(EvalError::Pending(request)),
    }
}

/// Evaluates a program in an environment.
pub fn eval_conf(env: Environ, conf: &Cumin, host: &Host, depth: usize) -> (r: Result<
    Value,
    EvalError,
>)
    ensures
        value_result_view(r) == semantics::eval_conf(env@, conf@, host@, depth as nat),
    decreases depth, 1nat, conf, 0nat, 0nat,
{
    match declare(env, &conf.0, host, depth) {
        Ok(env) => eval_expr(&env, &conf.1, host, depth),
        Err(e) => Err(e),
    }
}

} // verus!
