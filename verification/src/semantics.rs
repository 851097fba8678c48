//! What a program means: the evaluation of expressions and declarations as
//! mathematical functions on the models of programs, environments and
//! values.

use crate::builtins::{concat_model, reverse_model};
use crate::environ::{
    binding_of, enum_of, function_of, has_text, is_loaded, struct_of, sum_of, with_enum,
    with_function, with_loaded, with_struct, with_sum, with_var, BindingModel, EnumModel,
    EnvironModel, FunctionModel, StructModel, SumModel,
};
use crate::errors::EvalErrorModel;
use crate::host::{answer_to, AnswerModel, RequestModel};
use crate::operators::{binary_model, minus_model, not_model};
use crate::parser::cumin::CuminModel;
use crate::parser::expr::ExprModel;
use crate::parser::grammar::module_at;
use crate::parser::statement::{DefaultModel, ParamModel, StatementModel};
use crate::parser::typing::{unify_model, TypingModel};
use crate::parser::value::{cast_model, coerce_model, type_of_model, ValueModel};
use vstd::prelude::*;

verus! {

/// What the host has answered so far.
pub type Answers = Seq<(RequestModel, AnswerModel)>;

/// What an evaluation yields.
pub type Outcome = Result<ValueModel, EvalErrorModel>;

/// The name `Some`.
pub open spec fn name_some() -> Seq<char> {
    seq!['S', 'o', 'm', 'e']
}

/// The name `not`.
pub open spec fn name_not() -> Seq<char> {
    seq!['n', 'o', 't']
}

/// The name `concat`.
pub open spec fn name_concat() -> Seq<char> {
    seq!['c', 'o', 'n', 'c', 'a', 't']
}

/// The name `reverse`.
pub open spec fn name_reverse() -> Seq<char> {
    seq!['r', 'e', 'v', 'e', 'r', 's', 'e']
}

/// The value of a literal. A reference to the environment becomes the
/// text that the host gives for the variable, or its default where the
/// variable is unset; without either it is a `NameError`. An enum variant
/// must be declared: an unknown enum is a `NameError`, an unknown variant
/// an `EnumError`. Every other literal is its own value.
pub open spec fn literal_model(env: EnvironModel, v: ValueModel, host: Answers) -> Outcome {
    match v {
        ValueModel::Env(name, default) => match answer_to(host, RequestModel::EnvVar(name)) {
            Some(AnswerModel::Text(text)) => Ok(ValueModel::Str(text)),
            Some(AnswerModel::Absent) => match default {
                Some(text) => Ok(ValueModel::Str(text)),
                None => Err(EvalErrorModel::NameError),
            },
            _ => Err(EvalErrorModel::Pending(RequestModel::EnvVar(name))),
        },
        ValueModel::EnumVariant(name, variant) => match enum_of(env, name) {
            Some(d) => if has_text(d.variants, variant, d.variants.len() as int) {
                Ok(v)
            } else {
                Err(EvalErrorModel::EnumError)
            },
            None => Err(EvalErrorModel::NameError),
        },
        _ => Ok(v),
    }
}

/// The type that unifies `t` with the types of the values of `vs` from
/// position `i` on, from the left.
pub open spec fn unify_values(vs: Seq<ValueModel>, t: TypingModel, i: int) -> Option<TypingModel>
    decreases vs.len() - i,
{
    if i < 0 || i >= vs.len() {
        Some(t)
    } else {
        match unify_model(t, type_of_model(vs[i])) {
            Some(u) => unify_values(vs, u, i + 1),
            None => None,
        }
    }
}

/// The values of `vs` from position `i` on, each converted to `t`.
pub open spec fn cast_values(vs: Seq<ValueModel>, t: TypingModel, i: int) -> Result<
    Seq<ValueModel>,
    EvalErrorModel,
>
    decreases vs.len() - i,
{
    if i < 0 || i >= vs.len() {
        Ok(Seq::empty())
    } else {
        match cast_model(vs[i], t) {
            Ok(v) => match cast_values(vs, t, i + 1) {
                Ok(rest) => Ok(seq![v] + rest),
                Err(e) => Err(e),
            },
            Err(e) => Err(e),
        }
    }
}

/// The array of the values `vs`: its element type unifies the types of
/// all of them, from `Any` on, and each is converted to it. Where the
/// types do not unify it is a `TypeError`.
pub open spec fn array_model(vs: Seq<ValueModel>) -> Outcome {
    match unify_values(vs, TypingModel::Any, 0) {
        Some(t) => match cast_values(vs, t, 0) {
            Ok(xs) => Ok(ValueModel::Array(t, xs)),
            Err(e) => Err(e),
        },
        None => Err(EvalErrorModel::TypeError),
    }
}

/// The value of a sum for `v`: the conversion to the first of the types
/// from position `i` on that `v` converts to, marked with the sum's name.
pub open spec fn upcast_model(name: Seq<char>, variants: Seq<TypingModel>, v: ValueModel, i: int) -> Outcome
    decreases variants.len() - i,
{
    if i < 0 || i >= variants.len() {
        Err(EvalErrorModel::TypeError)
    } else {
        match cast_model(v, variants[i]) {
            Ok(w) => Ok(ValueModel::Wrapped(TypingModel::UserTyping(name), Box::new(w))),
            Err(_) => upcast_model(name, variants, v, i + 1),
        }
    }
}

/// What is given for each of `count` parameters by arguments in order.
pub open spec fn given_in_order(count: nat, vs: Seq<ValueModel>) -> Seq<Option<ValueModel>> {
    Seq::new(
        count,
        |i: int|
            if 0 <= i < vs.len() {
                Some(vs[i])
            } else {
                None
            },
    )
}

/// The last of the first `i` named arguments under `name`.
pub open spec fn argument_of(args: Seq<(Seq<char>, ValueModel)>, name: Seq<char>, i: int) -> Option<
    ValueModel,
>
    decreases i,
{
    if i <= 0 || i > args.len() {
        None
    } else if args[i - 1].0 == name {
        Some(args[i - 1].1)
    } else {
        argument_of(args, name, i - 1)
    }
}

/// What is given for each parameter by named arguments: of two under one
/// name the later one.
pub open spec fn given_by_name(params: Seq<ParamModel>, args: Seq<(Seq<char>, ValueModel)>) -> Seq<
    Option<ValueModel>,
> {
    Seq::new(params.len(), |i: int| argument_of(args, params[i].name, args.len() as int))
}

/// Whether one of the first `i` parameters has the name `name`.
pub open spec fn has_param(params: Seq<ParamModel>, name: Seq<char>, i: int) -> bool
    decreases i,
{
    if i <= 0 || i > params.len() {
        false
    } else {
        params[i - 1].name == name || has_param(params, name, i - 1)
    }
}

/// Whether each of the named arguments from position `i` on names a parameter.
pub open spec fn all_known(params: Seq<ParamModel>, args: Seq<(Seq<char>, ValueModel)>, i: int) -> bool
    decreases args.len() - i,
{
    if i < 0 || i >= args.len() {
        true
    } else {
        has_param(params, args[i].0, params.len() as int) && all_known(params, args, i + 1)
    }
}

/// The value of an expression in an environment. `depth` tells how
/// deep defaults, function bodies and modules may still nest.
pub open spec fn eval_expr(env: EnvironModel, e: ExprModel, host: Answers, depth: nat) -> Outcome
    decreases depth, 1nat, e, 0nat, 0nat,
{
    match e {
        ExprModel::Val(v) => literal_model(env, v, host),
        ExprModel::Var(name) => match binding_of(env, name) {
            Some(b) => Ok(b.value),
            None => Err(EvalErrorModel::NameError),
        },
        ExprModel::Apply(name, args) => match eval_exprs(env, args, host, depth, 0) {
            Ok(vs) => apply_model(env, name, vs, host, depth),
            Err(e) => Err(e),
        },
        ExprModel::FieledApply(name, args) => match eval_named(env, args, host, depth, 0) {
            Ok(vs) => named_apply_model(env, name, vs, host, depth),
            Err(e) => Err(e),
        },
        ExprModel::AnonymousStruct(fields) => match eval_typed(env, fields, host, depth, 0) {
            Ok(items) => Ok(ValueModel::Dict(None, items)),
            Err(e) => Err(e),
        },
        ExprModel::Binary(op, x, y) => match eval_expr(env, *x, host, depth) {
            Ok(a) => match eval_expr(env, *y, host, depth) {
                Ok(b) => binary_model(op, a, b, host),
                Err(e) => Err(e),
            },
            Err(e) => Err(e),
        },
        ExprModel::Minus(x) => match eval_expr(env, *x, host, depth) {
            Ok(a) => minus_model(a),
            Err(e) => Err(e),
        },
        ExprModel::Not(x) => match eval_expr(env, *x, host, depth) {
            Ok(a) => not_model(a),
            Err(e) => Err(e),
        },
        ExprModel::Arrayed(xs) => match eval_exprs(env, xs, host, depth, 0) {
            Ok(vs) => array_model(vs),
            Err(e) => Err(e),
        },
        ExprModel::Tuple(xs) => match eval_exprs(env, xs, host, depth, 0) {
            Ok(vs) => Ok(ValueModel::Tuple(vs)),
            Err(e) => Err(e),
        },
        ExprModel::Blocked(c) => eval_conf(env, *c, host, depth),
        ExprModel::AsCast(x, t) => match eval_expr(env, *x, host, depth) {
            Ok(a) => coerce_model(a, t, host),
            Err(e) => Err(e),
        },
    }
}

/// The values of the expressions of `es` from position `i` on, in order.
pub open spec fn eval_exprs(env: EnvironModel, es: Seq<ExprModel>, host: Answers, depth: nat, i: int) -> Result<
    Seq<ValueModel>,
    EvalErrorModel,
>
    decreases depth, 1nat, es, 0nat, es.len() - i,
{
    if i < 0 || i >= es.len() {
        Ok(Seq::empty())
    } else {
        match eval_expr(env, es[i], host, depth) {
            Ok(v) => match eval_exprs(env, es, host, depth, i + 1) {
                Ok(rest) => Ok(seq![v] + rest),
                Err(e) => Err(e),
            },
            Err(e) => Err(e),
        }
    }
}

/// The values of the named expressions of `es` from position `i` on, in order.
pub open spec fn eval_named(
    env: EnvironModel,
    es: Seq<(Seq<char>, ExprModel)>,
    host: Answers,
    depth: nat,
    i: int,
) -> Result<Seq<(Seq<char>, ValueModel)>, EvalErrorModel>
    decreases depth, 1nat, es, 0nat, es.len() - i,
{
    if i < 0 || i >= es.len() {
        Ok(Seq::empty())
    } else {
        match eval_expr(env, es[i].1, host, depth) {
            Ok(v) => match eval_named(env, es, host, depth, i + 1) {
                Ok(rest) => Ok(seq![(es[i].0, v)] + rest),
                Err(e) => Err(e),
            },
            Err(e) => Err(e),
        }
    }
}

/// The fields of a dict from position `i` on: the value of each
/// expression, converted to the type of the field.
pub open spec fn eval_typed(
    env: EnvironModel,
    es: Seq<(Seq<char>, TypingModel, ExprModel)>,
    host: Answers,
    depth: nat,
    i: int,
) -> Result<Seq<(Seq<char>, ValueModel)>, EvalErrorModel>
    decreases depth, 1nat, es, 0nat, es.len() - i,
{
    if i < 0 || i >= es.len() {
        Ok(Seq::empty())
    } else {
        match eval_expr(env, es[i].2, host, depth) {
            Ok(v) => match cast_model(v, es[i].1) {
                Ok(w) => match eval_typed(env, es, host, depth, i + 1) {
                    Ok(rest) => Ok(seq![(es[i].0, w)] + rest),
                    Err(e) => Err(e),
                },
                Err(e) => Err(e),
            },
            Err(e) => Err(e),
        }
    }
}

/// The application of `name` to values in order. The built-in names come
/// first: `Some` makes an option of one value, `not` negates one truth
/// value, `concat` joins arrays, `reverse` reverses one array. Then a
/// struct of that name is built, then a sum of that name takes one value,
/// then a function of that name is called. Too many arguments are an
/// `ArgumentError`, an unknown name a `NameError`.
pub open spec fn apply_model(
    env: EnvironModel,
    name: Seq<char>,
    vs: Seq<ValueModel>,
    host: Answers,
    depth: nat,
) -> Outcome
    decreases depth, 0nat, host, 2nat, 0nat,
{
    if name == name_some() {
        if vs.len() == 1 {
            Ok(ValueModel::Optional(type_of_model(vs[0]), Some(Box::new(vs[0]))))
        } else {
            Err(EvalErrorModel::ArgumentError)
        }
    } else if name == name_not() {
        if vs.len() == 1 {
            not_model(vs[0])
        } else {
            Err(EvalErrorModel::ArgumentError)
        }
    } else if name == name_concat() {
        concat_model(vs)
    } else if name == name_reverse() {
        if vs.len() == 1 {
            reverse_model(vs[0])
        } else {
            Err(EvalErrorModel::ArgumentError)
        }
    } else if let Some(d) = struct_of(env, name) {
        if vs.len() > d.fields.len() {
            Err(EvalErrorModel::ArgumentError)
        } else {
            build_model(env, d, given_in_order(d.fields.len(), vs), host, depth)
        }
    } else if let Some(d) = sum_of(env, name) {
        if vs.len() == 1 {
            upcast_model(name, d.variants, vs[0], 0)
        } else {
            Err(EvalErrorModel::ArgumentError)
        }
    } else if let Some(f) = function_of(env, name) {
        if vs.len() > f.params.len() {
            Err(EvalErrorModel::ArgumentError)
        } else {
            call_model(f, given_in_order(f.params.len(), vs), host, depth)
        }
    } else {
        Err(EvalErrorModel::NameError)
    }
}

/// The application of `name` to named values: a struct of that name is
/// built, or else a function of that name is called. An argument that
/// names no field or parameter is an `ArgumentError`, an unknown name a
/// `NameError`.
pub open spec fn named_apply_model(
    env: EnvironModel,
    name: Seq<char>,
    args: Seq<(Seq<char>, ValueModel)>,
    host: Answers,
    depth: nat,
) -> Outcome
    decreases depth, 0nat, host, 2nat, 0nat,
{
    if let Some(d) = struct_of(env, name) {
        if all_known(d.fields, args, 0) {
            build_model(env, d, given_by_name(d.fields, args), host, depth)
        } else {
            Err(EvalErrorModel::ArgumentError)
        }
    } else if let Some(f) = function_of(env, name) {
        if all_known(f.params, args, 0) {
            call_model(f, given_by_name(f.params, args), host, depth)
        } else {
            Err(EvalErrorModel::ArgumentError)
        }
    } else {
        Err(EvalErrorModel::NameError)
    }
}

/// The value of a field or parameter: what is given for it or else the
/// value of its default, converted to its type. Without either it is an
/// `ArgumentError`; a default at depth zero is a `DepthError`.
pub open spec fn supplied_model(
    env: EnvironModel,
    param: ParamModel,
    given: Option<ValueModel>,
    host: Answers,
    depth: nat,
) -> Outcome
    decreases depth, 0nat, host, 0nat, 0nat,
{
    match given {
        Some(v) => cast_model(v, param.typ),
        None => match param.default {
            DefaultModel::Given(e) => if depth == 0 {
                Err(EvalErrorModel::DepthError)
            } else {
                match eval_expr(env, e, host, (depth - 1) as nat) {
                    Ok(v) => cast_model(v, param.typ),
                    Err(e) => Err(e),
                }
            },
            DefaultModel::Absent => Err(EvalErrorModel::ArgumentError),
        },
    }
}

/// The dict of a struct: each field with its value, in the order of the
/// declaration. Defaults are evaluated in the environment of the application.
pub open spec fn build_model(
    env: EnvironModel,
    d: StructModel,
    given: Seq<Option<ValueModel>>,
    host: Answers,
    depth: nat,
) -> Outcome
    decreases depth, 0nat, host, 1nat, 0nat,
{
    match fill_fields(env, d.fields, given, host, depth, 0) {
        Ok(items) => Ok(ValueModel::Dict(Some(d.name), items)),
        Err(e) => Err(e),
    }
}

/// The fields of a struct from position `i` on, each with its value.
pub open spec fn fill_fields(
    env: EnvironModel,
    fields: Seq<ParamModel>,
    given: Seq<Option<ValueModel>>,
    host: Answers,
    depth: nat,
    i: int,
) -> Result<Seq<(Seq<char>, ValueModel)>, EvalErrorModel>
    decreases depth, 0nat, host, 0nat, fields.len() - i + 1,
{
    if i < 0 || i >= fields.len() {
        Ok(Seq::empty())
    } else {
        match supplied_model(env, fields[i], given[i], host, depth) {
            Ok(v) => match fill_fields(env, fields, given, host, depth, i + 1) {
                Ok(rest) => Ok(seq![(fields[i].name, v)] + rest),
                Err(e) => Err(e),
            },
            Err(e) => Err(e),
        }
    }
}

/// The call of a function: its body is evaluated, one level deeper, in
/// the environment of its declaration with its parameters bound. A call
/// at depth zero is a `DepthError`.
pub open spec fn call_model(f: FunctionModel, given: Seq<Option<ValueModel>>, host: Answers, depth: nat) -> Outcome
    decreases depth, 0nat, host, 1nat, 0nat,
{
    if depth == 0 {
        Err(EvalErrorModel::DepthError)
    } else {
        match bind_params(f.env, f.params, given, host, depth, 0) {
            Ok(env) => eval_expr(env, f.body, host, (depth - 1) as nat),
            Err(e) => Err(e),
        }
    }
}

/// The environment with the parameters from position `i` on bound, in
/// order: a default sees the parameters before it.
pub open spec fn bind_params(
    env: EnvironModel,
    params: Seq<ParamModel>,
    given: Seq<Option<ValueModel>>,
    host: Answers,
    depth: nat,
    i: int,
) -> Result<EnvironModel, EvalErrorModel>
    decreases depth, 0nat, host, 0nat, params.len() - i + 1,
{
    if i < 0 || i >= params.len() {
        Ok(env)
    } else {
        match supplied_model(env, params[i], given[i], host, depth) {
            Ok(v) => bind_params(
                with_var(env, BindingModel { name: params[i].name, typ: params[i].typ, value: v }),
                params,
                given,
                host,
                depth,
                i + 1,
            ),
            Err(e) => Err(e),
        }
    }
}

/// The environment with the sums, structs and enums among the
/// declarations from position `i` on: they are known throughout a
/// program, wherever they stand.
pub open spec fn hoisted(env: EnvironModel, statements: Seq<StatementModel>, i: int) -> EnvironModel
    decreases statements.len() - i,
{
    if i < 0 || i >= statements.len() {
        env
    } else {
        hoisted(
            match statements[i] {
                StatementModel::Type(name, variants) => with_sum(env, SumModel { name, variants }),
                StatementModel::Struct(name, fields) => with_struct(
                    env,
                    StructModel { name, fields },
                ),
                StatementModel::Enum(name, variants) => with_enum(
                    env,
                    EnumModel { name, variants },
                ),
                _ => env,
            },
            statements,
            i + 1,
        )
    }
}

/// The environment that the declarations of a program or module leave
/// behind: sums, structs and enums first, then imports, bindings and
/// functions in the order in which they stand.
pub open spec fn declared(env: EnvironModel, statements: Seq<StatementModel>, host: Answers, depth: nat) -> Result<
    EnvironModel,
    EvalErrorModel,
>
    decreases depth, 1nat, statements, 1nat, 0nat,
{
    bound(hoisted(env, statements, 0), statements, host, depth, 0)
}

/// The environment after the imports, bindings and functions among the
/// declarations from position `i` on, in the order in which they stand.
pub open spec fn bound(
    env: EnvironModel,
    statements: Seq<StatementModel>,
    host: Answers,
    depth: nat,
    i: int,
) -> Result<EnvironModel, EvalErrorModel>
    decreases depth, 1nat, statements, 0nat, statements.len() - i,
{
    if i < 0 || i >= statements.len() {
        Ok(env)
    } else {
        match bound_one(env, statements[i], host, depth) {
            Ok(env) => bound(env, statements, host, depth, i + 1),
            Err(e) => Err(e),
        }
    }
}

/// The environment after one declaration. A binding holds the value of
/// its expression, converted to its type. A function keeps the
/// environment before it. An import brings in a module. Sums, structs
/// and enums were declared before.
pub open spec fn bound_one(env: EnvironModel, statement: StatementModel, host: Answers, depth: nat) -> Result<
    EnvironModel,
    EvalErrorModel,
>
    decreases depth, 1nat, statement, 0nat, 0nat,
{
    match statement {
        StatementModel::Let(name, typ, e) => match eval_expr(env, e, host, depth) {
            Ok(v) => match cast_model(v, typ) {
                Ok(w) => Ok(with_var(env, BindingModel { name, typ, value: w })),
                Err(e) => Err(e),
            },
            Err(e) => Err(e),
        },
        StatementModel::Fun(name, params, body) => Ok(
            with_function(env, FunctionModel { env, name, params, body }),
        ),
        StatementModel::Import(path) => imported(env, path, host, depth),
        _ => Ok(env),
    }
}

/// The environment after the import of `path`. The declarations of a
/// module that was not loaded before are brought in, one level deeper; a
/// module that the host cannot find or read brings in nothing. Without
/// an answer of the host the import is pending.
pub open spec fn imported(env: EnvironModel, path: Seq<char>, host: Answers, depth: nat) -> Result<
    EnvironModel,
    EvalErrorModel,
>
    decreases depth, 0nat, host, 3nat, 0nat,
{
    match answer_to(host, RequestModel::Module(path, env.cd)) {
        Some(AnswerModel::Module(found, content)) => if is_loaded(env, found) {
            Ok(env)
        } else if depth == 0 {
            Err(EvalErrorModel::DepthError)
        } else {
            declared(with_loaded(env, found), module_at(content, 0).0, host, (depth - 1) as nat)
        },
        Some(AnswerModel::Unreadable(found)) => if is_loaded(env, found) {
            Ok(env)
        } else {
            Ok(with_loaded(env, found))
        },
        Some(AnswerModel::Absent) => Ok(env),
        _ => Err(EvalErrorModel::Pending(RequestModel::Module(path, env.cd))),
    }
}

/// The value of a program in an environment: the value of its result
/// after its declarations.
pub open spec fn eval_conf(env: EnvironModel, c: CuminModel, host: Answers, depth: nat) -> Outcome
    decreases depth, 1nat, c, 0nat, 0nat,
{
    match declared(env, c.statements, host, depth) {
        Ok(env) => eval_expr(env, c.result, host, depth),
        Err(e) => Err(e),
    }
}

} // verus!
