//! The built-in functions on arrays.

use crate::errors::{EvalError, EvalErrorModel};
use crate::parser::typing::{unify_model, Typing, TypingModel};
use crate::parser::value::{value_result_view, value_views, Value, ValueModel};
use vstd::prelude::*;

verus! {

/// The concatenation of the arrays of `vs` from position `i` on, behind
/// the elements `acc` of element type `t`.
pub open spec fn concat_from(vs: Seq<ValueModel>, t: TypingModel, acc: Seq<ValueModel>, i: int) -> Result<
    ValueModel,
    EvalErrorModel,
>
    decreases vs.len() - i,
{
    if i < 0 || i >= vs.len() {
        Ok(ValueModel::Array(t, acc))
    } else {
        match vs[i] {
            ValueModel::Array(typ, xs) => match unify_model(t, typ) {
                Some(u) => concat_from(vs, u, acc + xs, i + 1),
                None => Err(EvalErrorModel::TypeError),
            },
            _ => Err(EvalErrorModel::TypeError),
        }
    }
}

/// The concatenation of arrays: the elements of all of them, in order, in
/// an array whose element type unifies those of the arrays, from `Any`
/// on and from the left. A value that is no array, or an element type
/// that does not unify, is a `TypeError`.
pub open spec fn concat_model(vs: Seq<ValueModel>) -> Result<ValueModel, EvalErrorModel> {
    concat_from(vs, TypingModel::Any, Seq::empty(), 0)
}

/// The reversal of an array: the same elements, last first. A value that
/// is no array is a `TypeError`.
pub open spec fn reverse_model(v: ValueModel) -> Result<ValueModel, EvalErrorModel> {
    match v {
        ValueModel::Array(t, xs) => Ok(ValueModel::Array(t, xs.reverse())),
        _ => Err(EvalErrorModel::TypeError),
    }
}

/// Concatenates arrays.
#[verifier::loop_isolation(false)]
pub fn concat(args: &Vec<Value>) -> (r: Result<Value, EvalError>)
    ensures
        value_result_view(r) == concat_model(value_views(args@)),
{
    let ghost vs = value_views(args@);
    let mut out: Vec<Value> = Vec::new();
    let mut t = Typing::Any;
    let mut i: usize = 0;
    assert(value_views(out@) =~= Seq::empty());
    while i < args.len()
        invariant
            i <= args.len(),
            concat_model(vs) == concat_from(vs, t@, value_views(out@), i as int),
        decreases args.len() - i,
    {
        assert(vs[i as int] == args[i as int]@);
        match &args[i] {
            Value::Array(typ, xs) => {
                match Typing::unify(&t, typ) {
                    Some(u) => {
                        t = u;
                        let ghost before = value_views(out@);
                        let mut j: usize = 0;
                        while j < xs.len()
                            invariant
                                j <= xs.len(),
                                value_views(out@) == before + value_views(xs@).take(j as int),
                            decreases xs.len() - j,
                        {
                            let ghost old_out = value_views(out@);
                            out.push(xs[j].clone());
                            assert(value_views(out@) =~= old_out.push(xs[j as int]@));
                            assert(value_views(xs@).take(j + 1) =~= value_views(xs@).take(
                                j as int,
                            ).push(xs[j as int]@));
                            assert(before + value_views(xs@).take(j as int).push(xs[j as int]@)
                                =~= (before + value_views(xs@).take(j as int)).push(
                                xs[j as int]@,
                            ));
                            j += 1;
                        }
                        assert(value_views(xs@).take(xs.len() as int) =~= value_views(xs@));
                    },
                    None => {
                        return Err(EvalError::TypeError);
                    },
                }
            },
            _ => {
                return Err(EvalError::TypeError);
            },
        }
        i += 1;
    }
    Ok(Value::Array(t, out))
}

/// Reverses an array.
#[verifier::loop_isolation(false)]
pub fn reverse(x: &Value) -> (r: Result<Value, EvalError>)
    ensures
        value_result_view(r) == reverse_model(x@),
{
    match x {
        Value::Array(t, xs) => {
            let mut out: Vec<Value> = Vec::new();
            let mut i: usize = xs.len();
            while i > 0
                invariant
                    i <= xs.len(),
                    out.len() == xs.len() - i,
                    forall|k: int| 0 <= k < out.len() ==> out[k]@ == xs[xs.len() - 1 - k]@,
                decreases i,
            {
                i -= 1;
                out.push(xs[i].clone());
            }
            assert(value_views(out@) =~= value_views(xs@).reverse());
            Ok(Value::Array(t.clone(), out))
        },
        _ => Err(EvalError::TypeError),
    }
}

} // verus!
