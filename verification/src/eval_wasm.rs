//! Evaluation without a directory to import from.

use crate::errors::EvalError;
use crate::eval::{eval, evaluation};
use crate::host::Host;
use crate::json::{json_result_view, JSON};
use crate::parser::cumin::Cumin;
use vstd::prelude::*;

verus! {

/// Evaluates a program to a JSON value where there is no directory to
/// resolve the paths of imports from.
pub fn eval_wasm(cumin: Cumin, host: &Host) -> (r: Result<JSON, EvalError>)
    ensures
        json_result_view(r) == evaluation(cumin@, None, host@),
{
    eval(cumin, None, host)
}

} // verus!
