//! Cumin: a small typed configuration language whose programs evaluate to
//! JSON.
//!
//! A program is a run of declarations and a final expression. [`parser`]
//! reads it, [`eval`] evaluates it, [`json`] projects the value and writes
//! the text; [`compile`] does all of it. Each of these is proved to compute
//! a mathematical function: the grammar in [`parser::grammar`], the meaning
//! of programs in [`semantics`].
//!
//! The library touches nothing outside itself. What a program needs from
//! its surroundings (an environment variable, the file behind an import,
//! the outcome of floating-point arithmetic) it asks of a [`host::Host`]:
//! evaluation is a function of the program and of the answers given so
//! far, and where an answer is missing it ends with the request. The
//! caller answers and evaluates again.

pub mod arith;
pub mod builtins;
pub mod environ;
pub mod errors;
pub mod eval;
pub mod eval_wasm;
pub mod host;
pub mod json;
pub mod laws;
pub mod numeric;
pub mod operators;
pub mod parser;
pub mod semantics;
pub mod substitution;
pub mod text;

use crate::errors::{CompileError, CompileErrorModel, ParseError};
use crate::eval::evaluation;
use crate::eval_wasm::eval_wasm;
use crate::host::{AnswerModel, Host, RequestModel};
use crate::json::json_text;
use crate::parser::grammar::cumin_at;
use crate::parser::module::cumin;
use crate::text::chars_of;
use vstd::prelude::*;

verus! {

/// What a text compiles to: the compact JSON text of what the program
/// comes to. A text that is no program, or more than a program, is a
/// parse error with what the grammar left; a program that does not
/// evaluate is that error.
pub open spec fn compiled(input: Seq<char>, host: Seq<(RequestModel, AnswerModel)>) -> Result<
    Seq<char>,
    CompileErrorModel,
> {
    match cumin_at(input, 0) {
        Some((c, end)) => if input.skip(end).len() == 0 {
            match evaluation(c, None, host) {
                Ok(j) => Ok(json_text(j)),
                Err(e) => Err(CompileErrorModel::Eval(e)),
            }
        } else {
            Err(CompileErrorModel::Parse(input.skip(end)))
        },
        None => Err(CompileErrorModel::Parse(input)),
    }
}

/// Compiles a text to JSON.
pub fn compile(input: &str, host: &Host) -> (r: Result<String, CompileError>)
    ensures
        compiled(input@, host@) == match r {
            Ok(text) => Ok::<Seq<char>, CompileErrorModel>(text@),
            Err(e) => Err::<Seq<char>, CompileErrorModel>(e@),
        },
{
    match cumin(input) {
        Ok((rest, data)) => {
            if chars_of(rest.as_str()).len() == 0 {
                match eval_wasm(data, host) {
                    Ok(json) => Ok(json.stringify()),
                    Err(e) => Err(CompileError::Eval(e)),
                }
            } else {
                Err(CompileError::Parse(ParseError { rest }))
            }
        },
        Err(e) => Err(CompileError::Parse(e)),
    }
}

} // verus!
