//! The errors of parsing, evaluation and compilation.

use crate::host::{Request, RequestModel};
use vstd::prelude::*;

verus! {

/// Why an evaluation stopped without a value.
#[derive(Debug, PartialEq, Eq)]
pub enum EvalError {
    /// A name resolves to no binding, function, struct, enum, sum or built-in.
    NameError,
    /// Operand types disagree, a cast fails, or array elements do not unify.
    TypeError,
    /// Too many arguments, a missing argument or field, or an unknown keyword.
    ArgumentError,
    /// The enum has no such variant.
    EnumError,
    /// An integer result does not fit its type, or a division by zero.
    ArithmeticError,
    /// Struct defaults, functions or modules nest deeper than the evaluator follows.
    DepthError,
    /// The host has not answered this request yet.
    Pending(Request),
}

/// The mathematical value of an [`EvalError`].
pub enum EvalErrorModel {
    NameError,
    TypeError,
    ArgumentError,
    EnumError,
    ArithmeticError,
    DepthError,
    Pending(RequestModel),
}

impl View for EvalError {
    type V = EvalErrorModel;

    open spec fn view(&self) -> EvalErrorModel {
        match self {
            EvalError::NameError => EvalErrorModel::NameError,
            EvalError::TypeError => EvalErrorModel::TypeError,
            EvalError::ArgumentError => EvalErrorModel::ArgumentError,
            EvalError::EnumError => EvalErrorModel::EnumError,
            EvalError::ArithmeticError => EvalErrorModel::ArithmeticError,
            EvalError::DepthError => EvalErrorModel::DepthError,
            EvalError::Pending(r) => EvalErrorModel::Pending(r@),
        }
    }
}

/// The grammar does not accept the input.
#[derive(Debug, PartialEq, Eq)]
pub struct ParseError {
    /// The input that was left unparsed.
    pub rest: String,
}

/// Why a text did not compile.
#[derive(Debug, PartialEq, Eq)]
pub enum CompileError {
    /// The text is no program: the grammar does not accept it, or only
    /// its beginning, and this is what was left.
    Parse(ParseError),
    /// The program did not evaluate.
    Eval(EvalError),
}

/// The mathematical value of a [`CompileError`]: a parse error is the text left over.
pub enum CompileErrorModel {
    Parse(Seq<char>),
    Eval(EvalErrorModel),
}

impl View for CompileError {
    type V = CompileErrorModel;

    open spec fn view(&self) -> CompileErrorModel {
        match self {
            CompileError::Parse(e) => CompileErrorModel::Parse(e.rest@),
            CompileError::Eval(e) => CompileErrorModel::Eval(e@),
        }
    }
}

} // verus!
