//! The readers of programs and of modules.

use crate::errors::ParseError;
use crate::parser::cumin::{Cumin, CuminModel};
use crate::parser::declaration::read_stmt;
use crate::parser::expr::read_expr;
use crate::parser::grammar::{cumin_at, module_at, stmts_at};
use crate::parser::statement::{statement_views, Statement, StatementModel};
use crate::parser::util::{outcome, skip_blank};
use crate::text::{chars_of, text_of};
use vstd::prelude::*;

verus! {

/// The model of a parsed program with the position after it.
pub open spec fn parsed_cumin(r: Option<(Cumin, usize)>) -> Option<(CuminModel, int)> {
    match r {
        Some((c, end)) => Some((c@, end as int)),
        None => None,
    }
}

/// Reads the declarations at `pos`, as many as follow one another.
#[verifier::loop_isolation(false)]
pub(crate) fn read_stmts(input: &Vec<char>, pos: usize) -> (r: (Vec<Statement>, usize))
    requires
        pos <= input.len(),
    ensures
        stmts_at(input@, pos as int) == (statement_views(r.0@), r.1 as int),
        pos <= r.1 <= input.len(),
    decreases input.len() - pos, 80nat,
{
    let ghost s = input@;
    let mut out: Vec<Statement> = Vec::new();
    let mut at: usize = pos;
    assert(statement_views(out@) + stmts_at(s, pos as int).0 =~= stmts_at(s, pos as int).0);
    loop
        invariant
            pos <= at <= input.len(),
            stmts_at(s, pos as int).0 == statement_views(out@) + stmts_at(s, at as int).0,
            stmts_at(s, pos as int).1 == stmts_at(s, at as int).1,
        decreases input.len() - at,
    {
        match read_stmt(input, at) {
            Some((statement, end)) => {
                proof {
                    let before = statement_views(out@);
                    let rest = stmts_at(s, end as int).0;
                    assert(statement_views(out@.push(statement)) =~= before.push(statement@));
                    assert(before + (seq![statement@] + rest) =~= before.push(statement@) + rest);
                }
                out.push(statement);
                at = end;
            },
            None => {
                break;
            },
        }
    }
    assert(statement_views(out@) + Seq::<StatementModel>::empty() =~= statement_views(out@));
    (out, at)
}

/// Reads the program at `pos`.
pub(crate) fn read_cumin(input: &Vec<char>, pos: usize) -> (r: Option<(Cumin, usize)>)
    requires
        pos <= input.len(),
    ensures
        parsed_cumin(r) == cumin_at(input@, pos as int),
        r matches Some((_, end)) ==> pos < end <= input.len(),
    decreases input.len() - pos, 90nat,
{
    let start = skip_blank(input, pos);
    let (statements, next) = read_stmts(input, start);
    match read_expr(input, next) {
        Some((result, end)) => Some((Cumin(statements, result), skip_blank(input, end))),
        None => None,
    }
}

/// Reads the module that begins a text: its declarations, and the text
/// left over behind them.
pub fn load_module(input: &str) -> (r: Result<(String, Vec<Statement>), ParseError>)
    ensures
        r matches Ok((rest, statements)) && module_at(input@, 0) == (
            statement_views(statements@),
            input@.len() - rest@.len(),
        ) && rest@ == input@.skip(module_at(input@, 0).1),
{
    let chars = chars_of(input);
    let (statements, end) = read_stmts(&chars, skip_blank(&chars, 0));
    let last = skip_blank(&chars, end);
    let rest = text_of(&chars, last, chars.len());
    assert(chars@.subrange(last as int, chars.len() as int) =~= input@.skip(last as int));
    Ok((rest, statements))
}

/// Reads the program that begins a text.
pub fn cumin(input: &str) -> (r: Result<(String, Cumin), ParseError>)
    ensures
        match r {
            Ok((rest, c)) => outcome(input@, cumin_at(input@, 0)) == Ok::<
                (Seq<char>, CuminModel),
                Seq<char>,
            >((rest@, c@)),
            Err(e) => outcome(input@, cumin_at(input@, 0)) == Err::<
                (Seq<char>, CuminModel),
                Seq<char>,
            >(e.rest@),
        },
{
    let chars = chars_of(input);
    match read_cumin(&chars, 0) {
        Some((c, end)) => {
            let rest = text_of(&chars, end, chars.len());
            assert(chars@.subrange(end as int, chars.len() as int) =~= input@.skip(end as int));
            Ok((rest, c))
        },
        None => {
            let rest = text_of(&chars, 0, chars.len());
            assert(chars@.subrange(0, chars.len() as int) =~= input@);
            Err(ParseError { rest })
        },
    }
}

} // verus!
