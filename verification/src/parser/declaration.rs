//! The reader of declarations.

use crate::errors::ParseError;
use crate::parser::expr::{read_annotation, read_expr, Expr};
use crate::parser::grammar::{
    alternatives_at, default_at, enum_at, function_at, let_at, more_alternatives_at,
    more_params_at, more_variants_at, param_at, params_at, stmt_at, struct_at, type_at, use_at,
    variants_at,
};
use crate::parser::statement::{
    default_view, lemma_param_seq, param_seq, param_view, param_views, text_views, ParamModel,
    Statement, StatementModel,
};
use crate::parser::typing::{read_typing, typing_views, Typing, TypingModel};
use crate::parser::util::{outcome, read_identifier, run_end, skip_blank, skip_comma};
use crate::text::{chars_of, has_char, has_tag, text_of};
use vstd::prelude::*;

verus! {

/// The model of a parsed declaration with the position after it.
pub open spec fn parsed_statement(r: Option<(Statement, usize)>) -> Option<(StatementModel, int)> {
    match r {
        Some((statement, end)) => Some((statement@, end as int)),
        None => None,
    }
}

/// Reads the default of a field or parameter at `pos`, where one is given.
fn read_default(input: &Vec<char>, pos: usize) -> (r: (Option<Expr>, usize))
    requires
        pos <= input.len(),
    ensures
        default_at(input@, pos as int) == (default_view(r.0), r.1 as int),
        pos <= r.1 <= input.len(),
    decreases input.len() - pos, 93nat,
{
    if !has_char(input, pos, '=') {
        return (None, pos);
    }
    let value = skip_blank(input, pos + 1);
    match read_expr(input, value) {
        Some((e, last)) => (Some(e), skip_blank(input, last)),
        None => (None, pos),
    }
}

/// Reads the field of a struct or the parameter of a function at `pos`.
fn read_param(input: &Vec<char>, pos: usize, typed: bool) -> (r: Option<
    ((String, Typing, Option<Expr>), usize),
>)
    requires
        pos <= input.len(),
    ensures
        param_at(input@, pos as int, typed) == match r {
            Some((param, end)) => Some((param_view(param), end as int)),
            None => None,
        },
        r matches Some((_, end)) ==> pos < end <= input.len(),
    decreases input.len() - pos, 94nat,
{
    let (name, end) = match read_identifier(input, pos) {
        Some(found) => found,
        None => {
            return None;
        },
    };
    let after = skip_blank(input, end);
    match read_annotation(input, after) {
        Some((typ, next)) => {
            let (default, last) = read_default(input, next);
            Some(((name, typ, default), last))
        },
        None => {
            if typed {
                None
            } else {
                let (default, last) = read_default(input, after);
                Some(((name, Typing::Any, default), last))
            }
        },
    }
}

/// Reads the fields or parameters at `pos`, separated by commas.
#[verifier::loop_isolation(false)]
fn read_params(input: &Vec<char>, pos: usize, typed: bool) -> (r: (
    Vec<(String, Typing, Option<Expr>)>,
    usize,
))
    requires
        pos <= input.len(),
    ensures
        params_at(input@, pos as int, typed) == (param_views(r.0@), r.1 as int),
        pos <= r.1 <= input.len(),
    decreases input.len() - pos, 100nat,
{
    let ghost s = input@;
    let mut out: Vec<(String, Typing, Option<Expr>)> = Vec::new();
    let (first, start) = match read_param(input, pos, typed) {
        Some(found) => found,
        None => {
            proof {
                lemma_param_seq(out@);
                assert(param_seq(out@) =~= Seq::empty());
            }
            return (out, pos);
        },
    };
    let ghost head = param_view(first);
    out.push(first);
    let mut at: usize = start;
    assert(param_seq(out@) =~= seq![head]);
    loop
        invariant
            pos < at <= input.len(),
            seq![head] + more_params_at(s, start as int, typed).0 == param_seq(out@)
                + more_params_at(s, at as int, typed).0,
            more_params_at(s, start as int, typed).1 == more_params_at(s, at as int, typed).1,
        decreases input.len() - at,
    {
        if !has_char(input, at, ',') {
            break;
        }
        let next = skip_blank(input, at + 1);
        match read_param(input, next, typed) {
            Some((param, end)) => {
                proof {
                    let before = param_seq(out@);
                    let rest = more_params_at(s, end as int, typed).0;
                    let item = param_view(param);
                    assert(param_seq(out@.push(param)) =~= before.push(item));
                    assert(before + (seq![item] + rest) =~= before.push(item) + rest);
                }
                out.push(param);
                at = end;
            },
            None => {
                break;
            },
        }
    }
    proof {
        assert(param_seq(out@) + Seq::<ParamModel>::empty() =~= param_seq(out@));
        lemma_param_seq(out@);
    }
    (out, at)
}

/// Reads the variants of an enum at `pos`, separated by commas.
#[verifier::loop_isolation(false)]
fn read_variants(input: &Vec<char>, pos: usize) -> (r: (Vec<String>, usize))
    requires
        pos <= input.len(),
    ensures
        variants_at(input@, pos as int) == (text_views(r.0@), r.1 as int),
        pos <= r.1 <= input.len(),
{
    let ghost s = input@;
    let mut out: Vec<String> = Vec::new();
    let (first, end) = match read_identifier(input, pos) {
        Some(found) => found,
        None => {
            assert(text_views(out@) =~= Seq::empty());
            return (out, pos);
        },
    };
    let start = skip_blank(input, end);
    let ghost head = first@;
    out.push(first);
    let mut at: usize = start;
    assert(text_views(out@) =~= seq![head]);
    loop
        invariant
            pos < at <= input.len(),
            seq![head] + more_variants_at(s, start as int).0 == text_views(out@)
                + more_variants_at(s, at as int).0,
            more_variants_at(s, start as int).1 == more_variants_at(s, at as int).1,
        decreases input.len() - at,
    {
        if !has_char(input, at, ',') {
            break;
        }
        match read_identifier(input, skip_blank(input, at + 1)) {
            Some((name, end)) => {
                let next = skip_blank(input, end);
                proof {
                    let before = text_views(out@);
                    let rest = more_variants_at(s, next as int).0;
                    assert(text_views(out@.push(name)) =~= before.push(name@));
                    assert(before + (seq![name@] + rest) =~= before.push(name@) + rest);
                }
                out.push(name);
                at = next;
            },
            None => {
                break;
            },
        }
    }
    assert(text_views(out@) + Seq::<Seq<char>>::empty() =~= text_views(out@));
    (out, at)
}

/// Reads the types of a sum at `pos`, separated by `|`.
#[verifier::loop_isolation(false)]
fn read_alternatives(input: &Vec<char>, pos: usize) -> (r: (Vec<Typing>, usize))
    requires
        pos <= input.len(),
    ensures
        alternatives_at(input@, pos as int) == (typing_views(r.0@), r.1 as int),
        pos <= r.1 <= input.len(),
{
    let ghost s = input@;
    let mut out: Vec<Typing> = Vec::new();
    let (first, end) = match read_typing(input, pos) {
        Some(found) => found,
        None => {
            assert(typing_views(out@) =~= Seq::empty());
            return (out, pos);
        },
    };
    let start = skip_blank(input, end);
    let ghost head = first@;
    out.push(first);
    let mut at: usize = start;
    assert(typing_views(out@) =~= seq![head]);
    loop
        invariant
            pos < at <= input.len(),
            seq![head] + more_alternatives_at(s, start as int).0 == typing_views(out@)
                + more_alternatives_at(s, at as int).0,
            more_alternatives_at(s, start as int).1 == more_alternatives_at(s, at as int).1,
        decreases input.len() - at,
    {
        if !has_char(input, at, '|') {
            break;
        }
        match read_typing(input, skip_blank(input, at + 1)) {
            Some((t, end)) => {
                let next = skip_blank(input, end);
                proof {
                    let before = typing_views(out@);
                    let rest = more_alternatives_at(s, next as int).0;
                    assert(typing_views(out@.push(t)) =~= before.push(t@));
                    assert(before + (seq![t@] + rest) =~= before.push(t@) + rest);
                }
                out.push(t);
                at = next;
            },
            None => {
                break;
            },
        }
    }
    assert(typing_views(out@) + Seq::<TypingModel>::empty() =~= typing_views(out@));
    (out, at)
}

/// Reads the declaration of a function at `pos`, after the word that begins it.
fn read_function(input: &Vec<char>, pos: usize, word: &[char]) -> (r: Option<(Statement, usize)>)
    requires
        pos <= input.len(),
        word@.len() > 0,
    ensures
        parsed_statement(r) == function_at(input@, pos as int, word@),
        r matches Some((_, end)) ==> pos < end <= input.len(),
    decreases input.len() - pos, 65nat,
{
    if !has_tag(input, pos, word) {
        return None;
    }
    let (name, end) = match read_identifier(input, skip_blank(input, pos + word.len())) {
        Some(found) => found,
        None => {
            return None;
        },
    };
    let open = skip_blank(input, end);
    if !has_char(input, open, '(') {
        return None;
    }
    let (params, last) = read_params(input, open + 1, true);
    let close = skip_comma(input, last);
    if !has_char(input, close, ')') {
        return None;
    }
    let equals = skip_blank(input, close + 1);
    if !has_char(input, equals, '=') {
        return None;
    }
    let body = skip_blank(input, equals + 1);
    match read_expr(input, body) {
        Some((e, last)) => {
            if has_char(input, last, ';') {
                Some((Statement::Fun(name, params, e), last + 1))
            } else {
                None
            }
        },
        None => None,
    }
}

/// Reads the binding at `pos`.
fn read_let(input: &Vec<char>, pos: usize) -> (r: Option<(Statement, usize)>)
    requires
        pos <= input.len(),
    ensures
        parsed_statement(r) == let_at(input@, pos as int),
        r matches Some((_, end)) ==> pos < end <= input.len(),
    decreases input.len() - pos, 65nat,
{
    let w_let = ['l', 'e', 't'];
    assert(w_let@ =~= seq!['l', 'e', 't']);
    if !has_tag(input, pos, &w_let) {
        return None;
    }
    let (name, end) = match read_identifier(input, skip_blank(input, pos + 3)) {
        Some(found) => found,
        None => {
            return None;
        },
    };
    let (typ, equals) = match read_annotation(input, end) {
        Some(found) => found,
        None => (Typing::Any, skip_blank(input, end)),
    };
    if !has_char(input, equals, '=') {
        return None;
    }
    let value = skip_blank(input, equals + 1);
    match read_expr(input, value) {
        Some((e, last)) => {
            if has_char(input, last, ';') {
                Some((Statement::Let(name, typ, e), last + 1))
            } else {
                None
            }
        },
        None => None,
    }
}

/// Reads the declaration of a struct at `pos`.
fn read_struct(input: &Vec<char>, pos: usize) -> (r: Option<(Statement, usize)>)
    requires
        pos <= input.len(),
    ensures
        parsed_statement(r) == struct_at(input@, pos as int),
        r matches Some((_, end)) ==> pos < end <= input.len(),
    decreases input.len() - pos, 65nat,
{
    let w_struct = ['s', 't', 'r', 'u', 'c', 't'];
    assert(w_struct@ =~= seq!['s', 't', 'r', 'u', 'c', 't']);
    if !has_tag(input, pos, &w_struct) {
        return None;
    }
    let (name, end) = match read_identifier(input, skip_blank(input, pos + 6)) {
        Some(found) => found,
        None => {
            return None;
        },
    };
    let open = skip_blank(input, end);
    if !has_char(input, open, '{') {
        return None;
    }
    let inner = skip_blank(input, open + 1);
    let (fields, last) = read_params(input, inner, false);
    let close = skip_comma(input, last);
    if has_char(input, close, '}') {
        Some((Statement::Struct(name, fields), close + 1))
    } else {
        None
    }
}

/// Reads the declaration of an enum at `pos`.
fn read_enum(input: &Vec<char>, pos: usize) -> (r: Option<(Statement, usize)>)
    requires
        pos <= input.len(),
    ensures
        parsed_statement(r) == enum_at(input@, pos as int),
        r matches Some((_, end)) ==> pos < end <= input.len(),
{
    let w_enum = ['e', 'n', 'u', 'm'];
    assert(w_enum@ =~= seq!['e', 'n', 'u', 'm']);
    if !has_tag(input, pos, &w_enum) {
        return None;
    }
    let (name, end) = match read_identifier(input, skip_blank(input, pos + 4)) {
        Some(found) => found,
        None => {
            return None;
        },
    };
    let open = skip_blank(input, end);
    if !has_char(input, open, '{') {
        return None;
    }
    let (variants, last) = read_variants(input, skip_blank(input, open + 1));
    let close = skip_comma(input, last);
    if has_char(input, close, '}') {
        Some((Statement::Enum(name, variants), close + 1))
    } else {
        None
    }
}

/// Reads the declaration of a sum at `pos`.
fn read_type(input: &Vec<char>, pos: usize) -> (r: Option<(Statement, usize)>)
    requires
        pos <= input.len(),
    ensures
        parsed_statement(r) == type_at(input@, pos as int),
        r matches Some((_, end)) ==> pos < end <= input.len(),
{
    let w_type = ['t', 'y', 'p', 'e'];
    assert(w_type@ =~= seq!['t', 'y', 'p', 'e']);
    if !has_tag(input, pos, &w_type) {
        return None;
    }
    let (name, end) = match read_identifier(input, skip_blank(input, pos + 4)) {
        Some(found) => found,
        None => {
            return None;
        },
    };
    let equals = skip_blank(input, end);
    if !has_char(input, equals, '=') {
        return None;
    }
    let (types, last) = read_alternatives(input, skip_blank(input, equals + 1));
    assert(typing_views(types@).len() == types.len());
    if types.len() > 0 && has_char(input, last, ';') {
        Some((Statement::Type(name, types), last + 1))
    } else {
        None
    }
}

/// Reads the import at `pos`.
#[verifier::loop_isolation(false)]
fn read_use(input: &Vec<char>, pos: usize) -> (r: Option<(Statement, usize)>)
    requires
        pos <= input.len(),
    ensures
        parsed_statement(r) == use_at(input@, pos as int),
        r matches Some((_, end)) ==> pos < end <= input.len(),
{
    let w_use = ['u', 's', 'e'];
    assert(w_use@ =~= seq!['u', 's', 'e']);
    if !has_tag(input, pos, &w_use) {
        return None;
    }
    let open = skip_blank(input, pos + 3);
    if !has_char(input, open, '"') {
        return None;
    }
    let ghost keep = |c: char| c != '"';
    let mut close: usize = open + 1;
    while close < input.len() && input[close] != '"'
        invariant
            open + 1 <= close <= input.len(),
            run_end(input@, open + 1, keep) == run_end(input@, close as int, keep),
        decreases input.len() - close,
    {
        close += 1;
    }
    if !(open + 1 < close && has_char(input, close, '"')) {
        return None;
    }
    let last = skip_blank(input, close + 1);
    if has_char(input, last, ';') {
        Some((Statement::Import(text_of(input, open + 1, close)), last + 1))
    } else {
        None
    }
}

/// Reads the declaration at `pos`.
pub(crate) fn read_stmt(input: &Vec<char>, pos: usize) -> (r: Option<(Statement, usize)>)
    requires
        pos <= input.len(),
    ensures
        parsed_statement(r) == stmt_at(input@, pos as int),
        r matches Some((_, end)) ==> pos < end <= input.len(),
    decreases input.len() - pos, 70nat,
{
    let w_fn = ['f', 'n'];
    let w_let = ['l', 'e', 't'];
    assert(w_fn@ =~= seq!['f', 'n']);
    assert(w_let@ =~= seq!['l', 'e', 't']);
    let found = if let Some(found) = read_function(input, pos, &w_fn) {
        Some(found)
    } else if let Some(found) = read_function(input, pos, &w_let) {
        Some(found)
    } else if let Some(found) = read_let(input, pos) {
        Some(found)
    } else if let Some(found) = read_struct(input, pos) {
        Some(found)
    } else if let Some(found) = read_enum(input, pos) {
        Some(found)
    } else if let Some(found) = read_type(input, pos) {
        Some(found)
    } else {
        read_use(input, pos)
    };
    match found {
        Some((statement, end)) => Some((statement, skip_blank(input, end))),
        None => None,
    }
}

/// Reads the declaration that begins a text.
pub fn stmt(input: &str) -> (r: Result<(String, Statement), ParseError>)
    ensures
        match r {
            Ok((rest, statement)) => outcome(input@, stmt_at(input@, 0)) == Ok::<
                (Seq<char>, StatementModel),
                Seq<char>,
            >((rest@, statement@)),
            Err(e) => outcome(input@, stmt_at(input@, 0)) == Err::<
                (Seq<char>, StatementModel),
                Seq<char>,
            >(e.rest@),
        },
{
    let chars = chars_of(input);
    match read_stmt(&chars, 0) {
        Some((statement, end)) => {
            let rest = text_of(&chars, end, chars.len());
            assert(chars@.subrange(end as int, chars.len() as int) =~= input@.skip(end as int));
            Ok((rest, statement))
        },
        None => {
            let rest = text_of(&chars, 0, chars.len());
            assert(chars@.subrange(0, chars.len() as int) =~= input@);
            Err(ParseError { rest })
        },
    }
}

} // verus!
