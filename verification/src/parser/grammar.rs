//! The grammar of expressions, declarations and programs, as mathematical
//! functions from a text and a position to what stands there and where it
//! ends. Alternatives are ordered: the first that matches is taken.

use crate::parser::cumin::CuminModel;
use crate::parser::expr::{BinaryOp, ExprModel};
use crate::parser::statement::{DefaultModel, ParamModel, StatementModel};
use crate::parser::typing::{typing_at, TypingModel};
use crate::parser::util::{
    blank_end, callee_at, comma_end, identifier_at, is_whitespace, run_end, spaces_end,
};
use crate::parser::value::value_at;
use crate::text::{char_at, tag_at};
use vstd::prelude::*;

verus! {

/// A comparison as it is written.
#[derive(Debug, Clone, Copy, PartialEq, Eq, Hash, Structural)]
pub enum Comparison {
    Equal,
    NotEqual,
    LessOrEqual,
    GreaterOrEqual,
    Less,
    Greater,
}

/// The comparison operator at `pos`.
pub open spec fn comparison_at(s: Seq<char>, pos: int) -> Option<(Comparison, int)> {
    if tag_at(s, pos, seq!['=', '=']) {
        Some((Comparison::Equal, pos + 2))
    } else if tag_at(s, pos, seq!['!', '=']) {
        Some((Comparison::NotEqual, pos + 2))
    } else if tag_at(s, pos, seq!['<', '=']) {
        Some((Comparison::LessOrEqual, pos + 2))
    } else if tag_at(s, pos, seq!['>', '=']) {
        Some((Comparison::GreaterOrEqual, pos + 2))
    } else if char_at(s, pos, '<') {
        Some((Comparison::Less, pos + 1))
    } else if char_at(s, pos, '>') {
        Some((Comparison::Greater, pos + 1))
    } else {
        None
    }
}

/// The expression that a comparison stands for: everything is written
/// with `Equal`, `Less` and `Not`.
pub open spec fn comparison_model(op: Comparison, x: ExprModel, y: ExprModel) -> ExprModel {
    match op {
        Comparison::Equal => ExprModel::Binary(BinaryOp::Equal, Box::new(x), Box::new(y)),
        Comparison::NotEqual => ExprModel::Not(
            Box::new(ExprModel::Binary(BinaryOp::Equal, Box::new(x), Box::new(y))),
        ),
        Comparison::LessOrEqual => ExprModel::Not(
            Box::new(ExprModel::Binary(BinaryOp::Less, Box::new(y), Box::new(x))),
        ),
        Comparison::GreaterOrEqual => ExprModel::Not(
            Box::new(ExprModel::Binary(BinaryOp::Less, Box::new(x), Box::new(y))),
        ),
        Comparison::Less => ExprModel::Binary(BinaryOp::Less, Box::new(x), Box::new(y)),
        Comparison::Greater => ExprModel::Binary(BinaryOp::Less, Box::new(y), Box::new(x)),
    }
}

/// The operator of the additive level at `pos`.
pub open spec fn additive_at(s: Seq<char>, pos: int) -> Option<(BinaryOp, int)> {
    if tag_at(s, pos, seq!['a', 'n', 'd']) {
        Some((BinaryOp::And, pos + 3))
    } else if tag_at(s, pos, seq!['o', 'r']) {
        Some((BinaryOp::Or, pos + 2))
    } else if tag_at(s, pos, seq!['x', 'o', 'r']) {
        Some((BinaryOp::Xor, pos + 3))
    } else if tag_at(s, pos, seq!['+', '+']) {
        Some((BinaryOp::Concat, pos + 2))
    } else if char_at(s, pos, '+') {
        Some((BinaryOp::Add, pos + 1))
    } else if char_at(s, pos, '-') {
        Some((BinaryOp::Sub, pos + 1))
    } else {
        None
    }
}

/// The operator of the multiplicative level at `pos`.
pub open spec fn multiplicative_at(s: Seq<char>, pos: int) -> Option<(BinaryOp, int)> {
    if tag_at(s, pos, seq!['*', '*']) {
        Some((BinaryOp::Pow, pos + 2))
    } else if char_at(s, pos, '*') {
        Some((BinaryOp::Mul, pos + 1))
    } else if char_at(s, pos, '/') {
        Some((BinaryOp::Div, pos + 1))
    } else if char_at(s, pos, '%') {
        Some((BinaryOp::Mod, pos + 1))
    } else {
        None
    }
}

/// The type annotation at `pos`: a colon and a type, with the white space
/// and comments around them.
pub open spec fn annotation_at(s: Seq<char>, pos: int) -> Option<(TypingModel, int)> {
    if char_at(s, pos, ':') {
        match typing_at(s, blank_end(s, pos + 1)) {
            Some((t, end)) => Some((t, blank_end(s, end))),
            None => None,
        }
    } else {
        None
    }
}

/// The dotted path at `pos`: names with points between them. The names
/// are identifiers; where something is applied, `Some` is a name too.
pub open spec fn path_at(s: Seq<char>, pos: int, applied: bool) -> Option<(Seq<Seq<char>>, int)> {
    match name_at(s, pos, applied) {
        Some((name, end)) => {
            let (rest, last) = more_names_at(s, end, applied);
            Some((seq![name] + rest, last))
        },
        None => None,
    }
}

/// The name at `pos`.
pub open spec fn name_at(s: Seq<char>, pos: int, applied: bool) -> Option<(Seq<char>, int)> {
    if applied {
        callee_at(s, pos)
    } else {
        identifier_at(s, pos)
    }
}

/// The names that follow at `pos`, each after a point.
pub open spec fn more_names_at(s: Seq<char>, pos: int, applied: bool) -> (Seq<Seq<char>>, int)
    decreases s.len() - pos,
{
    if char_at(s, pos, '.') {
        match name_at(s, pos + 1, applied) {
            Some((name, end)) => if pos < end <= s.len() {
                let (rest, last) = more_names_at(s, end, applied);
                (seq![name] + rest, last)
            } else {
                (Seq::empty(), pos)
            },
            None => (Seq::empty(), pos),
        }
    } else {
        (Seq::empty(), pos)
    }
}

/// The application of the first `k` names of a path to `inner`, the last
/// of them innermost.
pub open spec fn wrap_path(names: Seq<Seq<char>>, k: int, inner: ExprModel) -> ExprModel
    decreases k,
{
    if k <= 0 || k > names.len() {
        inner
    } else {
        wrap_path(names, k - 1, ExprModel::Apply(names[k - 1], seq![inner]))
    }
}

/// The expression at `pos` with the white space and comments behind it.
pub open spec fn expr_at(s: Seq<char>, pos: int) -> Option<(ExprModel, int)>
    decreases s.len() - pos, 60nat,
{
    match logic_at(s, pos) {
        Some((e, end)) => Some((e, blank_end(s, end))),
        None => None,
    }
}

/// The comparison at `pos`: two additive expressions with a comparison
/// operator between them, or one additive expression alone.
pub open spec fn logic_at(s: Seq<char>, pos: int) -> Option<(ExprModel, int)>
    decreases s.len() - pos, 50nat,
{
    match additive_expr_at(s, pos) {
        Some((x, end)) => match comparison_at(s, blank_end(s, end)) {
            Some((op, after)) => {
                let right = blank_end(s, after);
                if pos < right <= s.len() {
                    match additive_expr_at(s, right) {
                        Some((y, last)) => Some((comparison_model(op, x, y), blank_end(s, last))),
                        None => Some((x, end)),
                    }
                } else {
                    Some((x, end))
                }
            },
            None => Some((x, end)),
        },
        None => None,
    }
}

/// The additive expression at `pos`: terms joined from the left by `and`,
/// `or`, `xor`, `++`, `+` and `-`.
pub open spec fn additive_expr_at(s: Seq<char>, pos: int) -> Option<(ExprModel, int)>
    decreases s.len() - pos, 40nat,
{
    match term_at(s, pos) {
        Some((x, end)) => {
            let next = blank_end(s, end);
            if pos <= next <= s.len() {
                Some(additive_rest_at(s, next, x))
            } else {
                None
            }
        },
        None => None,
    }
}

/// The additive expression that begins with `left` and goes on at `pos`.
pub open spec fn additive_rest_at(s: Seq<char>, pos: int, left: ExprModel) -> (ExprModel, int)
    decreases s.len() - pos, 35nat,
{
    match additive_at(s, pos) {
        Some((op, after)) => {
            let right = blank_end(s, after);
            if pos < right <= s.len() {
                match term_at(s, right) {
                    Some((y, end)) => if pos < end <= s.len() {
                        additive_rest_at(
                            s,
                            end,
                            ExprModel::Binary(op, Box::new(left), Box::new(y)),
                        )
                    } else {
                        (left, pos)
                    },
                    None => (left, pos),
                }
            } else {
                (left, pos)
            }
        },
        None => (left, pos),
    }
}

/// The term at `pos`: casts joined from the left by `**`, `*`, `/` and `%`.
pub open spec fn term_at(s: Seq<char>, pos: int) -> Option<(ExprModel, int)>
    decreases s.len() - pos, 30nat,
{
    match cast_at(s, pos) {
        Some((x, end)) => {
            let next = blank_end(s, end);
            if pos <= next <= s.len() {
                Some(term_rest_at(s, next, x))
            } else {
                None
            }
        },
        None => None,
    }
}

/// The term that begins with `left` and goes on at `pos`.
pub open spec fn term_rest_at(s: Seq<char>, pos: int, left: ExprModel) -> (ExprModel, int)
    decreases s.len() - pos, 25nat,
{
    match multiplicative_at(s, pos) {
        Some((op, after)) => {
            let right = blank_end(s, after);
            if pos < right <= s.len() {
                match cast_at(s, right) {
                    Some((y, end)) => if pos < end <= s.len() {
                        term_rest_at(s, end, ExprModel::Binary(op, Box::new(left), Box::new(y)))
                    } else {
                        (left, pos)
                    },
                    None => (left, pos),
                }
            } else {
                (left, pos)
            }
        },
        None => (left, pos),
    }
}

/// The cast at `pos`: a factor, `as` and a type, or a factor alone.
pub open spec fn cast_at(s: Seq<char>, pos: int) -> Option<(ExprModel, int)>
    decreases s.len() - pos, 20nat,
{
    match factor_at(s, pos) {
        Some((e, end)) => {
            let word = blank_end(s, end);
            if tag_at(s, word, seq!['a', 's']) {
                match typing_at(s, blank_end(s, word + 2)) {
                    Some((t, last)) => Some((ExprModel::AsCast(Box::new(e), t), last)),
                    None => Some((e, end)),
                }
            } else {
                Some((e, end))
            }
        },
        None => None,
    }
}

/// The factor at `pos` with the white space and comments behind it. The
/// alternatives are tried in this order and the first that matches is
/// taken: a literal value, a negation with `not`, a negation with `-`, an
/// expression in round brackets, a dict, a block, an array, an
/// application, a tuple, an application with named arguments, a variable.
pub open spec fn factor_at(s: Seq<char>, pos: int) -> Option<(ExprModel, int)>
    decreases s.len() - pos, 10nat,
{
    let found = if let Some((v, end)) = value_at(s, pos) {
        Some((ExprModel::Val(v), end))
    } else if not_at(s, pos) is Some {
        not_at(s, pos)
    } else if minus_at(s, pos) is Some {
        minus_at(s, pos)
    } else if bracketed_at(s, pos) is Some {
        bracketed_at(s, pos)
    } else if dict_at(s, pos) is Some {
        dict_at(s, pos)
    } else if block_at(s, pos) is Some {
        block_at(s, pos)
    } else if array_at(s, pos) is Some {
        array_at(s, pos)
    } else if apply_at(s, pos) is Some {
        apply_at(s, pos)
    } else if tuple_at(s, pos) is Some {
        tuple_at(s, pos)
    } else if named_apply_at(s, pos) is Some {
        named_apply_at(s, pos)
    } else {
        match identifier_at(s, pos) {
            Some((name, end)) => Some((ExprModel::Var(name), end)),
            None => None,
        }
    };
    match found {
        Some((e, end)) => Some((e, blank_end(s, end))),
        None => None,
    }
}

/// The negation at `pos`: the word `not`, white space or an opening round
/// bracket behind it, and a term.
pub open spec fn not_at(s: Seq<char>, pos: int) -> Option<(ExprModel, int)>
    decreases s.len() - pos, 5nat,
{
    let operand = spaces_end(s, pos + 3);
    if tag_at(s, pos, seq!['n', 'o', 't']) && pos + 3 < s.len() && (is_whitespace(s[pos + 3])
        || s[pos + 3] == '(') && pos < operand <= s.len() {
        match term_at(s, operand) {
            Some((e, end)) => Some((ExprModel::Not(Box::new(e)), end)),
            None => None,
        }
    } else {
        None
    }
}

/// The negation at `pos`: a minus sign and an additive expression.
pub open spec fn minus_at(s: Seq<char>, pos: int) -> Option<(ExprModel, int)>
    decreases s.len() - pos, 5nat,
{
    if char_at(s, pos, '-') {
        match additive_expr_at(s, pos + 1) {
            Some((e, end)) => Some((ExprModel::Minus(Box::new(e)), end)),
            None => None,
        }
    } else {
        None
    }
}

/// The expression in round brackets at `pos`.
pub open spec fn bracketed_at(s: Seq<char>, pos: int) -> Option<(ExprModel, int)>
    decreases s.len() - pos, 5nat,
{
    let inner = blank_end(s, pos + 1);
    if char_at(s, pos, '(') && pos < inner <= s.len() {
        match expr_at(s, inner) {
            Some((e, end)) => {
                let close = blank_end(s, end);
                if char_at(s, close, ')') {
                    Some((e, close + 1))
                } else {
                    None
                }
            },
            None => None,
        }
    } else {
        None
    }
}

/// The dict at `pos`: fields between `{{` and `}}`, separated by commas,
/// a last comma allowed.
pub open spec fn dict_at(s: Seq<char>, pos: int) -> Option<(ExprModel, int)>
    decreases s.len() - pos, 5nat,
{
    let inner = blank_end(s, pos + 2);
    if tag_at(s, pos, seq!['{', '{']) && pos < inner <= s.len() {
        let (fields, end) = dict_fields_at(s, inner);
        let close = comma_end(s, end);
        if tag_at(s, close, seq!['}', '}']) {
            Some((ExprModel::AnonymousStruct(fields), close + 2))
        } else {
            None
        }
    } else {
        None
    }
}

/// The field of a dict at `pos`: a name, an optional type annotation, `=`
/// and an expression.
pub open spec fn dict_field_at(s: Seq<char>, pos: int) -> Option<
    ((Seq<char>, TypingModel, ExprModel), int),
>
    decreases s.len() - pos, 94nat,
{
    match identifier_at(s, pos) {
        Some((name, end)) => {
            let after = blank_end(s, end);
            let (typ, equals) = match annotation_at(s, after) {
                Some((t, p)) => (t, p),
                None => (TypingModel::Any, after),
            };
            let value = blank_end(s, equals + 1);
            if char_at(s, equals, '=') && pos < value <= s.len() {
                match expr_at(s, value) {
                    Some((e, last)) => Some(((name, typ, e), blank_end(s, last))),
                    None => None,
                }
            } else {
                None
            }
        },
        None => None,
    }
}

/// The fields of a dict at `pos`, separated by commas.
pub open spec fn dict_fields_at(s: Seq<char>, pos: int) -> (
    Seq<(Seq<char>, TypingModel, ExprModel)>,
    int,
)
    decreases s.len() - pos, 100nat,
{
    match dict_field_at(s, pos) {
        Some((field, end)) => if pos <= end <= s.len() {
            let (rest, last) = more_dict_fields_at(s, end);
            (seq![field] + rest, last)
        } else {
            (Seq::empty(), pos)
        },
        None => (Seq::empty(), pos),
    }
}

/// The fields of a dict that follow at `pos`, each after a comma.
pub open spec fn more_dict_fields_at(s: Seq<char>, pos: int) -> (
    Seq<(Seq<char>, TypingModel, ExprModel)>,
    int,
)
    decreases s.len() - pos, 95nat,
{
    let next = blank_end(s, pos + 1);
    if char_at(s, pos, ',') && pos < next <= s.len() {
        match dict_field_at(s, next) {
            Some((field, end)) => if pos < end <= s.len() {
                let (rest, last) = more_dict_fields_at(s, end);
                (seq![field] + rest, last)
            } else {
                (Seq::empty(), pos)
            },
            None => (Seq::empty(), pos),
        }
    } else {
        (Seq::empty(), pos)
    }
}

/// The block at `pos`: a program between curly brackets.
pub open spec fn block_at(s: Seq<char>, pos: int) -> Option<(ExprModel, int)>
    decreases s.len() - pos, 5nat,
{
    if char_at(s, pos, '{') && pos + 1 <= s.len() {
        match cumin_at(s, pos + 1) {
            Some((c, end)) => if char_at(s, end, '}') {
                Some((ExprModel::Blocked(Box::new(c)), end + 1))
            } else {
                None
            },
            None => None,
        }
    } else {
        None
    }
}

/// The array at `pos`: expressions between square brackets, separated by
/// commas, a last comma allowed.
pub open spec fn array_at(s: Seq<char>, pos: int) -> Option<(ExprModel, int)>
    decreases s.len() - pos, 5nat,
{
    let inner = blank_end(s, pos + 1);
    if char_at(s, pos, '[') && pos < inner <= s.len() {
        let (elements, end) = exprs_at(s, inner, true);
        let close = comma_end(s, end);
        if char_at(s, close, ']') {
            Some((ExprModel::Arrayed(elements), close + 1))
        } else {
            None
        }
    } else {
        None
    }
}

/// The expressions at `pos`, separated by commas. Where `padded` holds,
/// white space and comments are skipped once more behind each.
pub open spec fn exprs_at(s: Seq<char>, pos: int, padded: bool) -> (Seq<ExprModel>, int)
    decreases s.len() - pos, 100nat,
{
    match expr_at(s, pos) {
        Some((e, after)) => {
            let end = if padded {
                blank_end(s, after)
            } else {
                after
            };
            if pos <= end <= s.len() {
                let (rest, last) = more_exprs_at(s, end, padded);
                (seq![e] + rest, last)
            } else {
                (Seq::empty(), pos)
            }
        },
        None => (Seq::empty(), pos),
    }
}

/// The expressions that follow at `pos`, each after a comma.
pub open spec fn more_exprs_at(s: Seq<char>, pos: int, padded: bool) -> (Seq<ExprModel>, int)
    decreases s.len() - pos, 95nat,
{
    let next = blank_end(s, pos + 1);
    if char_at(s, pos, ',') && pos < next <= s.len() {
        match expr_at(s, next) {
            Some((e, after)) => {
                let end = if padded {
                    blank_end(s, after)
                } else {
                    after
                };
                if pos < end <= s.len() {
                    let (rest, last) = more_exprs_at(s, end, padded);
                    (seq![e] + rest, last)
                } else {
                    (Seq::empty(), pos)
                }
            },
            None => (Seq::empty(), pos),
        }
    } else {
        (Seq::empty(), pos)
    }
}

/// The application at `pos`: a path and arguments between round brackets,
/// separated by commas, a last comma allowed. A path of several names
/// applies each name to the application of the next.
pub open spec fn apply_at(s: Seq<char>, pos: int) -> Option<(ExprModel, int)>
    decreases s.len() - pos, 5nat,
{
    match path_at(s, pos, true) {
        Some((names, end)) => {
            let open = spaces_end(s, end);
            let inner = blank_end(s, open + 1);
            if char_at(s, open, '(') && pos < inner <= s.len() {
                let (args, last) = exprs_at(s, inner, false);
                let close = comma_end(s, last);
                if char_at(s, close, ')') {
                    Some(
                        (
                            wrap_path(
                                names,
                                names.len() - 1,
                                ExprModel::Apply(names.last(), args),
                            ),
                            close + 1,
                        ),
                    )
                } else {
                    None
                }
            } else {
                None
            }
        },
        None => None,
    }
}

/// The tuple at `pos`: expressions between round brackets, separated by commas.
pub open spec fn tuple_at(s: Seq<char>, pos: int) -> Option<(ExprModel, int)>
    decreases s.len() - pos, 5nat,
{
    if char_at(s, pos, '(') && pos + 1 <= s.len() {
        let (elements, end) = exprs_at(s, pos + 1, false);
        if elements.len() > 0 && char_at(s, end, ')') {
            Some((ExprModel::Tuple(elements), end + 1))
        } else {
            None
        }
    } else {
        None
    }
}

/// The application with named arguments at `pos`: a path and arguments
/// between curly brackets, separated by commas, a last comma allowed.
pub open spec fn named_apply_at(s: Seq<char>, pos: int) -> Option<(ExprModel, int)>
    decreases s.len() - pos, 5nat,
{
    match path_at(s, pos, false) {
        Some((names, end)) => {
            let open = blank_end(s, end);
            let inner = blank_end(s, open + 1);
            if char_at(s, open, '{') && pos < inner <= s.len() {
                let (args, last) = named_args_at(s, inner);
                let close = comma_end(s, last);
                if char_at(s, close, '}') {
                    Some(
                        (
                            wrap_path(
                                names,
                                names.len() - 1,
                                ExprModel::FieledApply(names.last(), args),
                            ),
                            close + 1,
                        ),
                    )
                } else {
                    None
                }
            } else {
                None
            }
        },
        None => None,
    }
}

/// The named argument at `pos`: a name, `=` and an expression.
pub open spec fn named_arg_at(s: Seq<char>, pos: int) -> Option<((Seq<char>, ExprModel), int)>
    decreases s.len() - pos, 94nat,
{
    match identifier_at(s, pos) {
        Some((name, end)) => {
            let equals = blank_end(s, end);
            let value = blank_end(s, equals + 1);
            if char_at(s, equals, '=') && pos < value <= s.len() {
                match expr_at(s, value) {
                    Some((e, last)) => Some(((name, e), blank_end(s, last))),
                    None => None,
                }
            } else {
                None
            }
        },
        None => None,
    }
}

/// The named arguments at `pos`, separated by commas.
pub open spec fn named_args_at(s: Seq<char>, pos: int) -> (Seq<(Seq<char>, ExprModel)>, int)
    decreases s.len() - pos, 100nat,
{
    match named_arg_at(s, pos) {
        Some((arg, end)) => if pos <= end <= s.len() {
            let (rest, last) = more_named_args_at(s, end);
            (seq![arg] + rest, last)
        } else {
            (Seq::empty(), pos)
        },
        None => (Seq::empty(), pos),
    }
}

/// The named arguments that follow at `pos`, each after a comma.
pub open spec fn more_named_args_at(s: Seq<char>, pos: int) -> (Seq<(Seq<char>, ExprModel)>, int)
    decreases s.len() - pos, 95nat,
{
    let next = blank_end(s, pos + 1);
    if char_at(s, pos, ',') && pos < next <= s.len() {
        match named_arg_at(s, next) {
            Some((arg, end)) => if pos < end <= s.len() {
                let (rest, last) = more_named_args_at(s, end);
                (seq![arg] + rest, last)
            } else {
                (Seq::empty(), pos)
            },
            None => (Seq::empty(), pos),
        }
    } else {
        (Seq::empty(), pos)
    }
}

/// The default of a field or parameter at `pos`, where one is given: `=`
/// and an expression.
pub open spec fn default_at(s: Seq<char>, pos: int) -> (DefaultModel, int)
    decreases s.len() - pos, 93nat,
{
    let value = blank_end(s, pos + 1);
    if char_at(s, pos, '=') && pos < value <= s.len() {
        match expr_at(s, value) {
            Some((e, last)) => (DefaultModel::Given(e), blank_end(s, last)),
            None => (DefaultModel::Absent, pos),
        }
    } else {
        (DefaultModel::Absent, pos)
    }
}

/// The field of a struct or the parameter of a function at `pos`: a name,
/// a type annotation and an optional default. A field may go without the
/// annotation and then has the type `Any`; a parameter may not.
pub open spec fn param_at(s: Seq<char>, pos: int, typed: bool) -> Option<(ParamModel, int)>
    decreases s.len() - pos, 94nat,
{
    match identifier_at(s, pos) {
        Some((name, end)) => {
            let after = blank_end(s, end);
            if pos < after <= s.len() {
                match annotation_at(s, after) {
                    Some((typ, next)) => if pos < next <= s.len() {
                        let (default, last) = default_at(s, next);
                        Some((ParamModel { name, typ, default }, last))
                    } else {
                        None
                    },
                    None => if typed {
                        None
                    } else {
                        let (default, last) = default_at(s, after);
                        Some((ParamModel { name, typ: TypingModel::Any, default }, last))
                    },
                }
            } else {
                None
            }
        },
        None => None,
    }
}

/// The fields or parameters at `pos`, separated by commas.
pub open spec fn params_at(s: Seq<char>, pos: int, typed: bool) -> (Seq<ParamModel>, int)
    decreases s.len() - pos, 100nat,
{
    match param_at(s, pos, typed) {
        Some((param, end)) => if pos <= end <= s.len() {
            let (rest, last) = more_params_at(s, end, typed);
            (seq![param] + rest, last)
        } else {
            (Seq::empty(), pos)
        },
        None => (Seq::empty(), pos),
    }
}

/// The fields or parameters that follow at `pos`, each after a comma.
pub open spec fn more_params_at(s: Seq<char>, pos: int, typed: bool) -> (Seq<ParamModel>, int)
    decreases s.len() - pos, 95nat,
{
    let next = blank_end(s, pos + 1);
    if char_at(s, pos, ',') && pos < next <= s.len() {
        match param_at(s, next, typed) {
            Some((param, end)) => if pos < end <= s.len() {
                let (rest, last) = more_params_at(s, end, typed);
                (seq![param] + rest, last)
            } else {
                (Seq::empty(), pos)
            },
            None => (Seq::empty(), pos),
        }
    } else {
        (Seq::empty(), pos)
    }
}

/// The names at `pos`, separated by commas, each with the white space and
/// comments behind it.
pub open spec fn variants_at(s: Seq<char>, pos: int) -> (Seq<Seq<char>>, int) {
    match identifier_at(s, pos) {
        Some((name, end)) => {
            let (rest, last) = more_variants_at(s, blank_end(s, end));
            (seq![name] + rest, last)
        },
        None => (Seq::empty(), pos),
    }
}

/// The names that follow at `pos`, each after a comma.
pub open spec fn more_variants_at(s: Seq<char>, pos: int) -> (Seq<Seq<char>>, int)
    decreases s.len() - pos,
{
    if char_at(s, pos, ',') {
        match identifier_at(s, blank_end(s, pos + 1)) {
            Some((name, end)) => {
                let next = blank_end(s, end);
                if pos < next <= s.len() {
                    let (rest, last) = more_variants_at(s, next);
                    (seq![name] + rest, last)
                } else {
                    (Seq::empty(), pos)
                }
            },
            None => (Seq::empty(), pos),
        }
    } else {
        (Seq::empty(), pos)
    }
}

/// The types at `pos`, separated by `|`, each with the white space and
/// comments behind it.
pub open spec fn alternatives_at(s: Seq<char>, pos: int) -> (Seq<TypingModel>, int) {
    match typing_at(s, pos) {
        Some((t, end)) => {
            let (rest, last) = more_alternatives_at(s, blank_end(s, end));
            (seq![t] + rest, last)
        },
        None => (Seq::empty(), pos),
    }
}

/// The types that follow at `pos`, each after a `|`.
pub open spec fn more_alternatives_at(s: Seq<char>, pos: int) -> (Seq<TypingModel>, int)
    decreases s.len() - pos,
{
    if char_at(s, pos, '|') {
        match typing_at(s, blank_end(s, pos + 1)) {
            Some((t, end)) => {
                let next = blank_end(s, end);
                if pos < next <= s.len() {
                    let (rest, last) = more_alternatives_at(s, next);
                    (seq![t] + rest, last)
                } else {
                    (Seq::empty(), pos)
                }
            },
            None => (Seq::empty(), pos),
        }
    } else {
        (Seq::empty(), pos)
    }
}

/// The declaration of a function at `pos`, after the word that begins it:
/// a name, parameters between round brackets, separated by commas, a last
/// comma allowed, then `=`, the body and a semicolon.
pub open spec fn function_at(s: Seq<char>, pos: int, word: Seq<char>) -> Option<
    (StatementModel, int),
>
    decreases s.len() - pos, 65nat,
{
    if tag_at(s, pos, word) && word.len() > 0 {
        match identifier_at(s, blank_end(s, pos + word.len())) {
            Some((name, end)) => {
                let open = blank_end(s, end);
                if char_at(s, open, '(') && pos < open + 1 <= s.len() {
                    let (params, last) = params_at(s, open + 1, true);
                    let close = comma_end(s, last);
                    let equals = blank_end(s, close + 1);
                    let body = blank_end(s, equals + 1);
                    if char_at(s, close, ')') && char_at(s, equals, '=') && pos < body <= s.len() {
                        match expr_at(s, body) {
                            Some((e, last)) => if char_at(s, last, ';') {
                                Some((StatementModel::Fun(name, params, e), last + 1))
                            } else {
                                None
                            },
                            None => None,
                        }
                    } else {
                        None
                    }
                } else {
                    None
                }
            },
            None => None,
        }
    } else {
        None
    }
}

/// The binding at `pos`: `let`, a name, an optional type annotation, `=`,
/// an expression and a semicolon.
pub open spec fn let_at(s: Seq<char>, pos: int) -> Option<(StatementModel, int)>
    decreases s.len() - pos, 65nat,
{
    if tag_at(s, pos, seq!['l', 'e', 't']) {
        match identifier_at(s, blank_end(s, pos + 3)) {
            Some((name, end)) => {
                let (typ, equals) = match annotation_at(s, end) {
                    Some((t, p)) => (t, p),
                    None => (TypingModel::Any, blank_end(s, end)),
                };
                let value = blank_end(s, equals + 1);
                if char_at(s, equals, '=') && pos < value <= s.len() {
                    match expr_at(s, value) {
                        Some((e, last)) => if char_at(s, last, ';') {
                            Some((StatementModel::Let(name, typ, e), last + 1))
                        } else {
                            None
                        },
                        None => None,
                    }
                } else {
                    None
                }
            },
            None => None,
        }
    } else {
        None
    }
}

/// The declaration of a struct at `pos`: `struct`, a name and fields
/// between curly brackets, separated by commas, a last comma allowed.
pub open spec fn struct_at(s: Seq<char>, pos: int) -> Option<(StatementModel, int)>
    decreases s.len() - pos, 65nat,
{
    if tag_at(s, pos, seq!['s', 't', 'r', 'u', 'c', 't']) {
        match identifier_at(s, blank_end(s, pos + 6)) {
            Some((name, end)) => {
                let open = blank_end(s, end);
                let inner = blank_end(s, open + 1);
                if char_at(s, open, '{') && pos < inner <= s.len() {
                    let (fields, last) = params_at(s, inner, false);
                    let close = comma_end(s, last);
                    if char_at(s, close, '}') {
                        Some((StatementModel::Struct(name, fields), close + 1))
                    } else {
                        None
                    }
                } else {
                    None
                }
            },
            None => None,
        }
    } else {
        None
    }
}

/// The declaration of an enum at `pos`: `enum`, a name and variants
/// between curly brackets, separated by commas, a last comma allowed.
pub open spec fn enum_at(s: Seq<char>, pos: int) -> Option<(StatementModel, int)> {
    if tag_at(s, pos, seq!['e', 'n', 'u', 'm']) {
        match identifier_at(s, blank_end(s, pos + 4)) {
            Some((name, end)) => {
                let open = blank_end(s, end);
                if char_at(s, open, '{') {
                    let (variants, last) = variants_at(s, blank_end(s, open + 1));
                    let close = comma_end(s, last);
                    if char_at(s, close, '}') {
                        Some((StatementModel::Enum(name, variants), close + 1))
                    } else {
                        None
                    }
                } else {
                    None
                }
            },
            None => None,
        }
    } else {
        None
    }
}

/// The declaration of a sum at `pos`: `type`, a name, `=`, types
/// separated by `|`, at least one, and a semicolon.
pub open spec fn type_at(s: Seq<char>, pos: int) -> Option<(StatementModel, int)> {
    if tag_at(s, pos, seq!['t', 'y', 'p', 'e']) {
        match identifier_at(s, blank_end(s, pos + 4)) {
            Some((name, end)) => {
                let equals = blank_end(s, end);
                if char_at(s, equals, '=') {
                    let (types, last) = alternatives_at(s, blank_end(s, equals + 1));
                    if types.len() > 0 && char_at(s, last, ';') {
                        Some((StatementModel::Type(name, types), last + 1))
                    } else {
                        None
                    }
                } else {
                    None
                }
            },
            None => None,
        }
    } else {
        None
    }
}

/// The import at `pos`: `use`, a path of at least one character between
/// double quotes, and a semicolon.
pub open spec fn use_at(s: Seq<char>, pos: int) -> Option<(StatementModel, int)> {
    let open = blank_end(s, pos + 3);
    let close = run_end(s, open + 1, |c: char| c != '"');
    let last = blank_end(s, close + 1);
    if tag_at(s, pos, seq!['u', 's', 'e']) && char_at(s, open, '"') && open + 1 < close && char_at(
        s,
        close,
        '"',
    ) && char_at(s, last, ';') {
        Some((StatementModel::Import(s.subrange(open + 1, close)), last + 1))
    } else {
        None
    }
}

/// The declaration at `pos` with the white space and comments behind it.
/// The alternatives are tried in this order and the first that matches is
/// taken: a function after `fn`, a function after `let`, a binding, a
/// struct, an enum, a sum, an import.
pub open spec fn stmt_at(s: Seq<char>, pos: int) -> Option<(StatementModel, int)>
    decreases s.len() - pos, 70nat,
{
    let found = if function_at(s, pos, seq!['f', 'n']) is Some {
        function_at(s, pos, seq!['f', 'n'])
    } else if function_at(s, pos, seq!['l', 'e', 't']) is Some {
        function_at(s, pos, seq!['l', 'e', 't'])
    } else if let_at(s, pos) is Some {
        let_at(s, pos)
    } else if struct_at(s, pos) is Some {
        struct_at(s, pos)
    } else if enum_at(s, pos) is Some {
        enum_at(s, pos)
    } else if type_at(s, pos) is Some {
        type_at(s, pos)
    } else {
        use_at(s, pos)
    };
    match found {
        Some((statement, end)) => Some((statement, blank_end(s, end))),
        None => None,
    }
}

/// The declarations at `pos`, as many as follow one another.
pub open spec fn stmts_at(s: Seq<char>, pos: int) -> (Seq<StatementModel>, int)
    decreases s.len() - pos, 80nat,
{
    match stmt_at(s, pos) {
        Some((statement, end)) => if pos < end <= s.len() {
            let (rest, last) = stmts_at(s, end);
            (seq![statement] + rest, last)
        } else {
            (Seq::empty(), pos)
        },
        None => (Seq::empty(), pos),
    }
}

/// The program at `pos`: white space and comments, declarations, and
/// the expression that gives the result.
pub open spec fn cumin_at(s: Seq<char>, pos: int) -> Option<(CuminModel, int)>
    decreases s.len() - pos, 90nat,
{
    let start = blank_end(s, pos);
    if pos <= start <= s.len() {
        let (statements, next) = stmts_at(s, start);
        if pos <= next <= s.len() {
            match expr_at(s, next) {
                Some((result, end)) => Some((CuminModel { statements, result }, blank_end(s, end))),
                None => None,
            }
        } else {
            None
        }
    } else {
        None
    }
}

/// The module at `pos`: white space and comments, and declarations.
pub open spec fn module_at(s: Seq<char>, pos: int) -> (Seq<StatementModel>, int) {
    let (statements, end) = stmts_at(s, blank_end(s, pos));
    (statements, blank_end(s, end))
}

} // verus!
