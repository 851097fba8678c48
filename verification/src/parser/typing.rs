//! Types: their unification and the reader of type expressions.

use crate::errors::ParseError;
use crate::parser::util::{
    blank_end, identifier_at, outcome, read_identifier, skip_blank, skip_spaces,
    spaces_end,
};
use crate::text::{char_at, chars_of, has_char, has_tag, tag_at, text_of};
use vstd::prelude::*;

verus! {

/// A type expression of the language.
#[derive(Debug, PartialEq, Eq, Hash)]
pub enum Typing {
    Any,
    Nat,
    Int,
    Float,
    Bool,
    String,
    Array(Box<Typing>),
    Tuple(Vec<Typing>),
    Option(Box<Typing>),
    UserTyping(String),
}

/// The mathematical value of a [`Typing`]: names are character sequences and
/// tuple components form a sequence.
pub enum TypingModel {
    Any,
    Nat,
    Int,
    Float,
    Bool,
    String,
    Array(Box<TypingModel>),
    Tuple(Seq<TypingModel>),
    Option(Box<TypingModel>),
    UserTyping(Seq<char>),
}

impl Typing {
    /// The mathematical value of this type.
    pub open spec fn model(&self) -> TypingModel
        decreases self,
    {
        match self {
            Typing::Any => TypingModel::Any,
            Typing::Nat => TypingModel::Nat,
            Typing::Int => TypingModel::Int,
            Typing::Float => TypingModel::Float,
            Typing::Bool => TypingModel::Bool,
            Typing::String => TypingModel::String,
            Typing::Array(t) => TypingModel::Array(Box::new(t.model())),
            Typing::Tuple(ts) => TypingModel::Tuple(typing_views(ts@)),
            Typing::Option(t) => TypingModel::Option(Box::new(t.model())),
            Typing::UserTyping(name) => TypingModel::UserTyping(name@),
        }
    }
}

impl View for Typing {
    type V = TypingModel;

    open spec fn view(&self) -> TypingModel {
        self.model()
    }
}

/// The models of a sequence of types, position by position.
pub open spec fn typing_views(ts: Seq<Typing>) -> Seq<TypingModel>
    decreases ts,
{
    Seq::new(ts.len(), |i: int| if 0 <= i < ts.len() { ts[i].model() } else { TypingModel::Any })
}

/// The model of an optional type.
pub open spec fn typing_option_view(t: Option<Typing>) -> Option<TypingModel> {
    match t {
        Some(t) => Some(t@),
        None => None,
    }
}

impl Clone for Typing {
    #[verifier::loop_isolation(false)]
    fn clone(&self) -> (r: Typing)
        ensures
            r@ == self@,
        decreases self,
    {
        match self {
            Typing::Any => Typing::Any,
            Typing::Nat => Typing::Nat,
            Typing::Int => Typing::Int,
            Typing::Float => Typing::Float,
            Typing::Bool => Typing::Bool,
            Typing::String => Typing::String,
            Typing::Array(t) => Typing::Array(Box::new((**t).clone())),
            Typing::Tuple(ts) => {
                let mut out: Vec<Typing> = Vec::new();
                let mut i: usize = 0;
                while i < ts.len()
                    invariant
                        i <= ts.len(),
                        out.len() == i,
                        forall|j: int| 0 <= j < i ==> out[j]@ == ts[j]@,
                    decreases ts.len() - i,
                {
                    out.push(ts[i].clone());
                    i += 1;
                }
                assert(typing_views(out@) =~= typing_views(ts@));
                Typing::Tuple(out)
            },
            Typing::Option(t) => Typing::Option(Box::new((**t).clone())),
            Typing::UserTyping(name) => Typing::UserTyping(name.clone()),
        }
    }
}

impl Typing {
    /// Structural equality: `true` exactly when both types have the same model.
    #[verifier::loop_isolation(false)]
    pub fn equals(&self, other: &Typing) -> (same: bool)
        ensures
            same == (self@ == other@),
        decreases self,
    {
        match (self, other) {
            (Typing::Any, Typing::Any) => true,
            (Typing::Nat, Typing::Nat) => true,
            (Typing::Int, Typing::Int) => true,
            (Typing::Float, Typing::Float) => true,
            (Typing::Bool, Typing::Bool) => true,
            (Typing::String, Typing::String) => true,
            (Typing::Array(s), Typing::Array(t)) => (**s).equals(&**t),
            (Typing::Tuple(xs), Typing::Tuple(ys)) => Typing::equals_each(xs, ys),
            (Typing::Option(s), Typing::Option(t)) => (**s).equals(&**t),
            (Typing::UserTyping(a), Typing::UserTyping(b)) => *a == *b,
            _ => false,
        }
    }

    /// Position-wise equality of two lists of types.
    #[verifier::loop_isolation(false)]
    fn equals_each(xs: &Vec<Typing>, ys: &Vec<Typing>) -> (same: bool)
        ensures
            same == (typing_views(xs@) == typing_views(ys@)),
        decreases xs,
    {
        assert(typing_views(xs@).len() == xs.len());
        assert(typing_views(ys@).len() == ys.len());
        if xs.len() != ys.len() {
            return false;
        }
        let mut i: usize = 0;
        while i < xs.len()
            invariant
                i <= xs.len(),
                xs.len() == ys.len(),
                forall|j: int| 0 <= j < i ==> xs[j]@ == ys[j]@,
            decreases xs.len() - i,
        {
            if !xs[i].equals(&ys[i]) {
                assert(typing_views(xs@)[i as int] != typing_views(ys@)[i as int]);
                return false;
            }
            i += 1;
        }
        assert(typing_views(xs@) =~= typing_views(ys@));
        true
    }

    /// Position-wise unification of two lists of one length: `None` when
    /// some position does not unify.
    #[verifier::loop_isolation(false)]
    fn unify_each(xs: &Vec<Typing>, ys: &Vec<Typing>) -> (r: Option<Vec<Typing>>)
        requires
            xs.len() == ys.len(),
        ensures
            match r {
                Some(out) => unify_from(typing_views(xs@), typing_views(ys@), 0) == Some(
                    typing_views(out@),
                ),
                None => unify_from(typing_views(xs@), typing_views(ys@), 0) is None,
            },
        decreases xs,
    {
        let ghost xm = typing_views(xs@);
        let ghost ym = typing_views(ys@);
        let mut out: Vec<Typing> = Vec::new();
        let mut i: usize = 0;
        assert(typing_views(out@) + unify_from(xm, ym, 0)->0 =~= unify_from(xm, ym, 0)->0);
        while i < xs.len()
            invariant
                i <= xs.len(),
                out.len() == i,
                unify_from(xm, ym, 0) == match unify_from(xm, ym, i as int) {
                    Some(rest) => Some(typing_views(out@) + rest),
                    None => None,
                },
            decreases xs.len() - i,
        {
            let ghost before = typing_views(out@);
            match Typing::unify(&xs[i], &ys[i]) {
                Some(u) => {
                    out.push(u);
                    proof {
                        assert(typing_views(out@) =~= before.push(u@));
                        if unify_from(xm, ym, i + 1) is Some {
                            let rest = unify_from(xm, ym, i + 1)->0;
                            assert(before + (seq![u@] + rest) =~= before.push(u@) + rest);
                        }
                    }
                },
                None => {
                    return None;
                },
            }
            i += 1;
        }
        assert(typing_views(out@) + Seq::<TypingModel>::empty() =~= typing_views(out@));
        Some(out)
    }

    /// The least type that both `left` and `right` widen to, if there is one.
    #[verifier::loop_isolation(false)]
    pub fn unify(left: &Typing, right: &Typing) -> (r: Option<Typing>)
        ensures
            typing_option_view(r) == unify_model(left@, right@),
        decreases left,
    {
        if left.equals(right) {
            return Some(left.clone());
        }
        match (left, right) {
            (Typing::Any, _) => Some(right.clone()),
            (_, Typing::Any) => Some(left.clone()),
            (Typing::Nat, Typing::Int) => Some(Typing::Int),
            (Typing::Nat, Typing::Float) => Some(Typing::Float),
            (Typing::Int, Typing::Nat) => Some(Typing::Int),
            (Typing::Int, Typing::Float) => Some(Typing::Float),
            (Typing::Float, Typing::Nat) => Some(Typing::Float),
            (Typing::Float, Typing::Int) => Some(Typing::Float),
            (Typing::Array(s), Typing::Array(t)) => {
                match Typing::unify(s, t) {
                    Some(u) => Some(Typing::Array(Box::new(u))),
                    None => None,
                }
            },
            (Typing::Tuple(xs), Typing::Tuple(ys)) => {
                assert(typing_views(xs@).len() == xs.len());
                assert(typing_views(ys@).len() == ys.len());
                if xs.len() != ys.len() {
                    return None;
                }
                match Typing::unify_each(xs, ys) {
                    Some(out) => Some(Typing::Tuple(out)),
                    None => None,
                }
            },
            (Typing::Option(s), Typing::Option(t)) => {
                match Typing::unify(s, t) {
                    Some(u) => Some(Typing::Option(Box::new(u))),
                    None => None,
                }
            },
            _ => None,
        }
    }
}

/// The type expression at `pos`, if one begins there. The alternatives are
/// tried in this order and the first that matches is taken: the words `Any`,
/// `_`, `Nat`, `Int`, `Float`, `Bool` and `String`; `Array<T>`; a tuple
/// `(T, ..)`; `Option<T>`; an identifier, which names a user type.
pub open spec fn typing_at(s: Seq<char>, pos: int) -> Option<(TypingModel, int)>
    decreases s.len() - pos, 1nat,
{
    if tag_at(s, pos, seq!['A', 'n', 'y']) {
        Some((TypingModel::Any, pos + 3))
    } else if char_at(s, pos, '_') {
        Some((TypingModel::Any, pos + 1))
    } else if tag_at(s, pos, seq!['N', 'a', 't']) {
        Some((TypingModel::Nat, pos + 3))
    } else if tag_at(s, pos, seq!['I', 'n', 't']) {
        Some((TypingModel::Int, pos + 3))
    } else if tag_at(s, pos, seq!['F', 'l', 'o', 'a', 't']) {
        Some((TypingModel::Float, pos + 5))
    } else if tag_at(s, pos, seq!['B', 'o', 'o', 'l']) {
        Some((TypingModel::Bool, pos + 4))
    } else if tag_at(s, pos, seq!['S', 't', 'r', 'i', 'n', 'g']) {
        Some((TypingModel::String, pos + 6))
    } else if bracketed_typing_at(s, pos, seq!['A', 'r', 'r', 'a', 'y']) is Some {
        let (t, end) = bracketed_typing_at(s, pos, seq!['A', 'r', 'r', 'a', 'y'])->0;
        Some((TypingModel::Array(Box::new(t)), end))
    } else if tuple_typing_at(s, pos) is Some {
        tuple_typing_at(s, pos)
    } else if bracketed_typing_at(s, pos, seq!['O', 'p', 't', 'i', 'o', 'n']) is Some {
        let (t, end) = bracketed_typing_at(s, pos, seq!['O', 'p', 't', 'i', 'o', 'n'])->0;
        Some((TypingModel::Option(Box::new(t)), end))
    } else {
        match identifier_at(s, pos) {
            Some((name, end)) => Some((TypingModel::UserTyping(name), end)),
            None => None,
        }
    }
}

/// The type between angle brackets after `word` at `pos`, with the
/// position after the closing bracket and the white space behind it.
pub open spec fn bracketed_typing_at(s: Seq<char>, pos: int, word: Seq<char>) -> Option<
    (TypingModel, int),
>
    decreases s.len() - pos, 0nat,
{
    let open = spaces_end(s, pos + word.len());
    let inner = spaces_end(s, open + 1);
    if tag_at(s, pos, word) && char_at(s, open, '<') && pos < inner <= s.len() {
        match typing_at(s, inner) {
            Some((t, end)) => {
                let close = spaces_end(s, end);
                if char_at(s, close, '>') {
                    Some((t, spaces_end(s, close + 1)))
                } else {
                    None
                }
            },
            None => None,
        }
    } else {
        None
    }
}

/// The tuple type at `pos`: types between round brackets, separated by commas.
pub open spec fn tuple_typing_at(s: Seq<char>, pos: int) -> Option<(TypingModel, int)>
    decreases s.len() - pos, 0nat,
{
    if char_at(s, pos, '(') && pos + 1 <= s.len() {
        match typing_at(s, pos + 1) {
            Some((t, end)) => if pos < end <= s.len() {
                let (rest, close) = more_typings_at(s, end);
                if char_at(s, close, ')') {
                    Some((TypingModel::Tuple(seq![t] + rest), close + 1))
                } else {
                    None
                }
            } else {
                None
            },
            None => None,
        }
    } else {
        None
    }
}

/// The types that follow at `pos`, each after a comma: the list ends
/// before the first comma that no type follows.
pub open spec fn more_typings_at(s: Seq<char>, pos: int) -> (Seq<TypingModel>, int)
    decreases s.len() - pos, 0nat,
{
    let next = blank_end(s, pos + 1);
    if char_at(s, pos, ',') && pos < next <= s.len() {
        match typing_at(s, next) {
            Some((t, end)) => if pos < end <= s.len() {
                let (rest, last) = more_typings_at(s, end);
                (seq![t] + rest, last)
            } else {
                (Seq::empty(), pos)
            },
            None => (Seq::empty(), pos),
        }
    } else {
        (Seq::empty(), pos)
    }
}

/// The model of a parsed type with the position after it.
pub open spec fn parsed_typing(r: Option<(Typing, usize)>) -> Option<(TypingModel, int)> {
    match r {
        Some((t, end)) => Some((t@, end as int)),
        None => None,
    }
}

/// Reads the type between angle brackets after `word` at `pos`.
fn read_bracketed_typing(input: &Vec<char>, pos: usize, word: &[char]) -> (r: Option<
    (Typing, usize),
>)
    requires
        pos <= input.len(),
    ensures
        parsed_typing(r) == bracketed_typing_at(input@, pos as int, word@),
        r matches Some((_, end)) ==> pos < end <= input.len(),
    decreases input.len() - pos, 0nat,
{
    if !has_tag(input, pos, word) {
        return None;
    }
    let open = skip_spaces(input, pos + word.len());
    if !has_char(input, open, '<') {
        return None;
    }
    let inner = skip_spaces(input, open + 1);
    match read_typing(input, inner) {
        Some((t, end)) => {
            let close = skip_spaces(input, end);
            if has_char(input, close, '>') {
                Some((t, skip_spaces(input, close + 1)))
            } else {
                None
            }
        },
        None => None,
    }
}

/// Reads the tuple type at `pos`.
#[verifier::loop_isolation(false)]
fn read_tuple_typing(input: &Vec<char>, pos: usize) -> (r: Option<(Typing, usize)>)
    requires
        pos <= input.len(),
    ensures
        parsed_typing(r) == tuple_typing_at(input@, pos as int),
        r matches Some((_, end)) ==> pos < end <= input.len(),
    decreases input.len() - pos, 0nat,
{
    if !has_char(input, pos, '(') {
        return None;
    }
    let (first, start) = match read_typing(input, pos + 1) {
        Some(found) => found,
        None => {
            return None;
        },
    };
    let ghost s = input@;
    let ghost head = seq![first@];
    let mut out: Vec<Typing> = Vec::new();
    out.push(first);
    let mut at: usize = start;
    assert(typing_views(out@) =~= head);
    loop
        invariant
            pos < at <= input.len(),
            seq![first@] + more_typings_at(s, start as int).0 == typing_views(out@)
                + more_typings_at(s, at as int).0,
            more_typings_at(s, start as int).1 == more_typings_at(s, at as int).1,
        decreases input.len() - at,
    {
        if !has_char(input, at, ',') {
            break;
        }
        let next = skip_blank(input, at + 1);
        match read_typing(input, next) {
            Some((t, end)) => {
                proof {
                    let before = typing_views(out@);
                    let rest = more_typings_at(s, end as int).0;
                    assert(typing_views(out@.push(t)) =~= before.push(t@));
                    assert(before + (seq![t@] + rest) =~= before.push(t@) + rest);
                }
                out.push(t);
                at = end;
            },
            None => {
                break;
            },
        }
    }
    assert(typing_views(out@) + Seq::<TypingModel>::empty() =~= typing_views(out@));
    if has_char(input, at, ')') {
        Some((Typing::Tuple(out), at + 1))
    } else {
        None
    }
}

/// Reads the type expression at `pos`.
pub(crate) fn read_typing(input: &Vec<char>, pos: usize) -> (r: Option<(Typing, usize)>)
    requires
        pos <= input.len(),
    ensures
        parsed_typing(r) == typing_at(input@, pos as int),
        r matches Some((_, end)) ==> pos < end <= input.len(),
    decreases input.len() - pos, 1nat,
{
    let w_any = ['A', 'n', 'y'];
    let w_nat = ['N', 'a', 't'];
    let w_int = ['I', 'n', 't'];
    let w_float = ['F', 'l', 'o', 'a', 't'];
    let w_bool = ['B', 'o', 'o', 'l'];
    let w_string = ['S', 't', 'r', 'i', 'n', 'g'];
    let w_array = ['A', 'r', 'r', 'a', 'y'];
    let w_option = ['O', 'p', 't', 'i', 'o', 'n'];
    assert(w_any@ =~= seq!['A', 'n', 'y']);
    assert(w_nat@ =~= seq!['N', 'a', 't']);
    assert(w_int@ =~= seq!['I', 'n', 't']);
    assert(w_float@ =~= seq!['F', 'l', 'o', 'a', 't']);
    assert(w_bool@ =~= seq!['B', 'o', 'o', 'l']);
    assert(w_string@ =~= seq!['S', 't', 'r', 'i', 'n', 'g']);
    assert(w_array@ =~= seq!['A', 'r', 'r', 'a', 'y']);
    assert(w_option@ =~= seq!['O', 'p', 't', 'i', 'o', 'n']);
    if has_tag(input, pos, &w_any) {
        return Some((Typing::Any, pos + 3));
    }
    if has_char(input, pos, '_') {
        return Some((Typing::Any, pos + 1));
    }
    if has_tag(input, pos, &w_nat) {
        return Some((Typing::Nat, pos + 3));
    }
    if has_tag(input, pos, &w_int) {
        return Some((Typing::Int, pos + 3));
    }
    if has_tag(input, pos, &w_float) {
        return Some((Typing::Float, pos + 5));
    }
    if has_tag(input, pos, &w_bool) {
        return Some((Typing::Bool, pos + 4));
    }
    if has_tag(input, pos, &w_string) {
        return Some((Typing::String, pos + 6));
    }
    if let Some((t, end)) = read_bracketed_typing(input, pos, &w_array) {
        return Some((Typing::Array(Box::new(t)), end));
    }
    if let Some(found) = read_tuple_typing(input, pos) {
        return Some(found);
    }
    if let Some((t, end)) = read_bracketed_typing(input, pos, &w_option) {
        return Some((Typing::Option(Box::new(t)), end));
    }
    match read_identifier(input, pos) {
        Some((name, end)) => Some((Typing::UserTyping(name), end)),
        None => None,
    }
}

/// Reads the type expression that begins a text.
pub fn typing(input: &str) -> (r: Result<(String, Typing), ParseError>)
    ensures
        match r {
            Ok((rest, t)) => outcome(input@, typing_at(input@, 0)) == Ok::<
                (Seq<char>, TypingModel),
                Seq<char>,
            >((rest@, t@)),
            Err(e) => outcome(input@, typing_at(input@, 0)) == Err::<
                (Seq<char>, TypingModel),
                Seq<char>,
            >(e.rest@),
        },
{
    let chars = chars_of(input);
    match read_typing(&chars, 0) {
        Some((t, end)) => {
            let rest = text_of(&chars, end, chars.len());
            assert(chars@.subrange(end as int, chars.len() as int) =~= input@.skip(end as int));
            Ok((rest, t))
        },
        None => {
            let rest = text_of(&chars, 0, chars.len());
            assert(chars@.subrange(0, chars.len() as int) =~= input@);
            Err(ParseError { rest })
        },
    }
}

/// Whether a type is one of the three numeric types.
pub open spec fn is_numeric(t: TypingModel) -> bool {
    t is Nat || t is Int || t is Float
}

/// The partial least upper bound of two types. A type unifies with itself;
/// `Any` unifies with everything; numbers widen along `Nat`, `Int`, `Float`;
/// arrays, options and tuples of equal arity unify component by component.
pub open spec fn unify_model(a: TypingModel, b: TypingModel) -> Option<TypingModel>
    decreases a, 0nat,
{
    if a == b {
        Some(a)
    } else {
        match (a, b) {
            (TypingModel::Any, _) => Some(b),
            (_, TypingModel::Any) => Some(a),
            (TypingModel::Nat, TypingModel::Int) => Some(TypingModel::Int),
            (TypingModel::Nat, TypingModel::Float) => Some(TypingModel::Float),
            (TypingModel::Int, TypingModel::Nat) => Some(TypingModel::Int),
            (TypingModel::Int, TypingModel::Float) => Some(TypingModel::Float),
            (TypingModel::Float, TypingModel::Nat) => Some(TypingModel::Float),
            (TypingModel::Float, TypingModel::Int) => Some(TypingModel::Float),
            (TypingModel::Array(s), TypingModel::Array(t)) => match unify_model(*s, *t) {
                Some(u) => Some(TypingModel::Array(Box::new(u))),
                None => None,
            },
            (TypingModel::Tuple(xs), TypingModel::Tuple(ys)) => {
                if xs.len() == ys.len() {
                    match unify_from(xs, ys, 0) {
                        Some(us) => Some(TypingModel::Tuple(us)),
                        None => None,
                    }
                } else {
                    None
                }
            },
            (TypingModel::Option(s), TypingModel::Option(t)) => match unify_model(*s, *t) {
                Some(u) => Some(TypingModel::Option(Box::new(u))),
                None => None,
            },
            _ => None,
        }
    }
}

/// The unification of two sequences of types from position `i` on, in
/// order: `None` as soon as one position does not unify.
pub open spec fn unify_from(xs: Seq<TypingModel>, ys: Seq<TypingModel>, i: int) -> Option<
    Seq<TypingModel>,
>
    decreases xs, xs.len() - i,
{
    if i < 0 || i >= xs.len() {
        Some(Seq::empty())
    } else {
        match unify_model(xs[i], ys[i]) {
            None => None,
            Some(u) => match unify_from(xs, ys, i + 1) {
                None => None,
                Some(rest) => Some(seq![u] + rest),
            },
        }
    }
}

} // verus!
