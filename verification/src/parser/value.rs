//! Values: their types, their conversions and the reader of literals.

use crate::errors::{EvalError, EvalErrorModel};
use crate::host::{
    answer_to, clone_text_option, text_option_view, Answer, AnswerModel, Host, Request,
    RequestModel,
};
use crate::errors::ParseError;
use crate::parser::util::{identifier_at, outcome, read_identifier, run_end};
use crate::text::{
    char_at, chars_of, decimal_of, decimal_of_model, has_char, has_tag, int_digits, int_of_text,
    int_text, is_digit, nat_digits, nat_of_text, nat_text, parse_int_text, parse_nat_text,
    push_char, same_chars, tag_at, text_of, word_false, word_true,
};
use crate::numeric::{FloatModel, FloatTerm};
use crate::parser::typing::{typing_views, unify_model, Typing, TypingModel};
use vstd::prelude::*;

verus! {

/// A value of the language. Containers record the type of their elements.
#[derive(Debug, PartialEq)]
pub enum Value {
    Nat(u128),
    Int(i128),
    Float(FloatTerm),
    Bool(bool),
    Str(String),
    Env(String, Option<String>),
    Dict(Option<String>, Vec<(String, Value)>),
    EnumVariant(String, String),
    Array(Typing, Vec<Value>),
    Tuple(Vec<Value>),
    Optional(Typing, Box<Option<Value>>),
    Wrapped(Typing, Box<Value>),
}

/// The mathematical value of a [`Value`].
pub enum ValueModel {
    Nat(nat),
    Int(int),
    Float(FloatModel),
    Bool(bool),
    Str(Seq<char>),
    Env(Seq<char>, Option<Seq<char>>),
    Dict(Option<Seq<char>>, Seq<(Seq<char>, ValueModel)>),
    EnumVariant(Seq<char>, Seq<char>),
    Array(TypingModel, Seq<ValueModel>),
    Tuple(Seq<ValueModel>),
    Optional(TypingModel, Option<Box<ValueModel>>),
    Wrapped(TypingModel, Box<ValueModel>),
}

impl Value {
    /// The mathematical value of this value.
    pub open spec fn model(&self) -> ValueModel
        decreases self,
    {
        match self {
            Value::Nat(n) => ValueModel::Nat(*n as nat),
            Value::Int(n) => ValueModel::Int(*n as int),
            Value::Float(x) => ValueModel::Float(x@),
            Value::Bool(b) => ValueModel::Bool(*b),
            Value::Str(s) => ValueModel::Str(s@),
            Value::Env(name, default) => ValueModel::Env(name@, text_option_view(*default)),
            Value::Dict(name, fields) => ValueModel::Dict(
                text_option_view(*name),
                field_views(fields@),
            ),
            Value::EnumVariant(e, v) => ValueModel::EnumVariant(e@, v@),
            Value::Array(t, xs) => ValueModel::Array(t@, value_views(xs@)),
            Value::Tuple(xs) => ValueModel::Tuple(value_views(xs@)),
            Value::Optional(t, x) => ValueModel::Optional(
                t@,
                match **x {
                    Some(v) => Some(Box::new(v.model())),
                    None => None,
                },
            ),
            Value::Wrapped(t, x) => ValueModel::Wrapped(t@, Box::new(x.model())),
        }
    }
}

/// The models of a sequence of values, position by position.
pub open spec fn value_views(xs: Seq<Value>) -> Seq<ValueModel>
    decreases xs,
{
    Seq::new(xs.len(), |i: int| if 0 <= i < xs.len() { xs[i].model() } else { ValueModel::Nat(0) })
}

/// The models of a sequence of named values, position by position.
pub open spec fn field_views(xs: Seq<(String, Value)>) -> Seq<(Seq<char>, ValueModel)>
    decreases xs,
{
    Seq::new(
        xs.len(),
        |i: int|
            if 0 <= i < xs.len() {
                (xs[i].0@, xs[i].1.model())
            } else {
                (Seq::empty(), ValueModel::Nat(0))
            },
    )
}

impl View for Value {
    type V = ValueModel;

    open spec fn view(&self) -> ValueModel {
        self.model()
    }
}

/// The model of the outcome of an operation that yields a value.
pub open spec fn value_result_view(r: Result<Value, EvalError>) -> Result<
    ValueModel,
    EvalErrorModel,
> {
    match r {
        Ok(v) => Ok(v@),
        Err(e) => Err(e@),
    }
}

/// Copies a list of values.
#[verifier::loop_isolation(false)]
pub fn clone_values(xs: &Vec<Value>) -> (r: Vec<Value>)
    ensures
        value_views(r@) == value_views(xs@),
    decreases xs,
{
    let mut out: Vec<Value> = Vec::new();
    let mut i: usize = 0;
    while i < xs.len()
        invariant
            i <= xs.len(),
            out.len() == i,
            forall|j: int| 0 <= j < i ==> out[j]@ == xs[j]@,
        decreases xs.len() - i,
    {
        out.push(xs[i].clone());
        i += 1;
    }
    assert(value_views(out@) =~= value_views(xs@));
    out
}

/// Copies a list of named values.
#[verifier::loop_isolation(false)]
pub fn clone_fields(xs: &Vec<(String, Value)>) -> (r: Vec<(String, Value)>)
    ensures
        field_views(r@) == field_views(xs@),
    decreases xs,
{
    let mut out: Vec<(String, Value)> = Vec::new();
    let mut i: usize = 0;
    while i < xs.len()
        invariant
            i <= xs.len(),
            out.len() == i,
            forall|j: int| 0 <= j < i ==> out[j].0@ == xs[j].0@ && out[j].1@ == xs[j].1@,
        decreases xs.len() - i,
    {
        out.push((xs[i].0.clone(), xs[i].1.clone()));
        i += 1;
    }
    assert(field_views(out@) =~= field_views(xs@));
    out
}

/// Tells whether two lists of values have the same models.
#[verifier::loop_isolation(false)]
pub fn equal_values(xs: &Vec<Value>, ys: &Vec<Value>) -> (same: bool)
    ensures
        same == (value_views(xs@) == value_views(ys@)),
    decreases xs,
{
    assert(value_views(xs@).len() == xs.len());
    assert(value_views(ys@).len() == ys.len());
    if xs.len() != ys.len() {
        return false;
    }
    let mut i: usize = 0;
    while i < xs.len()
        invariant
            i <= xs.len(),
            xs.len() == ys.len(),
            forall|j: int| 0 <= j < i ==> xs[j]@ == ys[j]@,
        decreases xs.len() - i,
    {
        if !xs[i].equals(&ys[i]) {
            assert(value_views(xs@)[i as int] != value_views(ys@)[i as int]);
            return false;
        }
        i += 1;
    }
    assert(value_views(xs@) =~= value_views(ys@));
    true
}

/// Tells whether two lists of named values have the same models.
#[verifier::loop_isolation(false)]
pub fn equal_fields(xs: &Vec<(String, Value)>, ys: &Vec<(String, Value)>) -> (same: bool)
    ensures
        same == (field_views(xs@) == field_views(ys@)),
    decreases xs,
{
    assert(field_views(xs@).len() == xs.len());
    assert(field_views(ys@).len() == ys.len());
    if xs.len() != ys.len() {
        return false;
    }
    let mut i: usize = 0;
    while i < xs.len()
        invariant
            i <= xs.len(),
            xs.len() == ys.len(),
            forall|j: int| 0 <= j < i ==> xs[j].0@ == ys[j].0@ && xs[j].1@ == ys[j].1@,
        decreases xs.len() - i,
    {
        if !(xs[i].0 == ys[i].0 && xs[i].1.equals(&ys[i].1)) {
            assert(field_views(xs@)[i as int] != field_views(ys@)[i as int]);
            return false;
        }
        i += 1;
    }
    assert(field_views(xs@) =~= field_views(ys@));
    true
}

/// Tells whether two optional texts are the same.
fn equal_text_options(a: &Option<String>, b: &Option<String>) -> (same: bool)
    ensures
        same == (text_option_view(*a) == text_option_view(*b)),
{
    match (a, b) {
        (Some(x), Some(y)) => *x == *y,
        (None, None) => true,
        _ => false,
    }
}

impl Value {
    /// Structural equality: `true` exactly when both values have the same model.
    pub fn equals(&self, other: &Value) -> (same: bool)
        ensures
            same == (self@ == other@),
        decreases self,
    {
        match (self, other) {
            (Value::Nat(x), Value::Nat(y)) => *x == *y,
            (Value::Int(x), Value::Int(y)) => *x == *y,
            (Value::Float(x), Value::Float(y)) => x.equals(y),
            (Value::Bool(x), Value::Bool(y)) => *x == *y,
            (Value::Str(x), Value::Str(y)) => *x == *y,
            (Value::Env(x, d), Value::Env(y, e)) => *x == *y && equal_text_options(d, e),
            (Value::Dict(m, xs), Value::Dict(n, ys)) => equal_text_options(m, n) && equal_fields(
                xs,
                ys,
            ),
            (Value::EnumVariant(a, x), Value::EnumVariant(b, y)) => *a == *b && *x == *y,
            (Value::Array(s, xs), Value::Array(t, ys)) => s.equals(t) && equal_values(xs, ys),
            (Value::Tuple(xs), Value::Tuple(ys)) => equal_values(xs, ys),
            (Value::Optional(s, x), Value::Optional(t, y)) => {
                let inner = match (&**x, &**y) {
                    (Some(v), Some(w)) => v.equals(w),
                    (None, None) => true,
                    _ => false,
                };
                s.equals(t) && inner
            },
            (Value::Wrapped(s, x), Value::Wrapped(t, y)) => s.equals(t) && (**x).equals(&**y),
            _ => false,
        }
    }
}

impl Clone for Value {
    fn clone(&self) -> (r: Value)
        ensures
            r@ == self@,
        decreases self,
    {
        match self {
            Value::Nat(n) => Value::Nat(*n),
            Value::Int(n) => Value::Int(*n),
            Value::Float(x) => Value::Float(x.clone()),
            Value::Bool(b) => Value::Bool(*b),
            Value::Str(s) => Value::Str(s.clone()),
            Value::Env(name, default) => Value::Env(name.clone(), clone_text_option(default)),
            Value::Dict(name, fields) => Value::Dict(clone_text_option(name), clone_fields(fields)),
            Value::EnumVariant(e, v) => Value::EnumVariant(e.clone(), v.clone()),
            Value::Array(t, xs) => Value::Array(t.clone(), clone_values(xs)),
            Value::Tuple(xs) => Value::Tuple(clone_values(xs)),
            Value::Optional(t, x) => {
                let inner = match &**x {
                    Some(v) => Some(v.clone()),
                    None => None,
                };
                Value::Optional(t.clone(), Box::new(inner))
            },
            Value::Wrapped(t, x) => Value::Wrapped(t.clone(), Box::new((**x).clone())),
        }
    }
}

/// The type that a value reports. A wrapped value reports the type it was
/// declared with, a named dict and an enum variant the user type of that
/// name, a dict without a name `Any`.
pub open spec fn type_of_model(v: ValueModel) -> TypingModel
    decreases v,
{
    match v {
        ValueModel::Nat(_) => TypingModel::Nat,
        ValueModel::Int(_) => TypingModel::Int,
        ValueModel::Float(_) => TypingModel::Float,
        ValueModel::Bool(_) => TypingModel::Bool,
        ValueModel::Str(_) => TypingModel::String,
        ValueModel::Env(_, _) => TypingModel::String,
        ValueModel::Dict(Some(name), _) => TypingModel::UserTyping(name),
        ValueModel::Dict(None, _) => TypingModel::Any,
        ValueModel::EnumVariant(name, _) => TypingModel::UserTyping(name),
        ValueModel::Array(t, _) => TypingModel::Array(Box::new(t)),
        ValueModel::Tuple(xs) => TypingModel::Tuple(types_of(xs)),
        ValueModel::Optional(t, _) => TypingModel::Option(Box::new(t)),
        ValueModel::Wrapped(t, _) => t,
    }
}

/// The types that the values of a sequence report, position by position.
pub open spec fn types_of(xs: Seq<ValueModel>) -> Seq<TypingModel>
    decreases xs,
{
    Seq::new(xs.len(), |i: int| if 0 <= i < xs.len() { type_of_model(xs[i]) } else { TypingModel::Any })
}

/// The number of values in a value, itself included.
pub open spec fn value_size(v: ValueModel) -> nat
    decreases v,
{
    match v {
        ValueModel::Dict(_, fields) => 1 + fields_size(fields, 0),
        ValueModel::Array(_, xs) => 1 + values_size(xs, 0),
        ValueModel::Tuple(xs) => 1 + values_size(xs, 0),
        ValueModel::Optional(_, Some(x)) => 1 + value_size(*x),
        ValueModel::Wrapped(_, x) => 1 + value_size(*x),
        _ => 1,
    }
}

/// The number of values in the elements of a sequence from position `i` on.
pub open spec fn values_size(xs: Seq<ValueModel>, i: int) -> nat
    decreases xs, xs.len() - i,
{
    if i < 0 || i >= xs.len() {
        0
    } else {
        value_size(xs[i]) + values_size(xs, i + 1)
    }
}

/// The number of values in the fields of a sequence from position `i` on.
pub open spec fn fields_size(xs: Seq<(Seq<char>, ValueModel)>, i: int) -> nat
    decreases xs, xs.len() - i,
{
    if i < 0 || i >= xs.len() {
        0
    } else {
        value_size(xs[i].1) + fields_size(xs, i + 1)
    }
}

/// An element is smaller than the sequence that holds it.
pub proof fn lemma_element_size(xs: Seq<ValueModel>, i: int, j: int)
    requires
        0 <= i <= j < xs.len(),
    ensures
        value_size(xs[j]) <= values_size(xs, i),
    decreases j - i,
{
    if i < j {
        lemma_element_size(xs, i + 1, j);
    }
}

/// Sequences whose elements have the same sizes have the same size.
pub proof fn lemma_same_sizes(xs: Seq<ValueModel>, ys: Seq<ValueModel>, i: int)
    requires
        xs.len() == ys.len(),
        0 <= i <= xs.len(),
        forall|j: int| i <= j < xs.len() ==> value_size(#[trigger] xs[j]) == value_size(ys[j]),
    ensures
        values_size(xs, i) == values_size(ys, i),
    decreases xs.len() - i,
{
    if i < xs.len() {
        assert(value_size(xs[i]) == value_size(ys[i]));
        lemma_same_sizes(xs, ys, i + 1);
    }
}

/// The lossless conversion of a value to a type. Every value converts to
/// `Any` and to its own type, unchanged. `Nat` widens to `Int` and `Float`,
/// `Int` to `Float`. An array or an option converts where its element type
/// unifies with the wanted one and every element converts, first to the
/// unified type and then to the wanted one; the result records the unified
/// type. Everything else is a `TypeError`.
pub open spec fn cast_model(v: ValueModel, t: TypingModel) -> Result<ValueModel, EvalErrorModel>
    decreases value_size(v), 0nat,
{
    if t is Any || type_of_model(v) == t {
        Ok(v)
    } else {
        match (v, t) {
            (ValueModel::Nat(x), TypingModel::Int) => if x <= i128::MAX {
                Ok(ValueModel::Int(x as int))
            } else {
                Err(EvalErrorModel::TypeError)
            },
            (ValueModel::Nat(x), TypingModel::Float) => Ok(ValueModel::Float(FloatModel::Nat(x))),
            (ValueModel::Int(x), TypingModel::Float) => Ok(ValueModel::Float(FloatModel::Int(x))),
            (ValueModel::Array(s, xs), TypingModel::Array(t1)) => match unify_model(s, *t1) {
                Some(u) => match cast_from(xs, u, *t1, (value_size(v) - 1) as nat, 0) {
                    Ok(out) => Ok(ValueModel::Array(u, out)),
                    Err(e) => Err(e),
                },
                None => Err(EvalErrorModel::TypeError),
            },
            (ValueModel::Optional(s, x), TypingModel::Option(t1)) => match unify_model(s, *t1) {
                Some(u) => match x {
                    Some(x) => match cast_twice(*x, u, *t1, (value_size(v) - 1) as nat) {
                        Ok(out) => Ok(ValueModel::Optional(u, Some(Box::new(out)))),
                        Err(e) => Err(e),
                    },
                    None => Ok(ValueModel::Optional(u, None)),
                },
                None => Err(EvalErrorModel::TypeError),
            },
            _ => Err(EvalErrorModel::TypeError),
        }
    }
}

/// The conversion of a value to `u` and of the result to `t`. The bound is
/// the size of the largest value this is applied to; it only serves to show
/// that the conversion ends, and every value met is within it.
pub open spec fn cast_twice(v: ValueModel, u: TypingModel, t: TypingModel, bound: nat) -> Result<
    ValueModel,
    EvalErrorModel,
>
    decreases bound, 1nat,
{
    if value_size(v) <= bound {
        match cast_model(v, u) {
            Ok(w) => if value_size(w) <= bound {
                cast_model(w, t)
            } else {
                Err(EvalErrorModel::TypeError)
            },
            Err(e) => Err(e),
        }
    } else {
        Err(EvalErrorModel::TypeError)
    }
}

/// The conversion of the elements of a sequence from position `i` on, each
/// to `u` and then to `t`, in order.
pub open spec fn cast_from(
    xs: Seq<ValueModel>,
    u: TypingModel,
    t: TypingModel,
    bound: nat,
    i: int,
) -> Result<Seq<ValueModel>, EvalErrorModel>
    decreases bound, xs.len() - i + 2,
{
    if i < 0 || i >= xs.len() {
        Ok(Seq::empty())
    } else {
        match cast_twice(xs[i], u, t, bound) {
            Ok(w) => match cast_from(xs, u, t, bound, i + 1) {
                Ok(rest) => Ok(seq![w] + rest),
                Err(e) => Err(e),
            },
            Err(e) => Err(e),
        }
    }
}

/// The conversion that `as` asks for. Beyond [`cast_model`] it turns
/// integers into their decimal text, reads a text as an integer or as a
/// truth value, takes a non-negative `Int` to `Nat`, and has the host cut
/// down, print or recognise floating-point numbers. A negative `Int` does
/// not become a `Nat`; a text that does not read is a `TypeError`.
pub open spec fn coerce_model(
    v: ValueModel,
    t: TypingModel,
    host: Seq<(RequestModel, AnswerModel)>,
) -> Result<ValueModel, EvalErrorModel> {
    match (v, t) {
        (ValueModel::Nat(x), TypingModel::String) => Ok(ValueModel::Str(nat_digits(x))),
        (ValueModel::Int(x), TypingModel::Nat) => if x >= 0 {
            Ok(ValueModel::Nat(x as nat))
        } else {
            Err(EvalErrorModel::TypeError)
        },
        (ValueModel::Int(x), TypingModel::String) => Ok(ValueModel::Str(int_digits(x))),
        (ValueModel::Float(x), TypingModel::Nat) => match answer_to(
            host,
            RequestModel::FloatToNat(x),
        ) {
            Some(AnswerModel::Nat(n)) => Ok(ValueModel::Nat(n)),
            _ => Err(EvalErrorModel::Pending(RequestModel::FloatToNat(x))),
        },
        (ValueModel::Float(x), TypingModel::Int) => match answer_to(
            host,
            RequestModel::FloatToInt(x),
        ) {
            Some(AnswerModel::Int(n)) => Ok(ValueModel::Int(n)),
            _ => Err(EvalErrorModel::Pending(RequestModel::FloatToInt(x))),
        },
        (ValueModel::Float(x), TypingModel::String) => match answer_to(
            host,
            RequestModel::FloatText(x),
        ) {
            Some(AnswerModel::Text(s)) => Ok(ValueModel::Str(s)),
            _ => Err(EvalErrorModel::Pending(RequestModel::FloatText(x))),
        },
        (ValueModel::Str(s), TypingModel::Nat) => match nat_of_text(s) {
            Some(n) => Ok(ValueModel::Nat(n)),
            None => Err(EvalErrorModel::TypeError),
        },
        (ValueModel::Str(s), TypingModel::Int) => match int_of_text(s) {
            Some(n) => Ok(ValueModel::Int(n)),
            None => Err(EvalErrorModel::TypeError),
        },
        (ValueModel::Str(s), TypingModel::Float) => match answer_to(
            host,
            RequestModel::FloatParse(s),
        ) {
            Some(AnswerModel::Flag(true)) => Ok(ValueModel::Float(FloatModel::Text(s))),
            Some(AnswerModel::Flag(false)) => Err(EvalErrorModel::TypeError),
            _ => Err(EvalErrorModel::Pending(RequestModel::FloatParse(s))),
        },
        (ValueModel::Str(s), TypingModel::Bool) => if s == word_true() {
            Ok(ValueModel::Bool(true))
        } else if s == word_false() {
            Ok(ValueModel::Bool(false))
        } else {
            cast_model(v, t)
        },
        _ => cast_model(v, t),
    }
}

impl Value {
    /// The type that this value reports.
    #[verifier::loop_isolation(false)]
    pub fn type_of(&self) -> (r: Typing)
        ensures
            r@ == type_of_model(self@),
        decreases self,
    {
        match self {
            Value::Nat(_) => Typing::Nat,
            Value::Int(_) => Typing::Int,
            Value::Float(_) => Typing::Float,
            Value::Bool(_) => Typing::Bool,
            Value::Str(_) => Typing::String,
            Value::Env(_, _) => Typing::String,
            Value::Dict(Some(name), _) => Typing::UserTyping(name.clone()),
            Value::Dict(None, _) => Typing::Any,
            Value::EnumVariant(name, _) => Typing::UserTyping(name.clone()),
            Value::Array(t, _) => Typing::Array(Box::new(t.clone())),
            Value::Tuple(xs) => {
                let mut out: Vec<Typing> = Vec::new();
                let mut i: usize = 0;
                while i < xs.len()
                    invariant
                        i <= xs.len(),
                        out.len() == i,
                        forall|j: int| 0 <= j < i ==> out[j]@ == type_of_model(xs[j]@),
                    decreases xs.len() - i,
                {
                    out.push(xs[i].type_of());
                    i += 1;
                }
                assert(typing_views(out@) =~= types_of(value_views(xs@)));
                Typing::Tuple(out)
            },
            Value::Optional(t, _) => Typing::Option(Box::new(t.clone())),
            Value::Wrapped(t, _) => t.clone(),
        }
    }

    /// Converts this value to `typ` as the operator `as` does.
    pub fn coerce(&self, typ: &Typing, host: &Host) -> (r: Result<Value, EvalError>)
        ensures
            value_result_view(r) == coerce_model(self@, typ@, host@),
    {
        match (self, typ) {
            (Value::Nat(x), Typing::String) => Ok(Value::Str(nat_text(*x))),
            (Value::Int(x), Typing::Nat) => {
                if *x >= 0 {
                    Ok(Value::Nat(*x as u128))
                } else {
                    Err(EvalError::TypeError)
                }
            },
            (Value::Int(x), Typing::String) => Ok(Value::Str(int_text(*x))),
            (Value::Float(x), Typing::Nat) => {
                let request = Request::FloatToNat(x.clone());
                match host.answer(&request) {
                    Some(Answer::Nat(n)) => Ok(Value::Nat(*n)),
                    _ => Err(EvalError::Pending(request)),
                }
            },
            (Value::Float(x), Typing::Int) => {
                let request = Request::FloatToInt(x.clone());
                match host.answer(&request) {
                    Some(Answer::Int(n)) => Ok(Value::Int(*n)),
                    _ => Err(EvalError::Pending(request)),
                }
            },
            (Value::Float(x), Typing::String) => {
                let request = Request::FloatText(x.clone());
                match host.answer(&request) {
                    Some(Answer::Text(s)) => Ok(Value::Str(s.clone())),
                    _ => Err(EvalError::Pending(request)),
                }
            },
            (Value::Str(s), Typing::Nat) => {
                match parse_nat_text(s.as_str()) {
                    Some(n) => Ok(Value::Nat(n)),
                    None => Err(EvalError::TypeError),
                }
            },
            (Value::Str(s), Typing::Int) => {
                match parse_int_text(s.as_str()) {
                    Some(n) => Ok(Value::Int(n)),
                    None => Err(EvalError::TypeError),
                }
            },
            (Value::Str(s), Typing::Float) => {
                let request = Request::FloatParse(s.clone());
                match host.answer(&request) {
                    Some(Answer::Flag(true)) => Ok(Value::Float(FloatTerm::Text(s.clone()))),
                    Some(Answer::Flag(false)) => Err(EvalError::TypeError),
                    _ => Err(EvalError::Pending(request)),
                }
            },
            (Value::Str(s), Typing::Bool) => {
                let chars = chars_of(s.as_str());
                let yes = ['t', 'r', 'u', 'e'];
                let no = ['f', 'a', 'l', 's', 'e'];
                assert(yes@ =~= word_true());
                assert(no@ =~= word_false());
                if same_chars(&chars, &yes) {
                    Ok(Value::Bool(true))
                } else if same_chars(&chars, &no) {
                    Ok(Value::Bool(false))
                } else {
                    self.cast(typ)
                }
            },
            _ => self.cast(typ),
        }
    }

    /// Converts this value to `typ` without loss, or fails with a `TypeError`.
    #[verifier::loop_isolation(false)]
    pub fn cast(&self, typ: &Typing) -> (r: Result<Value, EvalError>)
        ensures
            value_result_view(r) == cast_model(self@, typ@),
            r matches Ok(v) ==> value_size(v@) == value_size(self@),
        decreases value_size(self@),
    {
        if let Typing::Any = typ {
            return Ok(self.clone());
        }
        let own = self.type_of();
        if own.equals(typ) {
            return Ok(self.clone());
        }
        match (self, typ) {
            (Value::Nat(x), Typing::Int) => {
                if *x <= 0x7fff_ffff_ffff_ffff_ffff_ffff_ffff_ffffu128 {
                    Ok(Value::Int(*x as i128))
                } else {
                    Err(EvalError::TypeError)
                }
            },
            (Value::Nat(x), Typing::Float) => Ok(Value::Float(FloatTerm::Nat(*x))),
            (Value::Int(x), Typing::Float) => Ok(Value::Float(FloatTerm::Int(*x))),
            (Value::Array(s, xs), Typing::Array(t)) => {
                match Typing::unify(s, t) {
                    Some(u) => {
                        let ghost xm = value_views(xs@);
                        let ghost bound = (value_size(self@) - 1) as nat;
                        let mut out: Vec<Value> = Vec::new();
                        let mut i: usize = 0;
                        assert(value_views(out@) + cast_from(xm, u@, t@, bound, 0)->Ok_0
                            =~= cast_from(xm, u@, t@, bound, 0)->Ok_0);
                        while i < xs.len()
                            invariant
                                i <= xs.len(),
                                out.len() == i,
                                forall|j: int|
                                    0 <= j < i ==> value_size(#[trigger] out[j]@) == value_size(
                                        xs[j]@,
                                    ),
                                cast_from(xm, u@, t@, bound, 0) == match cast_from(
                                    xm,
                                    u@,
                                    t@,
                                    bound,
                                    i as int,
                                ) {
                                    Ok(rest) => Ok(value_views(out@) + rest),
                                    Err(e) => Err(e),
                                },
                            decreases xs.len() - i,
                        {
                            proof {
                                lemma_element_size(xm, 0, i as int);
                                assert(xm[i as int] == xs[i as int]@);
                                assert(value_size(self@) == 1 + values_size(xm, 0));
                                assert(cast_twice(xm[i as int], u@, t@, bound) == match cast_model(
                                    xm[i as int],
                                    u@,
                                ) {
                                    Ok(w) => if value_size(w) <= bound {
                                        cast_model(w, t@)
                                    } else {
                                        Err(EvalErrorModel::TypeError)
                                    },
                                    Err(e) => Err(e),
                                });
                            }
                            let ghost before = value_views(out@);
                            let first = match xs[i].cast(&u) {
                                Ok(w) => w,
                                Err(e) => {
                                    return Err(e);
                                },
                            };
                            let second = match first.cast(t) {
                                Ok(w) => w,
                                Err(e) => {
                                    return Err(e);
                                },
                            };
                            out.push(second);
                            proof {
                                assert(value_views(out@) =~= before.push(second@));
                                if cast_from(xm, u@, t@, bound, i + 1) is Ok {
                                    let rest = cast_from(xm, u@, t@, bound, i + 1)->Ok_0;
                                    assert(before + (seq![second@] + rest) =~= before.push(second@)
                                        + rest);
                                }
                            }
                            i += 1;
                        }
                        proof {
                            assert(value_views(out@) + Seq::<ValueModel>::empty() =~= value_views(
                                out@,
                            ));
                            assert forall|j: int| 0 <= j < xm.len() implies value_size(
                                #[trigger] value_views(out@)[j],
                            ) == value_size(xm[j]) by {
                                assert(value_size(out[j]@) == value_size(xs[j]@));
                            }
                            lemma_same_sizes(value_views(out@), xm, 0);
                        }
                        Ok(Value::Array(u, out))
                    },
                    None => Err(EvalError::TypeError),
                }
            },
            (Value::Optional(s, x), Typing::Option(t)) => {
                match Typing::unify(s, t) {
                    Some(u) => {
                        match &**x {
                            Some(x) => {
                                proof {
                                    let bound = (value_size(self@) - 1) as nat;
                                    assert(cast_twice(x@, u@, t@, bound) == match cast_model(
                                        x@,
                                        u@,
                                    ) {
                                        Ok(w) => if value_size(w) <= bound {
                                            cast_model(w, t@)
                                        } else {
                                            Err(EvalErrorModel::TypeError)
                                        },
                                        Err(e) => Err(e),
                                    });
                                }
                                let first = match x.cast(&u) {
                                    Ok(w) => w,
                                    Err(e) => {
                                        return Err(e);
                                    },
                                };
                                let second = match first.cast(t) {
                                    Ok(w) => w,
                                    Err(e) => {
                                        return Err(e);
                                    },
                                };
                                Ok(Value::Optional(u, Box::new(Some(second))))
                            },
                            None => Ok(Value::Optional(u, Box::new(None))),
                        }
                    },
                    None => Err(EvalError::TypeError),
                }
            },
            _ => Err(EvalError::TypeError),
        }
    }
}

/// The end of the decimal numeral at `pos`, if one begins there: a digit
/// and the longest run of digits and underscores after it.
pub open spec fn decimal_end(s: Seq<char>, pos: int) -> Option<int> {
    if 0 <= pos < s.len() && is_digit(s[pos]) {
        Some(run_end(s, pos + 1, |c: char| is_digit(c) || c == '_'))
    } else {
        None
    }
}

/// The characters of `s` from position `i` on, without the underscores.
pub open spec fn strip_from(s: Seq<char>, i: int) -> Seq<char>
    decreases s.len() - i,
{
    if i < 0 || i >= s.len() {
        Seq::empty()
    } else if s[i] == '_' {
        strip_from(s, i + 1)
    } else {
        seq![s[i]] + strip_from(s, i + 1)
    }
}

/// The characters of a numeral, without the underscores that group its digits.
pub open spec fn stripped(s: Seq<char>) -> Seq<char> {
    strip_from(s, 0)
}

/// The position after an optional minus sign at `pos`.
pub open spec fn sign_end(s: Seq<char>, pos: int) -> int {
    if char_at(s, pos, '-') {
        pos + 1
    } else {
        pos
    }
}

/// The floating-point literal at `pos`: an optional minus sign, then a
/// point and a numeral, or a numeral, a point and a numeral. Its value is
/// the term made of its text without underscores.
pub open spec fn float_at(s: Seq<char>, pos: int) -> Option<(ValueModel, int)> {
    let start = sign_end(s, pos);
    let end = if char_at(s, start, '.') {
        decimal_end(s, start + 1)
    } else {
        match decimal_end(s, start) {
            Some(point) => if char_at(s, point, '.') {
                decimal_end(s, point + 1)
            } else {
                None
            },
            None => None,
        }
    };
    match end {
        Some(end) => Some(
            (ValueModel::Float(FloatModel::Text(stripped(s.subrange(pos, end)))), end),
        ),
        None => None,
    }
}

/// The integer literal at `pos`: a numeral is a `Nat`, a numeral after a
/// minus sign an `Int`. A numeral that does not fit its type is no literal.
pub open spec fn number_at(s: Seq<char>, pos: int) -> Option<(ValueModel, int)> {
    let start = sign_end(s, pos);
    match decimal_end(s, start) {
        Some(end) => match decimal_of_model(stripped(s.subrange(start, end))) {
            Some(n) => if start == pos {
                Some((ValueModel::Nat(n), end))
            } else if -(n as int) >= i128::MIN {
                Some((ValueModel::Int(-(n as int)), end))
            } else {
                None
            },
            None => None,
        },
        None => None,
    }
}

/// What an escape sequence stands for, by the character after the backslash.
pub open spec fn unescaped(c: char) -> Option<char> {
    if c == '\\' {
        Some('\\')
    } else if c == '"' {
        Some('"')
    } else if c == '\'' {
        Some('\'')
    } else if c == 'n' {
        Some('\n')
    } else if c == 'r' {
        Some('\r')
    } else if c == 't' {
        Some('\t')
    } else {
        None
    }
}

/// The text of a string literal from `pos` up to its closing quote, with
/// the position of that quote. Escape sequences are decoded.
pub open spec fn string_body_at(s: Seq<char>, pos: int) -> Option<(Seq<char>, int)>
    decreases s.len() - pos,
{
    if pos < 0 || pos >= s.len() {
        None
    } else if s[pos] == '"' {
        Some((Seq::empty(), pos))
    } else if s[pos] == '\\' {
        if pos + 1 < s.len() && unescaped(s[pos + 1]) is Some {
            match string_body_at(s, pos + 2) {
                Some((rest, end)) => Some((seq![unescaped(s[pos + 1])->0] + rest, end)),
                None => None,
            }
        } else {
            None
        }
    } else {
        match string_body_at(s, pos + 1) {
            Some((rest, end)) => Some((seq![s[pos]] + rest, end)),
            None => None,
        }
    }
}

/// The string literal at `pos`: text between double quotes.
pub open spec fn string_at(s: Seq<char>, pos: int) -> Option<(ValueModel, int)> {
    if char_at(s, pos, '"') {
        match string_body_at(s, pos + 1) {
            Some((text, end)) => Some((ValueModel::Str(text), end + 1)),
            None => None,
        }
    } else {
        None
    }
}

/// The enum variant at `pos`: two identifiers with `::` between them.
pub open spec fn variant_at(s: Seq<char>, pos: int) -> Option<(ValueModel, int)> {
    match identifier_at(s, pos) {
        Some((name, colons)) => if tag_at(s, colons, seq![':', ':']) {
            match identifier_at(s, colons + 2) {
                Some((variant, end)) => Some((ValueModel::EnumVariant(name, variant), end)),
                None => None,
            }
        } else {
            None
        },
        None => None,
    }
}

/// The reference to an environment variable at `pos`: `${NAME}`,
/// `${NAME:-default}` with a default of at least one character, or `$NAME`.
pub open spec fn env_at(s: Seq<char>, pos: int) -> Option<(ValueModel, int)> {
    if braced_env_at(s, pos) is Some {
        braced_env_at(s, pos)
    } else if char_at(s, pos, '$') {
        match identifier_at(s, pos + 1) {
            Some((name, end)) => Some((ValueModel::Env(name, None), end)),
            None => None,
        }
    } else {
        None
    }
}

/// The reference in braces at `pos`.
pub open spec fn braced_env_at(s: Seq<char>, pos: int) -> Option<(ValueModel, int)> {
    if tag_at(s, pos, seq!['$', '{']) {
        match identifier_at(s, pos + 2) {
            Some((name, end)) => {
                let close = run_end(s, end + 2, |c: char| c != '}');
                if tag_at(s, end, seq![':', '-']) && end + 2 < close && char_at(s, close, '}') {
                    Some((ValueModel::Env(name, Some(s.subrange(end + 2, close))), close + 1))
                } else if char_at(s, end, '}') {
                    Some((ValueModel::Env(name, None), end + 1))
                } else {
                    None
                }
            },
            None => None,
        }
    } else {
        None
    }
}

/// The literal value at `pos`, if one begins there. The alternatives are
/// tried in this order and the first that matches is taken: the words
/// `None`, `true` and `false`; a floating-point literal; an integer literal;
/// a string literal; an enum variant; a reference to the environment.
pub open spec fn value_at(s: Seq<char>, pos: int) -> Option<(ValueModel, int)> {
    if tag_at(s, pos, seq!['N', 'o', 'n', 'e']) {
        Some((ValueModel::Optional(TypingModel::Any, None), pos + 4))
    } else if tag_at(s, pos, word_true()) {
        Some((ValueModel::Bool(true), pos + 4))
    } else if tag_at(s, pos, word_false()) {
        Some((ValueModel::Bool(false), pos + 5))
    } else if float_at(s, pos) is Some {
        float_at(s, pos)
    } else if number_at(s, pos) is Some {
        number_at(s, pos)
    } else if string_at(s, pos) is Some {
        string_at(s, pos)
    } else if variant_at(s, pos) is Some {
        variant_at(s, pos)
    } else {
        env_at(s, pos)
    }
}

/// The model of a parsed value with the position after it.
pub open spec fn parsed_value(r: Option<(Value, usize)>) -> Option<(ValueModel, int)> {
    match r {
        Some((v, end)) => Some((v@, end as int)),
        None => None,
    }
}

/// The model of an optional position.
pub open spec fn parsed_end(r: Option<usize>) -> Option<int> {
    match r {
        Some(end) => Some(end as int),
        None => None,
    }
}

/// Finds the end of the decimal numeral at `pos`.
#[verifier::loop_isolation(false)]
fn read_decimal(input: &Vec<char>, pos: usize) -> (r: Option<usize>)
    requires
        pos <= input.len(),
    ensures
        parsed_end(r) == decimal_end(input@, pos as int),
        r matches Some(end) ==> pos < end <= input.len(),
{
    if pos < input.len() && '0' <= input[pos] && input[pos] <= '9' {
        let ghost keep = |c: char| is_digit(c) || c == '_';
        let mut i: usize = pos + 1;
        while i < input.len() && (('0' <= input[i] && input[i] <= '9') || input[i] == '_')
            invariant
                pos < i <= input.len(),
                run_end(input@, pos + 1, keep) == run_end(input@, i as int, keep),
            decreases input.len() - i,
        {
            i += 1;
        }
        Some(i)
    } else {
        None
    }
}

/// The characters of `input` from `from` up to `to`, without the underscores.
#[verifier::loop_isolation(false)]
fn strip(input: &Vec<char>, from: usize, to: usize) -> (r: Vec<char>)
    requires
        from <= to <= input.len(),
    ensures
        r@ == stripped(input@.subrange(from as int, to as int)),
{
    let ghost s = input@.subrange(from as int, to as int);
    let mut out: Vec<char> = Vec::new();
    let mut i: usize = from;
    assert(out@ + strip_from(s, 0) =~= strip_from(s, 0));
    while i < to
        invariant
            from <= i <= to,
            stripped(s) == out@ + strip_from(s, i - from),
        decreases to - i,
    {
        let c = input[i];
        proof {
            assert(s[i - from] == c);
            let rest = strip_from(s, i - from + 1);
            assert(out@ + (seq![c] + rest) =~= out@.push(c) + rest);
        }
        if c != '_' {
            out.push(c);
        }
        i += 1;
    }
    assert(out@ + Seq::<char>::empty() =~= out@);
    out
}

/// Skips an optional minus sign at `pos`.
fn skip_sign(input: &Vec<char>, pos: usize) -> (end: usize)
    requires
        pos <= input.len(),
    ensures
        end == sign_end(input@, pos as int),
        pos <= end <= input.len(),
{
    if has_char(input, pos, '-') {
        pos + 1
    } else {
        pos
    }
}

/// Reads the floating-point literal at `pos`.
fn read_float(input: &Vec<char>, pos: usize) -> (r: Option<(Value, usize)>)
    requires
        pos <= input.len(),
    ensures
        parsed_value(r) == float_at(input@, pos as int),
        r matches Some((_, end)) ==> pos < end <= input.len(),
{
    let start = skip_sign(input, pos);
    let end = if has_char(input, start, '.') {
        read_decimal(input, start + 1)
    } else {
        match read_decimal(input, start) {
            Some(point) => {
                if has_char(input, point, '.') {
                    read_decimal(input, point + 1)
                } else {
                    None
                }
            },
            None => None,
        }
    };
    match end {
        Some(end) => {
            let digits = strip(input, pos, end);
            let text = text_of(&digits, 0, digits.len());
            assert(digits@.subrange(0, digits.len() as int) =~= digits@);
            Some((Value::Float(FloatTerm::Text(text)), end))
        },
        None => None,
    }
}

/// Reads the integer literal at `pos`.
fn read_number(input: &Vec<char>, pos: usize) -> (r: Option<(Value, usize)>)
    requires
        pos <= input.len(),
    ensures
        parsed_value(r) == number_at(input@, pos as int),
        r matches Some((_, end)) ==> pos < end <= input.len(),
{
    let start = skip_sign(input, pos);
    match read_decimal(input, start) {
        Some(end) => {
            let digits = strip(input, start, end);
            match decimal_of(&digits) {
                Some(n) => {
                    if start == pos {
                        Some((Value::Nat(n), end))
                    } else if n <= 0x7fff_ffff_ffff_ffff_ffff_ffff_ffff_ffffu128 {
                        Some((Value::Int(-(n as i128)), end))
                    } else if n == 0x8000_0000_0000_0000_0000_0000_0000_0000u128 {
                        Some((Value::Int(i128::MIN), end))
                    } else {
                        None
                    }
                },
                None => None,
            }
        },
        None => None,
    }
}

/// Decodes the character after a backslash.
fn unescape(c: char) -> (r: Option<char>)
    ensures
        r == unescaped(c),
{
    if c == '\\' {
        Some('\\')
    } else if c == '"' {
        Some('"')
    } else if c == '\'' {
        Some('\'')
    } else if c == 'n' {
        Some('\n')
    } else if c == 'r' {
        Some('\r')
    } else if c == 't' {
        Some('\t')
    } else {
        None
    }
}

/// Reads the string literal at `pos`.
#[verifier::loop_isolation(false)]
fn read_string(input: &Vec<char>, pos: usize) -> (r: Option<(Value, usize)>)
    requires
        pos <= input.len(),
    ensures
        parsed_value(r) == string_at(input@, pos as int),
        r matches Some((_, end)) ==> pos < end <= input.len(),
{
    if !has_char(input, pos, '"') {
        return None;
    }
    let ghost s = input@;
    let mut text = String::new();
    let mut i: usize = pos + 1;
    assert(text@ + (string_body_at(s, pos + 1)->0).0 =~= (string_body_at(s, pos + 1)->0).0);
    loop
        invariant
            pos < i <= input.len(),
            string_body_at(s, pos + 1) == match string_body_at(s, i as int) {
                Some((rest, end)) => Some((text@ + rest, end)),
                None => None,
            },
        decreases input.len() - i,
    {
        if i >= input.len() {
            return None;
        }
        let c = input[i];
        if c == '"' {
            assert(text@ + Seq::<char>::empty() =~= text@);
            return Some((Value::Str(text), i + 1));
        }
        let ghost before = text@;
        if c == '\\' {
            if i + 1 >= input.len() {
                return None;
            }
            match unescape(input[i + 1]) {
                Some(d) => {
                    push_char(&mut text, d);
                    proof {
                        if string_body_at(s, i + 2) is Some {
                            let rest = (string_body_at(s, i + 2)->0).0;
                            assert(before + (seq![d] + rest) =~= before.push(d) + rest);
                        }
                    }
                    i += 2;
                },
                None => {
                    return None;
                },
            }
        } else {
            push_char(&mut text, c);
            proof {
                if string_body_at(s, i + 1) is Some {
                    let rest = (string_body_at(s, i + 1)->0).0;
                    assert(before + (seq![c] + rest) =~= before.push(c) + rest);
                }
            }
            i += 1;
        }
    }
}

/// Reads the enum variant at `pos`.
fn read_variant(input: &Vec<char>, pos: usize) -> (r: Option<(Value, usize)>)
    requires
        pos <= input.len(),
    ensures
        parsed_value(r) == variant_at(input@, pos as int),
        r matches Some((_, end)) ==> pos < end <= input.len(),
{
    let colons = [':', ':'];
    assert(colons@ =~= seq![':', ':']);
    match read_identifier(input, pos) {
        Some((name, at)) => {
            if has_tag(input, at, &colons) {
                match read_identifier(input, at + 2) {
                    Some((variant, end)) => Some((Value::EnumVariant(name, variant), end)),
                    None => None,
                }
            } else {
                None
            }
        },
        None => None,
    }
}

/// Reads the reference to the environment in braces at `pos`.
#[verifier::loop_isolation(false)]
fn read_braced_env(input: &Vec<char>, pos: usize) -> (r: Option<(Value, usize)>)
    requires
        pos <= input.len(),
    ensures
        parsed_value(r) == braced_env_at(input@, pos as int),
        r matches Some((_, end)) ==> pos < end <= input.len(),
{
    let open = ['$', '{'];
    let dash = [':', '-'];
    assert(open@ =~= seq!['$', '{']);
    assert(dash@ =~= seq![':', '-']);
    if !has_tag(input, pos, &open) {
        return None;
    }
    match read_identifier(input, pos + 2) {
        Some((name, end)) => {
            if has_tag(input, end, &dash) {
                let ghost keep = |c: char| c != '}';
                let mut i: usize = end + 2;
                while i < input.len() && input[i] != '}'
                    invariant
                        end + 2 <= i <= input.len(),
                        run_end(input@, end + 2, keep) == run_end(input@, i as int, keep),
                    decreases input.len() - i,
                {
                    i += 1;
                }
                if end + 2 < i && has_char(input, i, '}') {
                    let default = text_of(input, end + 2, i);
                    return Some((Value::Env(name, Some(default)), i + 1));
                }
            }
            if has_char(input, end, '}') {
                Some((Value::Env(name, None), end + 1))
            } else {
                None
            }
        },
        None => None,
    }
}

/// Reads the reference to the environment at `pos`.
fn read_env(input: &Vec<char>, pos: usize) -> (r: Option<(Value, usize)>)
    requires
        pos <= input.len(),
    ensures
        parsed_value(r) == env_at(input@, pos as int),
        r matches Some((_, end)) ==> pos < end <= input.len(),
{
    if let Some(found) = read_braced_env(input, pos) {
        return Some(found);
    }
    if has_char(input, pos, '$') {
        match read_identifier(input, pos + 1) {
            Some((name, end)) => Some((Value::Env(name, None), end)),
            None => None,
        }
    } else {
        None
    }
}

/// Reads the literal value at `pos`.
pub(crate) fn read_value(input: &Vec<char>, pos: usize) -> (r: Option<(Value, usize)>)
    requires
        pos <= input.len(),
    ensures
        parsed_value(r) == value_at(input@, pos as int),
        r matches Some((_, end)) ==> pos < end <= input.len(),
{
    let w_none = ['N', 'o', 'n', 'e'];
    let w_true = ['t', 'r', 'u', 'e'];
    let w_false = ['f', 'a', 'l', 's', 'e'];
    assert(w_none@ =~= seq!['N', 'o', 'n', 'e']);
    assert(w_true@ =~= word_true());
    assert(w_false@ =~= word_false());
    if has_tag(input, pos, &w_none) {
        return Some((Value::Optional(Typing::Any, Box::new(None)), pos + 4));
    }
    if has_tag(input, pos, &w_true) {
        return Some((Value::Bool(true), pos + 4));
    }
    if has_tag(input, pos, &w_false) {
        return Some((Value::Bool(false), pos + 5));
    }
    if let Some(found) = read_float(input, pos) {
        return Some(found);
    }
    if let Some(found) = read_number(input, pos) {
        return Some(found);
    }
    if let Some(found) = read_string(input, pos) {
        return Some(found);
    }
    if let Some(found) = read_variant(input, pos) {
        return Some(found);
    }
    read_env(input, pos)
}

/// Reads the literal value that begins a text.
pub fn value(input: &str) -> (r: Result<(String, Value), ParseError>)
    ensures
        match r {
            Ok((rest, v)) => outcome(input@, value_at(input@, 0)) == Ok::<
                (Seq<char>, ValueModel),
                Seq<char>,
            >((rest@, v@)),
            Err(e) => outcome(input@, value_at(input@, 0)) == Err::<
                (Seq<char>, ValueModel),
                Seq<char>,
            >(e.rest@),
        },
{
    let chars = chars_of(input);
    match read_value(&chars, 0) {
        Some((v, end)) => {
            let rest = text_of(&chars, end, chars.len());
            assert(chars@.subrange(end as int, chars.len() as int) =~= input@.skip(end as int));
            Ok((rest, v))
        },
        None => {
            let rest = text_of(&chars, 0, chars.len());
            assert(chars@.subrange(0, chars.len() as int) =~= input@);
            Err(ParseError { rest })
        },
    }
}

} // verus!
