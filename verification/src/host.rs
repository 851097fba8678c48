//! The boundary to the surroundings. Evaluation asks by a [`Request`]; the
//! caller gives an [`Answer`] and keeps it in the [`Host`].

use crate::numeric::{FloatModel, FloatTerm};
use vstd::prelude::*;

verus! {

/// How two floating-point numbers compare.
#[derive(Debug, Clone, Copy, PartialEq, Eq, Hash, Structural)]
pub enum FloatOrder {
    Less,
    Equal,
    Greater,
    Unordered,
}

/// Something that evaluation needs from its surroundings: the content of the
/// process environment, of a file, or the outcome of a floating-point
/// computation whose result is not itself a floating-point number.
#[derive(Debug, PartialEq, Eq, Hash)]
pub enum Request {
    /// The value of an environment variable.
    EnvVar(String),
    /// The file that an import path names, seen from an optional base directory.
    Module(String, Option<String>),
    /// How the first number compares with the second.
    FloatOrder(FloatTerm, FloatTerm),
    /// The number, cut down to an unsigned integer.
    FloatToNat(FloatTerm),
    /// The number, cut down to a signed integer.
    FloatToInt(FloatTerm),
    /// The canonical decimal text of the number.
    FloatText(FloatTerm),
    /// Whether a text denotes a floating-point number.
    FloatParse(String),
}

/// What the surroundings say to a [`Request`].
#[derive(Debug, PartialEq, Eq, Hash)]
pub enum Answer {
    /// The variable is unset, or no file was found.
    Absent,
    /// The variable's value, or a number's text.
    Text(String),
    /// The path under which a file was found, and its content.
    Module(String, String),
    /// The path under which a file was found that could not be read.
    Unreadable(String),
    Order(FloatOrder),
    Nat(u128),
    Int(i128),
    Flag(bool),
}

/// The answers gathered so far. Evaluation reads them and never asks twice:
/// where one is missing it stops with the request.
#[derive(Debug, PartialEq, Eq)]
pub struct Host {
    pub answers: Vec<(Request, Answer)>,
}

/// The mathematical value of a [`Request`].
pub enum RequestModel {
    EnvVar(Seq<char>),
    Module(Seq<char>, Option<Seq<char>>),
    FloatOrder(FloatModel, FloatModel),
    FloatToNat(FloatModel),
    FloatToInt(FloatModel),
    FloatText(FloatModel),
    FloatParse(Seq<char>),
}

/// The mathematical value of an [`Answer`].
pub enum AnswerModel {
    Absent,
    Text(Seq<char>),
    Module(Seq<char>, Seq<char>),
    Unreadable(Seq<char>),
    Order(FloatOrder),
    Nat(nat),
    Int(int),
    Flag(bool),
}

/// The model of an optional text.
pub open spec fn text_option_view(t: Option<String>) -> Option<Seq<char>> {
    match t {
        Some(t) => Some(t@),
        None => None,
    }
}

/// Copies an optional text.
pub fn clone_text_option(t: &Option<String>) -> (r: Option<String>)
    ensures
        text_option_view(r) == text_option_view(*t),
{
    match t {
        Some(t) => Some(t.clone()),
        None => None,
    }
}

impl View for Request {
    type V = RequestModel;

    open spec fn view(&self) -> RequestModel {
        match self {
            Request::EnvVar(name) => RequestModel::EnvVar(name@),
            Request::Module(path, cd) => RequestModel::Module(path@, text_option_view(*cd)),
            Request::FloatOrder(x, y) => RequestModel::FloatOrder(x@, y@),
            Request::FloatToNat(x) => RequestModel::FloatToNat(x@),
            Request::FloatToInt(x) => RequestModel::FloatToInt(x@),
            Request::FloatText(x) => RequestModel::FloatText(x@),
            Request::FloatParse(s) => RequestModel::FloatParse(s@),
        }
    }
}

impl View for Answer {
    type V = AnswerModel;

    open spec fn view(&self) -> AnswerModel {
        match self {
            Answer::Absent => AnswerModel::Absent,
            Answer::Text(s) => AnswerModel::Text(s@),
            Answer::Module(path, content) => AnswerModel::Module(path@, content@),
            Answer::Unreadable(path) => AnswerModel::Unreadable(path@),
            Answer::Order(o) => AnswerModel::Order(*o),
            Answer::Nat(n) => AnswerModel::Nat(*n as nat),
            Answer::Int(n) => AnswerModel::Int(*n as int),
            Answer::Flag(b) => AnswerModel::Flag(*b),
        }
    }
}

impl Clone for Request {
    fn clone(&self) -> (r: Request)
        ensures
            r@ == self@,
    {
        match self {
            Request::EnvVar(name) => Request::EnvVar(name.clone()),
            Request::Module(path, cd) => Request::Module(path.clone(), clone_text_option(cd)),
            Request::FloatOrder(x, y) => Request::FloatOrder(x.clone(), y.clone()),
            Request::FloatToNat(x) => Request::FloatToNat(x.clone()),
            Request::FloatToInt(x) => Request::FloatToInt(x.clone()),
            Request::FloatText(x) => Request::FloatText(x.clone()),
            Request::FloatParse(s) => Request::FloatParse(s.clone()),
        }
    }
}

impl Request {
    /// Structural equality: `true` exactly when both requests have the same model.
    pub fn equals(&self, other: &Request) -> (same: bool)
        ensures
            same == (self@ == other@),
    {
        match (self, other) {
            (Request::EnvVar(a), Request::EnvVar(b)) => *a == *b,
            (Request::Module(a, c), Request::Module(b, d)) => {
                let dirs = match (c, d) {
                    (Some(c), Some(d)) => *c == *d,
                    (None, None) => true,
                    _ => false,
                };
                *a == *b && dirs
            },
            (Request::FloatOrder(x, y), Request::FloatOrder(z, w)) => x.equals(z) && y.equals(w),
            (Request::FloatToNat(x), Request::FloatToNat(y)) => x.equals(y),
            (Request::FloatToInt(x), Request::FloatToInt(y)) => x.equals(y),
            (Request::FloatText(x), Request::FloatText(y)) => x.equals(y),
            (Request::FloatParse(a), Request::FloatParse(b)) => *a == *b,
            _ => false,
        }
    }
}

/// The answers as a sequence of models, in the order in which they were given.
pub open spec fn answer_views(answers: Seq<(Request, Answer)>) -> Seq<(RequestModel, AnswerModel)> {
    Seq::new(answers.len(), |i: int| (answers[i].0@, answers[i].1@))
}

/// The first answer to `request` from position `i` on.
pub open spec fn answer_from(
    answers: Seq<(RequestModel, AnswerModel)>,
    request: RequestModel,
    i: int,
) -> Option<AnswerModel>
    decreases answers.len() - i,
{
    if i < 0 || i >= answers.len() {
        None
    } else if answers[i].0 == request {
        Some(answers[i].1)
    } else {
        answer_from(answers, request, i + 1)
    }
}

/// The answer that the host holds to `request`: the first one given.
pub open spec fn answer_to(answers: Seq<(RequestModel, AnswerModel)>, request: RequestModel) -> Option<
    AnswerModel,
> {
    answer_from(answers, request, 0)
}

/// The model of an optional answer.
pub open spec fn answer_option_view(a: Option<&Answer>) -> Option<AnswerModel> {
    match a {
        Some(a) => Some(a@),
        None => None,
    }
}

impl View for Host {
    type V = Seq<(RequestModel, AnswerModel)>;

    open spec fn view(&self) -> Seq<(RequestModel, AnswerModel)> {
        answer_views(self.answers@)
    }
}

impl Host {
    /// A host that has answered nothing yet.
    pub fn new() -> (r: Host)
        ensures
            r@ == Seq::<(RequestModel, AnswerModel)>::empty(),
    {
        let r = Host { answers: Vec::new() };
        assert(r@ =~= Seq::empty());
        r
    }

    /// Records one more answer, after those already given.
    pub fn push(&mut self, request: Request, answer: Answer)
        ensures
            final(self)@ == old(self)@.push((request@, answer@)),
    {
        self.answers.push((request, answer));
        assert(self@ =~= old(self)@.push((request@, answer@)));
    }

    /// The answer held to `request`, if any.
    #[verifier::loop_isolation(false)]
    pub fn answer(&self, request: &Request) -> (r: Option<&Answer>)
        ensures
            answer_option_view(r) == answer_to(self@, request@),
    {
        let mut i: usize = 0;
        while i < self.answers.len()
            invariant
                i <= self.answers.len(),
                answer_to(self@, request@) == answer_from(self@, request@, i as int),
            decreases self.answers.len() - i,
        {
            if self.answers[i].0.equals(request) {
                return Some(&self.answers[i].1);
            }
            i += 1;
        }
        None
    }
}

} // verus!
