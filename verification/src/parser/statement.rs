//! Declarations.

use crate::parser::cumin::clone_statement;
use crate::parser::expr::{Expr, ExprModel};
use crate::parser::typing::{typing_views, Typing, TypingModel};
use vstd::prelude::*;

verus! {

/// A declaration of the language.
#[derive(Debug, PartialEq)]
pub enum Statement {
    Let(String, Typing, Expr),
    Struct(String, Vec<(String, Typing, Option<Expr>)>),
    Enum(String, Vec<String>),
    Type(String, Vec<Typing>),
    Import(String),
    Fun(String, Vec<(String, Typing, Option<Expr>)>, Expr),
}

/// The mathematical value of a field of a struct or of a parameter of a
/// function: its name, its type and the expression that gives its default.
pub struct ParamModel {
    pub name: Seq<char>,
    pub typ: TypingModel,
    pub default: DefaultModel,
}

/// The default of a field or parameter, where it has one.
pub enum DefaultModel {
    Absent,
    Given(ExprModel),
}

/// The mathematical value of a [`Statement`].
pub enum StatementModel {
    Let(Seq<char>, TypingModel, ExprModel),
    Struct(Seq<char>, Seq<ParamModel>),
    Enum(Seq<char>, Seq<Seq<char>>),
    Type(Seq<char>, Seq<TypingModel>),
    Import(Seq<char>),
    Fun(Seq<char>, Seq<ParamModel>, ExprModel),
}

impl Statement {
    /// The mathematical value of this declaration.
    pub open spec fn model(&self) -> StatementModel
        decreases self,
    {
        match self {
            Statement::Let(name, t, e) => StatementModel::Let(name@, t@, e.model()),
            Statement::Struct(name, fields) => StatementModel::Struct(name@, param_views(fields@)),
            Statement::Enum(name, variants) => StatementModel::Enum(name@, text_views(variants@)),
            Statement::Type(name, types) => StatementModel::Type(name@, typing_views(types@)),
            Statement::Import(path) => StatementModel::Import(path@),
            Statement::Fun(name, params, body) => StatementModel::Fun(
                name@,
                param_views(params@),
                body.model(),
            ),
        }
    }
}

impl View for Statement {
    type V = StatementModel;

    open spec fn view(&self) -> StatementModel {
        self.model()
    }
}

/// The model of an optional default.
pub open spec fn default_view(e: Option<Expr>) -> DefaultModel {
    match e {
        Some(e) => DefaultModel::Given(e@),
        None => DefaultModel::Absent,
    }
}

/// The model of a field or parameter.
pub open spec fn param_view(p: (String, Typing, Option<Expr>)) -> ParamModel {
    ParamModel { name: p.0@, typ: p.1@, default: default_view(p.2) }
}

/// The models of a sequence of fields or parameters, position by position
/// (see [`lemma_param_views`]).
#[verifier::opaque]
pub open spec fn param_views(xs: Seq<(String, Typing, Option<Expr>)>) -> Seq<ParamModel>
    decreases xs,
{
    Seq::new(
        xs.len(),
        |i: int|
            if 0 <= i < xs.len() {
                ParamModel {
                    name: xs[i].0@,
                    typ: xs[i].1@,
                    default: match xs[i].2 {
                        Some(e) => DefaultModel::Given(e.model()),
                        None => DefaultModel::Absent,
                    },
                }
            } else {
                ParamModel {
                    name: Seq::empty(),
                    typ: TypingModel::Any,
                    default: DefaultModel::Absent,
                }
            },
    )
}

/// The models of a sequence of fields or parameters are the models of its
/// elements, in order.
pub proof fn lemma_param_views(xs: Seq<(String, Typing, Option<Expr>)>)
    ensures
        param_views(xs).len() == xs.len(),
        forall|i: int| 0 <= i < xs.len() ==> (#[trigger] param_views(xs)[i]) == param_view(xs[i]),
{
    reveal(param_views);
}

/// The models of the elements of a sequence of fields or parameters, in order.
pub open spec fn param_seq(xs: Seq<(String, Typing, Option<Expr>)>) -> Seq<ParamModel> {
    Seq::new(xs.len(), |i: int| param_view(xs[i]))
}

/// The two ways of writing the models of fields or parameters agree.
pub proof fn lemma_param_seq(xs: Seq<(String, Typing, Option<Expr>)>)
    ensures
        param_views(xs) == param_seq(xs),
{
    lemma_param_views(xs);
    assert(param_views(xs) =~= param_seq(xs));
}

/// The models of a sequence of texts, position by position.
pub open spec fn text_views(xs: Seq<String>) -> Seq<Seq<char>> {
    Seq::new(xs.len(), |i: int| xs[i]@)
}

/// The models of a sequence of declarations, position by position.
pub open spec fn statement_views(xs: Seq<Statement>) -> Seq<StatementModel>
    decreases xs,
{
    Seq::new(
        xs.len(),
        |i: int|
            if 0 <= i < xs.len() {
                xs[i].model()
            } else {
                StatementModel::Import(Seq::empty())
            },
    )
}

impl Clone for Statement {
    fn clone(&self) -> (r: Statement)
        ensures
            r@ == self@,
    {
        clone_statement(self)
    }
}

} // verus!
