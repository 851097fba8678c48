//! Programs, and the copying of declarations.

use crate::parser::expr::{Expr, ExprModel};
use crate::parser::statement::{
    default_view, lemma_param_views, param_view, param_views, statement_views, text_views,
    Statement, StatementModel,
};
use crate::parser::typing::{typing_views, Typing};
use vstd::prelude::*;

verus! {

/// A program: declarations, then the expression whose value is the result.
#[derive(Debug, PartialEq)]
pub struct Cumin(pub Vec<Statement>, pub Expr);

/// The mathematical value of a [`Cumin`].
pub struct CuminModel {
    pub statements: Seq<StatementModel>,
    pub result: ExprModel,
}

impl Cumin {
    /// The mathematical value of this program.
    pub open spec fn model(&self) -> CuminModel
        decreases self,
    {
        CuminModel { statements: statement_views(self.0@), result: self.1.model() }
    }
}

impl View for Cumin {
    type V = CuminModel;

    open spec fn view(&self) -> CuminModel {
        self.model()
    }
}

/// Copies an optional expression.
pub fn clone_expr_option(e: &Option<Expr>) -> (r: Option<Expr>)
    ensures
        default_view(r) == default_view(*e),
    decreases e,
{
    match e {
        Some(inner) => Some(inner.clone()),
        None => None,
    }
}

/// Copies a list of fields or parameters.
#[verifier::loop_isolation(false)]
pub fn clone_params(xs: &Vec<(String, Typing, Option<Expr>)>) -> (r: Vec<
    (String, Typing, Option<Expr>),
>)
    ensures
        param_views(r@) == param_views(xs@),
    decreases xs,
{
    let mut out: Vec<(String, Typing, Option<Expr>)> = Vec::new();
    let mut i: usize = 0;
    while i < xs.len()
        invariant
            i <= xs.len(),
            out.len() == i,
            forall|j: int| 0 <= j < i ==> param_view(#[trigger] out[j]) == param_view(xs[j]),
        decreases xs.len() - i,
    {
        let default = clone_expr_option(&xs[i].2);
        out.push((xs[i].0.clone(), xs[i].1.clone(), default));
        i += 1;
    }
    proof {
        lemma_param_views(out@);
        lemma_param_views(xs@);
        assert forall|j: int| 0 <= j < xs.len() implies param_views(out@)[j] == param_views(
            xs@,
        )[j] by {
            assert(param_view(out[j]) == param_view(xs[j]));
        }
        assert(param_views(out@) =~= param_views(xs@));
    }
    out
}

/// Copies a list of texts.
#[verifier::loop_isolation(false)]
pub fn clone_texts(xs: &Vec<String>) -> (r: Vec<String>)
    ensures
        text_views(r@) == text_views(xs@),
{
    let mut out: Vec<String> = Vec::new();
    let mut i: usize = 0;
    while i < xs.len()
        invariant
            i <= xs.len(),
            out.len() == i,
            forall|j: int| 0 <= j < i ==> out[j]@ == xs[j]@,
        decreases xs.len() - i,
    {
        out.push(xs[i].clone());
        i += 1;
    }
    assert(text_views(out@) =~= text_views(xs@));
    out
}

/// Copies a list of types.
#[verifier::loop_isolation(false)]
pub fn clone_typings(xs: &Vec<Typing>) -> (r: Vec<Typing>)
    ensures
        typing_views(r@) == typing_views(xs@),
{
    let mut out: Vec<Typing> = Vec::new();
    let mut i: usize = 0;
    while i < xs.len()
        invariant
            i <= xs.len(),
            out.len() == i,
            forall|j: int| 0 <= j < i ==> out[j]@ == xs[j]@,
        decreases xs.len() - i,
    {
        out.push(xs[i].clone());
        i += 1;
    }
    assert(typing_views(out@) =~= typing_views(xs@));
    out
}

/// Copies a list of declarations.
#[verifier::loop_isolation(false)]
pub fn clone_statements(xs: &Vec<Statement>) -> (r: Vec<Statement>)
    ensures
        statement_views(r@) == statement_views(xs@),
    decreases xs,
{
    let mut out: Vec<Statement> = Vec::new();
    let mut i: usize = 0;
    while i < xs.len()
        invariant
            i <= xs.len(),
            out.len() == i,
            forall|j: int| 0 <= j < i ==> out[j]@ == xs[j]@,
        decreases xs.len() - i,
    {
        out.push(clone_statement(&xs[i]));
        i += 1;
    }
    assert(statement_views(out@) =~= statement_views(xs@));
    out
}

/// Copies a declaration.
pub fn clone_statement(s: &Statement) -> (r: Statement)
    ensures
        r@ == s@,
    decreases s,
{
    match s {
        Statement::Let(name, t, e) => Statement::Let(name.clone(), t.clone(), e.clone()),
        Statement::Struct(name, fields) => Statement::Struct(name.clone(), clone_params(fields)),
        Statement::Enum(name, variants) => Statement::Enum(name.clone(), clone_texts(variants)),
        Statement::Type(name, types) => Statement::Type(name.clone(), clone_typings(types)),
        Statement::Import(path) => Statement::Import(path.clone()),
        Statement::Fun(name, params, body) => Statement::Fun(
            name.clone(),
            clone_params(params),
            body.clone(),
        ),
    }
}

impl Clone for Cumin {
    fn clone(&self) -> (r: Cumin)
        ensures
            r@ == self@,
        decreases self,
    {
        Cumin(clone_statements(&self.0), self.1.clone())
    }
}

} // verus!
