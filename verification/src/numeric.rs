//! Floating-point numbers as exact terms.

use vstd::prelude::*;

verus! {

/// A binary operation on floating-point numbers.
#[derive(Debug, Clone, Copy, PartialEq, Eq, Hash, Structural)]
pub enum FloatOp {
    Add,
    Sub,
    Mul,
    Div,
    Rem,
    Pow,
}

/// A floating-point number, held as the exact term that denotes it.
///
/// The library decides which operations apply and in which order; it never
/// rounds. Whoever needs the binary number evaluates the term: `Text` by
/// reading the decimal text, `Nat` and `Int` by converting the integer, and
/// the other variants by applying the operation to the evaluated operands.
#[derive(Debug, PartialEq, Eq, Hash)]
pub enum FloatTerm {
    Text(String),
    Nat(u128),
    Int(i128),
    Neg(Box<FloatTerm>),
    Binary(FloatOp, Box<FloatTerm>, Box<FloatTerm>),
    PowNat(Box<FloatTerm>, u128),
    PowInt(Box<FloatTerm>, i128),
}

/// The mathematical value of a [`FloatTerm`].
pub enum FloatModel {
    Text(Seq<char>),
    Nat(nat),
    Int(int),
    Neg(Box<FloatModel>),
    Binary(FloatOp, Box<FloatModel>, Box<FloatModel>),
    PowNat(Box<FloatModel>, nat),
    PowInt(Box<FloatModel>, int),
}

impl FloatTerm {
    /// The mathematical value of this term.
    pub open spec fn model(&self) -> FloatModel
        decreases self,
    {
        match self {
            FloatTerm::Text(s) => FloatModel::Text(s@),
            FloatTerm::Nat(n) => FloatModel::Nat(*n as nat),
            FloatTerm::Int(n) => FloatModel::Int(*n as int),
            FloatTerm::Neg(x) => FloatModel::Neg(Box::new(x.model())),
            FloatTerm::Binary(op, x, y) => FloatModel::Binary(
                *op,
                Box::new(x.model()),
                Box::new(y.model()),
            ),
            FloatTerm::PowNat(x, n) => FloatModel::PowNat(Box::new(x.model()), *n as nat),
            FloatTerm::PowInt(x, n) => FloatModel::PowInt(Box::new(x.model()), *n as int),
        }
    }

    /// Structural equality: `true` exactly when both terms have the same model.
    pub fn equals(&self, other: &FloatTerm) -> (same: bool)
        ensures
            same == (self@ == other@),
        decreases self,
    {
        match (self, other) {
            (FloatTerm::Text(s), FloatTerm::Text(t)) => *s == *t,
            (FloatTerm::Nat(m), FloatTerm::Nat(n)) => *m == *n,
            (FloatTerm::Int(m), FloatTerm::Int(n)) => *m == *n,
            (FloatTerm::Neg(x), FloatTerm::Neg(y)) => (**x).equals(&**y),
            (FloatTerm::Binary(o, x, y), FloatTerm::Binary(p, z, w)) => {
                *o == *p && (**x).equals(&**z) && (**y).equals(&**w)
            },
            (FloatTerm::PowNat(x, m), FloatTerm::PowNat(y, n)) => *m == *n && (**x).equals(&**y),
            (FloatTerm::PowInt(x, m), FloatTerm::PowInt(y, n)) => *m == *n && (**x).equals(&**y),
            _ => false,
        }
    }
}

impl View for FloatTerm {
    type V = FloatModel;

    open spec fn view(&self) -> FloatModel {
        self.model()
    }
}

impl Clone for FloatTerm {
    fn clone(&self) -> (r: FloatTerm)
        ensures
            r@ == self@,
        decreases self,
    {
        match self {
            FloatTerm::Text(s) => FloatTerm::Text(s.clone()),
            FloatTerm::Nat(n) => FloatTerm::Nat(*n),
            FloatTerm::Int(n) => FloatTerm::Int(*n),
            FloatTerm::Neg(x) => FloatTerm::Neg(Box::new((**x).clone())),
            FloatTerm::Binary(op, x, y) => FloatTerm::Binary(
                *op,
                Box::new((**x).clone()),
                Box::new((**y).clone()),
            ),
            FloatTerm::PowNat(x, n) => FloatTerm::PowNat(Box::new((**x).clone()), *n),
            FloatTerm::PowInt(x, n) => FloatTerm::PowInt(Box::new((**x).clone()), *n),
        }
    }
}

} // verus!
