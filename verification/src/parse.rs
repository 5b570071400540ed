//! The shapes of surface syntax: tokens and abstract syntax trees.
use vstd::prelude::*;
use crate::ctypes::Natural;

verus! {

/// A token of the surface syntax.
pub enum Token {
    /// Induction on naturals over a family, at a universe level.
    NatInd(Box<AST>, Natural),
    /// Induction on equalities over a family, at a universe level.
    EqInd(Box<AST>, Natural),
    /// A numeral.
    Number(Natural),
    /// The type of naturals.
    Nat,
    /// An equality between two expressions.
    Equal(Box<AST>, Box<AST>),
    /// Reflexivity of an expression.
    Refl(Box<AST>),
    /// A variable.
    Variable(Variable),
}

/// A variable of the surface syntax, by its name.
pub struct Variable(String);

/// An abstract syntax tree of the surface syntax.
pub enum AST {
    /// A single token.
    Token(Token),
    /// A function: its argument, the argument's type, the body.
    Lambda { arg: Variable, ty: Box<AST>, body: Box<AST> },
    /// A function applied to an argument.
    Application { func: Box<AST>, arg: Box<AST> },
    /// A dependent function type: its argument, the argument's type, the body.
    Forall { arg: Variable, ty: Box<AST>, body: Box<AST> },
}

} // verus!
