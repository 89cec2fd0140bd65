//! The syntax tree the parser produces and the lowering consumes.
//!
//! Deliberately a tree and not a byte stream: constant folding, scope
//! resolution and control flow all need to look at a node more than once.
//!
//! The first tree is the integer expression subset that [`crate::emit`]
//! lowers; [`m1`] is the statement tree with functions and resolved names.
use vstd::prelude::*;

verus! {

/// A whole compilation unit: exactly one expression.
#[derive(Debug)]
pub struct Program {
    pub expr: Expr,
}

#[derive(Debug)]
pub enum Expr {
    /// A signed 32-bit integer. The parser has already applied any leading
    /// minus and checked the range.
    Int(i32),
    /// `$N`: the Nth argument of this call.
    Arg(u32),
    /// A bare name resolved against the host import table: `g` and `g()` both
    /// mean "call the zero-argument import `js.g`".
    Host(String),
    Unary(UnaryOp, Box<Expr>),
    Binary(BinaryOp, Box<Expr>, Box<Expr>),
}

#[derive(Debug, Clone, Copy, PartialEq, Eq, Structural)]
pub enum UnaryOp {
    Neg,
}

#[derive(Debug, Clone, Copy, PartialEq, Eq, Structural)]
pub enum BinaryOp {
    Add,
    Sub,
    Mul,
    Div,
    Rem,
}

} // verus!

pub mod m1;
