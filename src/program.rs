//! Resolved programs: expressions and statements whose local variables are
//! already bound to slots.
use vstd::prelude::*;
use crate::builtins::Builtin;
use crate::value::{Segment, Value};

verus! {

/// An expression. Evaluating one never changes the record or the slots.
pub enum Expr {
    /// A constant value.
    Literal(Value),
    /// The value at a path of the record (`.a.b`; `.` for the empty path).
    Target(Vec<Segment>),
    /// The value at a path inside a local variable (`x`, `x.a`).
    Variable(usize, Vec<Segment>),
    /// A call of a built-in on one argument.
    Call(Builtin, Box<Expr>),
    /// Deep equality of two values (`a == b`).
    Equal(Box<Expr>, Box<Expr>),
    /// The recovery form (`a ?? b`): the value of `a`, or that of `b` where
    /// `a` fails.
    Coalesce(Box<Expr>, Box<Expr>),
}

/// A statement.
pub enum Stmt {
    /// Stores a value at a path of the record (`.a.b = e`).
    AssignTarget(Vec<Segment>, Expr),
    /// Stores a value at a path inside a local variable (`x = e`, `x.a = e`).
    AssignVariable(usize, Vec<Segment>, Expr),
    /// Runs the first block when the condition is `true`, else the second.
    If(Expr, Vec<Stmt>, Vec<Stmt>),
    /// Evaluates an expression for its value.
    Expr(Expr),
}

/// A compiled program: its statements and the number of slots its local
/// variables use.
pub struct Program {
    pub statements: Vec<Stmt>,
    pub slot_count: usize,
}

} // verus!
