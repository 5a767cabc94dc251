//! The abstract syntax tree that the evaluator consumes.
//!
//! The tree itself is produced by an external lexer and parser; this
//! module only defines its shape. A document is an ordered sequence of
//! statements; expressions are `Term`s. Numeric literals may carry a
//! unit, which the evaluator resolves to an absolute canvas length.

use vstd::prelude::*;
use std::rc::Rc;

verus! {

/// The unit attached to a numeric literal.
///
/// `W` and `H` are relative to the canvas width and height, `Pt` is an
/// absolute canvas pixel, and `Em` is relative to the `font_size`
/// binding in the environment that is active at evaluation time.
#[derive(Clone, Copy, Debug, PartialEq, Eq, Structural)]
pub enum Unit {
    W,
    H,
    Pt,
    Em,
}

/// A numeric literal: a scalar and an optional unit.
#[derive(Clone, Copy, Debug, PartialEq, Eq, Structural)]
pub struct Num(pub i64, pub Option<Unit>);

/// An identifier path of one or more segments, such as `a` or `a.b`.
#[derive(Debug)]
pub struct Idents(pub Vec<String>);

/// The operator of a binary expression.
#[derive(Clone, Copy, Debug, PartialEq, Eq, Structural)]
pub enum BinOpKind {
    Add,
    Sub,
    Mul,
}

/// A function definition: parameter names and a body block.
#[derive(Debug)]
pub struct FnDef {
    pub params: Vec<String>,
    pub body: Block,
}

/// An ordered sequence of statements.
#[derive(Debug)]
pub struct Block(pub Vec<Stmt>);

/// A statement of a document or of a block.
#[derive(Debug)]
pub enum Stmt {
    /// Bind an externally loaded scope; resolution is the driver's task.
    Import(String),
    /// Bind the value of the expression to the identifier.
    Assign(String, Term),
    /// Yield a value from the enclosing block expression.
    Return(Term),
    /// Evaluate a block for its side effects on the current environment.
    Block(Block),
    /// Place a drawable at an evaluated coordinate in the frame.
    PutAt(Term, Term),
}

/// An expression.
#[derive(Debug)]
pub enum Term {
    /// A quoted string literal, still carrying its quotes.
    Str(String),
    /// A numeric literal with an optional unit.
    Number(Num),
    /// A color literal of three numeric channels.
    Color(i64, i64, i64),
    /// An identifier path to look up in the environment.
    Idents(Idents),
    /// A coordinate of two components of equal kind.
    Coord(Box<Term>, Box<Term>),
    /// A binary operator applied to two operands.
    BinOp(BinOpKind, Box<Term>, Box<Term>),
    /// A call of a function value with argument expressions.
    FnCall(Box<Term>, Vec<Term>),
    /// A function definition capturing the defining environment.
    FnDef(Rc<FnDef>),
    /// A block expression, evaluated against a copy of the environment.
    Block(Block),
}

/// A whole document: the ordered top-level statements.
#[derive(Debug)]
pub struct Document(pub Vec<Stmt>);

} // verus!
