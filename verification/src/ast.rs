//! The part of a Python syntax tree that the analysis reads.
//!
//! A parser hands its tree over in this form. Expressions and statements
//! that the analysis does not look into are `Other`.

use vstd::prelude::*;

verus! {

/// A number literal. The texts are those of the literal's value, not of the
/// source.
#[derive(Debug, PartialEq)]
pub enum Number {
    /// `value` is `None` for an integer that does not fit 64 bits.
    Int { value: Option<i64>, text: String },
    /// `bits` is the bit pattern of the double-precision value; `json` is its
    /// JSON text, `None` for a value that JSON cannot hold.
    Float { bits: u64, text: String, json: Option<String> },
    /// The two parts of a complex literal, as text.
    Complex { re: String, im: String },
}

/// An expression.
#[derive(Debug, PartialEq)]
#[allow(inconsistent_fields)]
pub enum Expr {
    Name { id: String },
    Attribute { value: Box<Expr>, attr: String },
    Call { func: Box<Expr>, args: Vec<Expr>, keywords: Vec<Keyword> },
    Subscript { value: Box<Expr>, slice: Box<Expr> },
    Tuple { elts: Vec<Expr> },
    List { elts: Vec<Expr> },
    BinOp { left: Box<Expr>, right: Box<Expr> },
    StringLiteral { value: String },
    NumberLiteral { value: Number },
    BooleanLiteral { value: bool },
    NoneLiteral,
    Other,
}

/// A keyword argument of a call; `arg` is `None` for `**kwargs`.
#[derive(Debug, PartialEq)]
pub struct Keyword {
    pub arg: Option<String>,
    pub value: Expr,
}

/// One imported name with its optional `as` name.
#[derive(Debug, PartialEq)]
pub struct Alias {
    pub name: String,
    pub asname: Option<String>,
}

/// A parameter that may have a default.
#[derive(Debug, PartialEq)]
pub struct Parameter {
    pub name: String,
    pub default: Option<Expr>,
}

/// A function or method definition. `line` is the number of its first line.
#[derive(Debug, PartialEq)]
pub struct FunctionDef {
    pub name: String,
    pub decorator_list: Vec<Expr>,
    /// The positional-or-keyword parameters.
    pub args: Vec<Parameter>,
    /// The keyword-only parameters.
    pub kwonlyargs: Vec<Parameter>,
    pub returns: Option<Expr>,
    pub body: Vec<Stmt>,
    pub line: usize,
}

/// A statement.
#[derive(Debug, PartialEq)]
#[allow(inconsistent_fields)]
pub enum Stmt {
    Import { names: Vec<Alias> },
    /// `level` counts the leading dots of a relative import.
    ImportFrom { module: Option<String>, names: Vec<Alias>, level: u32 },
    Assign { targets: Vec<Expr>, value: Expr, line: usize },
    FunctionDef { def: FunctionDef },
    ClassDef { name: String, body: Vec<Stmt> },
    Expr { value: Expr },
    Return { value: Option<Expr> },
    /// `elif_else_clauses` holds the body of each `elif` and `else` branch.
    If { test: Expr, body: Vec<Stmt>, elif_else_clauses: Vec<Vec<Stmt>> },
    For { iter: Expr, body: Vec<Stmt> },
    Other,
}

} // verus!
