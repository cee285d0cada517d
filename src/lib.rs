//! A small expression language: a recursive-descent parser from source text
//! to a syntax tree, and a tree-walking evaluator over a stack of scopes.
//!
//! Reals are IEEE-754 single-precision numbers. The library holds them as
//! bit patterns and does no floating-point work itself: when evaluation needs
//! a decimal read or an operator applied, it halts with that task
//! ([`value::Halt::Pending`]), leaving the environment as it was. The caller
//! computes the result, adds it to the facts it passes in, and evaluates
//! again.

pub mod env;
pub mod error;
pub mod eval;
pub mod grammar;
pub mod laws;
pub mod parser;
pub mod scan;
pub mod semantics;
pub mod syntax;
pub mod value;

pub use env::{Env, NamelessFunction, Storeable};
pub use error::ParseError;
pub use parser::{Parse, ParseOutput};
pub use scan::{extract_float, extract_ident, extract_op, extract_string, extract_whitespace, tag};
pub use syntax::{
    Binding, BindingRef, Block, Expr, FuncCall, FuncDef, Identifier, Immutable, InnerExpr, LitBool,
    LitReal, LitStr, Literal, MathExpr, Negate, Op, Parsed, Reassignment, Stmt,
};
pub use value::{EvalError, Halt, Real, RealFact, RealTask, Val};
