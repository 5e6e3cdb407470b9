//! An infix arithmetic-expression library: a lexer that turns text into
//! tokens, a precedence-climbing parser that builds an abstract syntax tree,
//! and an evaluator that resolves the tree against a variable scope and a
//! table of built-in functions.
//!
//! All numeric work is exact and symbolic here: numbers travel as decimal
//! literals, and evaluation produces a fully resolved arithmetic tree (a
//! [`eval::Computation`]) in which every variable has been substituted and
//! every error case has been decided.  Carrying out the floating-point
//! arithmetic itself is left to the caller, who can walk that tree with
//! ordinary `f64` operations.

pub mod tokens;
pub mod error;
pub mod chars;
pub mod ast;
pub mod lexer;
pub mod parser;
pub mod functions;
pub mod eval;
pub mod laws;

pub use ast::Args;
pub use ast::Node;
pub use ast::NumericLiteral;
pub use ast::Root;
pub use ast::Scope;
pub use ast::Variable;
pub use error::Error;
pub use eval::Computation;
pub use eval::Evaluate;
pub use eval::ResolvedFunction;
pub use eval::eval_operator;
pub use eval::resolve_fn;
pub use functions::BuiltinFunction;
pub use lexer::tokenize;
pub use parser::parse;
pub use tokens::Operator;
pub use tokens::Token;
pub use tokens::TokenList;
