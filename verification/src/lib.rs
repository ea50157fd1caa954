//! A small expression-oriented language in the Tiger family: a
//! recursive-descent parser, an abstract syntax tree, and a
//! tree-walking evaluator with a store-indirection scoping model.
//!
//! The crate is organised around spec-level models and proofs that the
//! executable code meets them exactly:
//!
//! - `ast` holds the executable syntax and value types, and for each a
//!   mathematical model (`ExprModel` and friends) reached through
//!   `View`: names as `Seq<char>`, numbers as `int`, lists as `Seq`.
//! - `grammar` is the grammar itself, written as total spec functions
//!   with parsing-expression semantics; `parse` is the executable
//!   parser, proved to accept a text if and only if the grammar does
//!   and to build a tree with exactly the grammar's model.  `print`
//!   maps a tree back to one canonical text.
//! - `semantics` is the big-step evaluation semantics over the models,
//!   with a step budget that bounds loop iterations and call depth, and
//!   the laws this semantics obeys: shadowing never disturbs other
//!   bindings, `&` and `|` short-circuit, `break` stops a loop where it
//!   happens, and an array's fill expression runs exactly once.
//! - `interpret` is the executable evaluator, proved to return exactly
//!   what `semantics::eval_expr` says for every expression, environment,
//!   store and budget.
pub mod ast;
pub mod grammar;
pub mod interpret;
pub mod parse;
pub mod print;
pub mod semantics;

pub use ast::ty_of_ast;
