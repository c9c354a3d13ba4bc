//! An interpreter core for a small explicitly typed polymorphic lambda
//! calculus with a unit type and type placeholders.
//!
//! A line of text goes through four passes. The parser reads it into the
//! surface syntax tree. The identifier pass gives every binder an identifier
//! of its own and finds the names that are bound nowhere. The type checker
//! synthesises a type and collects every typing error. The evaluator
//! reduces the term to its normal form under call-by-value.
//!
//! Every pass is stated against a mathematical model of what it computes,
//! and the models are related to one another: renaming yields closed terms
//! with distinct binders, and a step of evaluation keeps the type of such a
//! term.

pub mod atoms;
pub mod bruijn;
pub mod eval;
pub mod ident;
pub mod input;
pub mod intern;
pub mod multi_result;
pub mod named;
pub mod parser;
pub mod pprint;
pub mod prelude;
pub mod preservation;
pub mod repl;
pub mod syntax;
pub mod text;
pub mod typeck;
