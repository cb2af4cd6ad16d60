//! Execution engine for a small dynamically-typed scripting language:
//! a static scope resolver followed by a tree-walking evaluator.
//!
//! The evaluator is verified against a step-indexed big-step semantics
//! (`semantics`); the resolver against a static mirror of the same
//! scoping rules (`resolver`).

pub mod token;
pub mod expression;
pub mod statement;
pub mod numfmt;
pub mod semantics;
pub mod astdup;
pub mod scope;
pub mod function;
pub mod interpreter;
pub mod resolver;
pub mod laws;
