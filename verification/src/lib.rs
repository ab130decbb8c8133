//! A tree-walk interpreter for the Lox scripting language: a scanner, a
//! recursive-descent parser and an evaluator, each with a machine-checked
//! contract. Everything that needs floating point, a clock or a terminal is
//! left to the embedding program, which the evaluator asks for it one request
//! at a time.
//!
//! The pipeline, leaves first:
//!
//! - [`token`], [`util`]: the tokens and the character classes.
//! - [`scanner`]: source text to tokens. What the tokens of a source are is
//!   a function of its characters.
//! - [`grammar`], [`syntax`], [`parser`]: tokens to statements. The grammar
//!   is a function from a token sequence to the statements it spells and the
//!   errors it holds; the parser computes it.
//! - [`printing`], [`printer`], [`reparse`], [`parsed`]: printing a tree and
//!   reading it back gives the tree.
//! - [`object`], [`operators`], [`callable`], [`function`],
//!   [`builtin_functions`], [`environment`]: the values, what the operators
//!   make of them, and the scopes.
//! - [`machine`], [`interpreter`]: the evaluator, as an abstract machine
//!   that takes one step at a time.
//! - [`semantics`], [`driving`], [`simulation`], [`scoping`], [`fitting`]:
//!   what a program means, and that the machine does what it means.
//! - [`error`], [`lox`]: the diagnostics and the top of the pipeline.

pub mod bubble_closure;
pub mod builtin_functions;
pub mod callable;
pub mod driving;
pub mod environment;
pub mod error;
pub mod fitting;
pub mod function;
pub mod grammar;
pub mod interpreter;
pub mod lox;
pub mod machine;
pub mod object;
pub mod operators;
pub mod parsed;
pub mod parser;
pub mod printer;
pub mod printing;
pub mod reparse;
pub mod scanner;
pub mod scoping;
pub mod semantics;
pub mod simulation;
pub mod syntax;
pub mod token;
pub mod util;
