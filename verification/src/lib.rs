//! A scanner, recursive-descent parser and tree-walking evaluator for the Lox
//! scripting language, with every function verified against a mathematical
//! model of the language.
//!
//! Numbers are IEEE 754 doubles. The library carries them as bit patterns and
//! leaves arithmetic, conversion from text and rendering to a [`host::Host`]
//! that the caller supplies; everything else is decided here.

pub mod text;
pub mod token;
pub mod tokenizer;
pub mod expression;
pub mod statement;
pub mod grammar;
pub mod parser;
pub mod number;
pub mod host;
pub mod value;
pub mod environment;
pub mod semantics;
pub mod interpreter;
pub mod display;
