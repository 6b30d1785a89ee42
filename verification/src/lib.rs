//! A small prefix-notation scripting language: a lexer, a recursive-descent
//! parser and a tree-walking evaluator, each verified against a mathematical
//! model of what it computes.
//!
//! * [`lexer`] turns source text into tokens.
//! * [`parser`] turns tokens into a [`parser::ast::Program`].
//! * [`eval`] runs a program against a chained [`eval::Scope`].
//! * [`repl`] puts the three together for one source text.
//! * [`laws`] holds what is proved of all texts, programs and scopes.
//! * [`text`] builds, renders and reads text for the others.
//!
//! The contracts speak of views: a `String` is seen as its `Seq<char>`, a
//! `Vec` as a `Seq`, and every syntax tree as a ghost tree of the same shape.
//!
//! The library computes with integers, strings and booleans. It carries
//! floats as their decimal text and leaves arithmetic on them to the
//! caller's [`eval::FloatUnit`].

pub mod error;
pub mod eval;
pub mod laws;
pub mod lexer;
pub mod parser;
pub mod repl;
pub mod text;
