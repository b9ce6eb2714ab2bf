//! A parser for the pattern syntax of an indentation-sensitive functional
//! language: identifiers, tags applied to arguments, record destructuring,
//! literals, underscores and parenthesized patterns.
//!
//! Every parser is stated against a grammar function over the input bytes and
//! proved to compute exactly what that function yields.

pub mod arena;
pub mod text;
pub mod region;
pub mod parser;
pub mod ast;
pub mod blankspace;
pub mod keyword;
pub mod ident;
pub mod number_literal;
pub mod string_literal;
pub mod expr;
pub mod grammar;
pub mod pattern;
pub mod laws;
