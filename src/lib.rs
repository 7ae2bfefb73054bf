//! Compiles a structured description of a regular expression into pattern
//! text, and prints a parsed pattern back as that description.
//!
//! The forward direction starts from a tree of [`node::Node`] values and
//! yields one pattern string ([`compile::compile`]); every construct is
//! checked as it is compiled, and the first problem is reported as a
//! [`error::CompileError`]. The reverse direction walks a parsed pattern
//! ([`ast::Ast`]) and prints description text, falling back to raw pattern
//! text for what the description cannot express ([`ast::to_dsl_text`]).

pub mod text;
pub mod escape;
pub mod engine;
pub mod error;
pub mod dsl;
pub mod words;
pub mod class;
pub mod node;
pub mod compile;
pub mod capture;
pub mod printer;
pub mod ast;
pub mod laws;
