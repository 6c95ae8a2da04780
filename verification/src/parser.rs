//! Source spans, grammar rules, the tokens and the tree of a source, and
//! the errors that parsing reports.

pub mod ast;
pub mod errors;
pub mod expressions;
pub mod failure;
pub mod grammar;
pub mod hex;
pub mod lexer;
pub mod literals;
pub mod names;
pub mod pieces;
pub mod report;
pub mod source;
pub mod span;
