//! Parsing of YARA rules, their compilation into a catalog of rules and
//! patterns, the evaluation of their conditions on scanned data, and the
//! host side of the sandboxed machine that conditions can run in.
//!
//! Every function of this crate is verified with Verus. Calls into other
//! crates stand behind small items whose contracts are stated and not proved;
//! each of them says so in its documentation.

pub mod compiler;
pub mod macros;
pub mod modules;
pub mod name_index;
pub mod parser;
pub mod scanner;
pub mod string_pool;
pub mod symbols;
pub mod types;
pub mod wasm;
