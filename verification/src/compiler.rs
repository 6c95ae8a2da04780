//! Compiles rule sets: gives every rule and pattern its number, resolves
//! imports, checks conditions and collects warnings.

pub mod ids;
pub mod errors;
pub mod context;
pub mod semcheck;
pub mod model;
pub mod rules;
pub mod search;
pub mod compile;
pub mod laws;
