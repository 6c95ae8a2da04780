//! The `pe` module: what it reads from the Authenticode signatures of a
//! portable executable.

pub mod authenticode;
pub mod digests;
pub mod names;
pub mod records;
