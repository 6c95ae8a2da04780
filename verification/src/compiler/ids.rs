//! The numbers by which compiled rules name identifiers, literals, patterns
//! and rules.

use vstd::prelude::*;
use vstd::std_specs::convert::FromSpecImpl;

verus! {

/// Number of an identifier in the pool of identifiers.
#[derive(Clone, Copy, Debug, PartialEq, Eq, Structural)]
pub struct IdentId(pub u32);

/// Number of a literal string in the pool of literals.
#[derive(Clone, Copy, Debug, PartialEq, Eq, Structural)]
pub struct LiteralId(pub u32);

/// Number of a pattern: its index among the patterns of all rules.
pub type PatternId = i32;

/// Number of a rule: its index among the compiled rules.
pub type RuleId = i32;

impl From<u32> for IdentId {
    fn from(v: u32) -> (id: Self) {
        Self(v)
    }
}

impl FromSpecImpl<u32> for IdentId {
    open spec fn obeys_from_spec() -> bool {
        true
    }

    open spec fn from_spec(v: u32) -> Self {
        IdentId(v)
    }
}

impl From<IdentId> for u32 {
    fn from(v: IdentId) -> (n: Self) {
        v.0
    }
}

impl FromSpecImpl<IdentId> for u32 {
    open spec fn obeys_from_spec() -> bool {
        true
    }

    open spec fn from_spec(v: IdentId) -> Self {
        v.0
    }
}

impl From<i32> for LiteralId {
    fn from(v: i32) -> (id: Self) {
        Self(#[verifier::truncate] (v as u32))
    }
}

impl FromSpecImpl<i32> for LiteralId {
    open spec fn obeys_from_spec() -> bool {
        true
    }

    open spec fn from_spec(v: i32) -> Self {
        LiteralId(v as u32)
    }
}

impl From<u32> for LiteralId {
    fn from(v: u32) -> (id: Self) {
        Self(v)
    }
}

impl FromSpecImpl<u32> for LiteralId {
    open spec fn obeys_from_spec() -> bool {
        true
    }

    open spec fn from_spec(v: u32) -> Self {
        LiteralId(v)
    }
}

impl From<LiteralId> for u32 {
    fn from(v: LiteralId) -> (n: Self) {
        v.0
    }
}

impl FromSpecImpl<LiteralId> for u32 {
    open spec fn obeys_from_spec() -> bool {
        true
    }

    open spec fn from_spec(v: LiteralId) -> Self {
        v.0
    }
}

impl From<LiteralId> for i64 {
    fn from(v: LiteralId) -> (n: Self) {
        v.0 as i64
    }
}

impl FromSpecImpl<LiteralId> for i64 {
    open spec fn obeys_from_spec() -> bool {
        true
    }

    open spec fn from_spec(v: LiteralId) -> Self {
        v.0 as i64
    }
}

impl From<LiteralId> for u64 {
    fn from(v: LiteralId) -> (n: Self) {
        v.0 as u64
    }
}

impl FromSpecImpl<LiteralId> for u64 {
    open spec fn obeys_from_spec() -> bool {
        true
    }

    open spec fn from_spec(v: LiteralId) -> Self {
        v.0 as u64
    }
}

} // verus!
