//! The layout of the machine's linear memory.
//!
//! ```text
//!   [0, 1024)        loop variables, 8 bytes each
//!   [1024, 2048)     indices of a field lookup, 4 bytes each
//!   [2048, ...)      one bit per rule: whether the rule matched
//!   after that       one bit per pattern: whether the pattern matched
//! ```

use vstd::prelude::*;

verus! {

/// Offset where the space for loop variables starts.
pub const VARS_STACK_START: i32 = 0;

/// Offset where the space for loop variables ends.
pub const VARS_STACK_END: i32 = 1024;

/// Offset where the space for the indices of a field lookup starts.
pub const LOOKUP_INDEXES_START: i32 = 1024;

/// Offset where the space for the indices of a field lookup ends.
pub const LOOKUP_INDEXES_END: i32 = 2048;

/// Offset of the bitmap that tells which rules matched. The bit with number
/// `n` belongs to the rule with that number.
pub const MATCHING_RULES_BITMAP_BASE: i32 = 2048;

/// Size in bytes of a loop variable.
pub const VAR_SIZE: i32 = 8;

/// How many loop variables the stack holds.
pub const MAX_VARS: i32 = 128;

/// The regions follow each other, and the stack of loop variables has room
/// for exactly `MAX_VARS` variables.
pub proof fn lemma_layout()
    ensures
        VARS_STACK_END == VARS_STACK_START + 1024,
        LOOKUP_INDEXES_START == VARS_STACK_END,
        LOOKUP_INDEXES_END == LOOKUP_INDEXES_START + 1024,
        MATCHING_RULES_BITMAP_BASE == LOOKUP_INDEXES_END,
        MAX_VARS * VAR_SIZE == VARS_STACK_END - VARS_STACK_START,
{
}

/// Offset of the bitmap that tells which patterns matched, for a rule set
/// of `num_rules` rules: the first byte after the bitmap of the rules.
pub open spec fn patterns_bitmap_base(num_rules: nat) -> int {
    MATCHING_RULES_BITMAP_BASE + (num_rules + 7) / 8
}

/// Computes the offset of the bitmap of matching patterns.
pub fn matching_patterns_bitmap_base(num_rules: usize) -> (base: usize)
    requires
        num_rules <= i32::MAX,
    ensures
        base == patterns_bitmap_base(num_rules as nat),
{
    2048 + (num_rules + 7) / 8
}

} // verus!
