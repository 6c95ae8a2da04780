//! The bitmap in the machine's memory that tells which rules matched.

use crate::wasm::layout::MATCHING_RULES_BITMAP_BASE;
use bitvec::order::Lsb0;
use bitvec::slice::BitSlice;
use vstd::prelude::*;

verus! {

/// `byte` with the bit `bit` set, where bit 0 is the least significant.
pub open spec fn with_bit(byte: u8, bit: nat) -> u8 {
    byte | (1u8 << (bit as u8))
}

/// The bit `bit` of `byte` is set.
pub open spec fn has_bit(byte: u8, bit: nat) -> bool {
    (byte >> (bit as u8)) & 1 == 1
}

/// The memory with the bit `index` set, counted from the first bit of the
/// byte at `base`.
pub open spec fn with_bit_at(mem: Seq<u8>, base: int, index: int) -> Seq<u8> {
    mem.update(base + index / 8, with_bit(mem[base + index / 8], (index % 8) as nat))
}

/// The bit `index`, counted from the first bit of the byte at `base`, is
/// set.
pub open spec fn bit_at(mem: Seq<u8>, base: int, index: int) -> bool {
    has_bit(mem[base + index / 8], (index % 8) as nat)
}

/// `BitSlice::<u8, Lsb0>::from_slice_mut` over the memory from `base` on,
/// and `BitSlice::set` of the bit `index` in it: the byte that holds the bit
/// gets the bit, counted from its least significant one, and nothing else
/// changes.
#[verifier::external_body]
pub(crate) fn set_bit(mem: &mut [u8], base: usize, index: usize)
    requires
        base <= old(mem)@.len(),
        index < (old(mem)@.len() - base) * 8,
        old(mem)@.len() - base <= (usize::MAX >> 6),
    ensures
        final(mem)@ == with_bit_at(old(mem)@, base as int, index as int),
{
    BitSlice::<u8, Lsb0>::from_slice_mut(&mut mem[base..]).set(index, true);
}

/// Setting a bit of a byte sets that bit and leaves the others as they
/// were.
pub proof fn lemma_with_bit(byte: u8, bit: nat, other: nat)
    requires
        bit < 8,
        other < 8,
    ensures
        has_bit(with_bit(byte, bit), bit),
        other != bit ==> has_bit(with_bit(byte, bit), other) == has_bit(byte, other),
{
    let b = bit as u8;
    let o = other as u8;
    assert(((byte | (1u8 << b)) >> b) & 1 == 1) by (bit_vector)
        requires
            b < 8,
    ;
    if other != bit {
        assert(((byte | (1u8 << b)) >> o) & 1 == (byte >> o) & 1) by (bit_vector)
            requires
                b < 8,
                o < 8,
                o != b,
        ;
    }
}

/// Setting the bit `index` of a bitmap sets that bit and leaves every
/// other bit as it was.
pub proof fn lemma_with_bit_at(mem: Seq<u8>, base: int, index: int, other: int)
    requires
        0 <= base,
        0 <= index,
        0 <= other,
        base + index / 8 < mem.len(),
        base + other / 8 < mem.len(),
    ensures
        bit_at(with_bit_at(mem, base, index), base, index),
        other != index ==> bit_at(with_bit_at(mem, base, index), base, other) == bit_at(
            mem,
            base,
            other,
        ),
{
    lemma_with_bit(mem[base + index / 8], (index % 8) as nat, (other % 8) as nat);
}

/// The bitmap of the rules has room for the bit of the rule `rule_id`.
pub open spec fn bitmap_holds(mem: Seq<u8>, rule_id: int) -> bool {
    &&& 0 <= rule_id
    &&& MATCHING_RULES_BITMAP_BASE + rule_id / 8 < mem.len()
    &&& mem.len() - MATCHING_RULES_BITMAP_BASE <= (usize::MAX >> 6)
}

/// Tells whether the bitmap of the rules has room for the bit of the rule
/// `rule_id`.
pub fn bitmap_can_hold(mem: &[u8], rule_id: i32) -> (b: bool)
    ensures
        b == bitmap_holds(mem@, rule_id as int),
{
    rule_id >= 0 && mem.len() > 2048 && (rule_id as usize) / 8 < mem.len() - 2048 && mem.len()
        - 2048 <= (usize::MAX >> 6)
}

/// Sets the bit of the rule `rule_id` in the bitmap of matching rules.
pub fn mark_rule(mem: &mut [u8], rule_id: i32)
    requires
        bitmap_holds(old(mem)@, rule_id as int),
    ensures
        final(mem)@ == with_bit_at(
            old(mem)@,
            MATCHING_RULES_BITMAP_BASE as int,
            rule_id as int,
        ),
{
    set_bit(mem, 2048, rule_id as usize);
}

/// Tells whether the bit of the rule `rule_id` is set in the bitmap of
/// matching rules.
pub fn rule_is_marked(mem: &[u8], rule_id: i32) -> (b: bool)
    requires
        bitmap_holds(mem@, rule_id as int),
    ensures
        b == bit_at(mem@, MATCHING_RULES_BITMAP_BASE as int, rule_id as int),
{
    let byte = mem[2048 + (rule_id as usize) / 8];
    let bit = ((rule_id as usize) % 8) as u8;
    (byte >> bit) & 1 == 1
}

} // verus!
