//! Integers in the scanned data: reading them at an offset, in either
//! byte order.

use crate::wasm::values::MaybeUndef;
use vstd::prelude::*;

verus! {

/// The number that `bytes` spell with the most significant byte first.
pub open spec fn be_value(bytes: Seq<u8>) -> nat
    decreases bytes.len(),
{
    if bytes.len() == 0 {
        0
    } else {
        be_value(bytes.drop_last()) * 256 + bytes.last() as nat
    }
}

/// The number that `bytes` spell with the least significant byte first.
pub open spec fn le_value(bytes: Seq<u8>) -> nat {
    be_value(bytes.reverse())
}

/// 256 to the power `n`.
pub open spec fn pow256(n: nat) -> nat
    decreases n,
{
    if n == 0 {
        1
    } else {
        256 * pow256((n - 1) as nat)
    }
}

/// A number spelt with `n` bytes is less than 256 to the power `n`.
pub proof fn lemma_be_value_bound(bytes: Seq<u8>)
    ensures
        be_value(bytes) < pow256(bytes.len()),
    decreases bytes.len(),
{
    if bytes.len() > 0 {
        lemma_be_value_bound(bytes.drop_last());
    }
}

/// Eight bytes spell a number that fits in 64 bits.
pub proof fn lemma_pow256()
    ensures
        pow256(1) == 0x100,
        pow256(2) == 0x1_0000,
        pow256(4) == 0x1_0000_0000,
        pow256(8) == 0x1_0000_0000_0000_0000,
{
    reveal_with_fuel(pow256, 9);
}

/// The bytes that an integer of `size` bytes at `offset` occupies, where
/// they all lie inside `data`.
pub open spec fn bytes_at(data: Seq<u8>, offset: int, size: int) -> Option<Seq<u8>> {
    if 0 <= offset && offset + size <= data.len() {
        Some(data.subrange(offset, offset + size))
    } else {
        None
    }
}

/// What reading an unsigned integer of `size` bytes at `offset` gives: the
/// number that the bytes spell, as a 64-bit signed integer, or nothing
/// where the offset is negative or the integer would reach past the end of
/// the data.
pub open spec fn uint_at(data: Seq<u8>, offset: int, size: int, big_endian: bool) -> Option<i64> {
    match bytes_at(data, offset, size) {
        Some(bytes) => Some(
            (if big_endian {
                be_value(bytes)
            } else {
                le_value(bytes)
            }) as u64 as i64,
        ),
        None => None,
    }
}

/// Reads an unsigned integer of `size` bytes at `offset` in `data`.
pub fn read_uint(data: &[u8], offset: i64, size: usize, big_endian: bool) -> (r: MaybeUndef<i64>)
    requires
        1 <= size <= 8,
    ensures
        match r {
            MaybeUndef::Defined(v) => uint_at(data@, offset as int, size as int, big_endian)
                == Some(v),
            MaybeUndef::Undef => uint_at(data@, offset as int, size as int, big_endian) is None,
        },
{
    if offset < 0 || data.len() < size || offset as u64 > (data.len() - size) as u64 {
        return MaybeUndef::Undef;
    }
    let start = offset as usize;
    let len = data.len();
    let ghost bytes = data@.subrange(start as int, start + size);
    let ghost spelt = if big_endian {
        bytes
    } else {
        bytes.reverse()
    };
    let mut value: u64 = 0;
    let mut i: usize = 0;
    while i < size
        invariant
            i <= size <= 8,
            len == data@.len(),
            start + size <= len,
            bytes == data@.subrange(start as int, start + size),
            spelt == if big_endian {
                bytes
            } else {
                bytes.reverse()
            },
            value == be_value(spelt.take(i as int)),
        decreases size - i,
    {
        let byte = if big_endian {
            data[start + i]
        } else {
            data[start + (size - 1 - i)]
        };
        proof {
            let next = spelt.take(i + 1);
            assert(next.drop_last() =~= spelt.take(i as int));
            assert(next.last() == byte);
            lemma_be_value_bound(spelt.take(i as int));
            lemma_be_value_bound(next);
            lemma_pow256_monotonic((i + 1) as nat, 8);
            lemma_pow256();
        }
        value = value * 256 + byte as u64;
        i += 1;
    }
    proof {
        assert(spelt.take(size as int) =~= spelt);
    }
    MaybeUndef::Defined(#[verifier::truncate] (value as i64))
}

/// The powers of 256 grow.
pub proof fn lemma_pow256_monotonic(a: nat, b: nat)
    requires
        a <= b,
    ensures
        pow256(a) <= pow256(b),
    decreases b,
{
    if a < b {
        lemma_pow256_monotonic(a, (b - 1) as nat);
    }
}

/// `uint8(offset)`: the byte at `offset`.
pub fn uint8(data: &[u8], offset: i64) -> (r: MaybeUndef<i64>)
    ensures
        match r {
            MaybeUndef::Defined(v) => uint_at(data@, offset as int, 1, false) == Some(v),
            MaybeUndef::Undef => uint_at(data@, offset as int, 1, false) is None,
        },
{
    read_uint(data, offset, 1, false)
}

/// `uint16(offset)`: the 16-bit integer at `offset`, least significant byte
/// first.
pub fn uint16(data: &[u8], offset: i64) -> (r: MaybeUndef<i64>)
    ensures
        match r {
            MaybeUndef::Defined(v) => uint_at(data@, offset as int, 2, false) == Some(v),
            MaybeUndef::Undef => uint_at(data@, offset as int, 2, false) is None,
        },
{
    read_uint(data, offset, 2, false)
}

/// `uint32(offset)`: the 32-bit integer at `offset`, least significant byte
/// first.
pub fn uint32(data: &[u8], offset: i64) -> (r: MaybeUndef<i64>)
    ensures
        match r {
            MaybeUndef::Defined(v) => uint_at(data@, offset as int, 4, false) == Some(v),
            MaybeUndef::Undef => uint_at(data@, offset as int, 4, false) is None,
        },
{
    read_uint(data, offset, 4, false)
}

/// `uint64(offset)`: the 64-bit integer at `offset`, least significant byte
/// first.
pub fn uint64(data: &[u8], offset: i64) -> (r: MaybeUndef<i64>)
    ensures
        match r {
            MaybeUndef::Defined(v) => uint_at(data@, offset as int, 8, false) == Some(v),
            MaybeUndef::Undef => uint_at(data@, offset as int, 8, false) is None,
        },
{
    read_uint(data, offset, 8, false)
}

/// `uint8be(offset)`: the byte at `offset`.
pub fn uint8be(data: &[u8], offset: i64) -> (r: MaybeUndef<i64>)
    ensures
        match r {
            MaybeUndef::Defined(v) => uint_at(data@, offset as int, 1, true) == Some(v),
            MaybeUndef::Undef => uint_at(data@, offset as int, 1, true) is None,
        },
{
    read_uint(data, offset, 1, true)
}

/// `uint16be(offset)`: the 16-bit integer at `offset`, most significant
/// byte first.
pub fn uint16be(data: &[u8], offset: i64) -> (r: MaybeUndef<i64>)
    ensures
        match r {
            MaybeUndef::Defined(v) => uint_at(data@, offset as int, 2, true) == Some(v),
            MaybeUndef::Undef => uint_at(data@, offset as int, 2, true) is None,
        },
{
    read_uint(data, offset, 2, true)
}

/// `uint32be(offset)`: the 32-bit integer at `offset`, most significant
/// byte first.
pub fn uint32be(data: &[u8], offset: i64) -> (r: MaybeUndef<i64>)
    ensures
        match r {
            MaybeUndef::Defined(v) => uint_at(data@, offset as int, 4, true) == Some(v),
            MaybeUndef::Undef => uint_at(data@, offset as int, 4, true) is None,
        },
{
    read_uint(data, offset, 4, true)
}

/// `uint64be(offset)`: the 64-bit integer at `offset`, most significant
/// byte first.
pub fn uint64be(data: &[u8], offset: i64) -> (r: MaybeUndef<i64>)
    ensures
        match r {
            MaybeUndef::Defined(v) => uint_at(data@, offset as int, 8, true) == Some(v),
            MaybeUndef::Undef => uint_at(data@, offset as int, 8, true) is None,
        },
{
    read_uint(data, offset, 8, true)
}

/// Reading is undefined exactly where the offset is negative or the
/// integer would reach past the end of the data.
pub proof fn lemma_undefined_reads(data: Seq<u8>, offset: int, size: int, big_endian: bool)
    ensures
        uint_at(data, offset, size, big_endian) is None <==> (offset < 0 || offset + size
            > data.len()),
{
}

} // verus!
