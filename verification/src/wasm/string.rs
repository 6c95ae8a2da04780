//! Strings at run time.
//!
//! A string that a condition works with is a literal of the rules, a piece
//! of the scanned data, or a string that the host made during the scan. The
//! machine carries any of them as one 64-bit handle.

use crate::compiler::ids::LiteralId;
use vstd::prelude::*;

verus! {

/// A string at run time.
#[derive(Clone, Copy, Debug, PartialEq, Eq, Structural)]
pub enum RuntimeString {
    /// A literal of the rules, by its number in the pool of literals.
    Literal(LiteralId),
    /// A piece of the scanned data: `length` bytes from `offset` on.
    ScannedDataSlice { offset: usize, length: usize },
    /// A string made during the scan, by its number in the pool of the scan.
    Owned(LiteralId),
}

/// The largest offset of a slice that a handle can carry.
pub const MAX_SLICE_OFFSET: u64 = 0x1fff_ffff_ffff;

/// The largest length of a slice that a handle can carry.
pub const MAX_SLICE_LENGTH: u64 = 0xffff;

impl RuntimeString {
    /// The string can be carried as a handle: a slice must not start or
    /// reach too far.
    pub open spec fn fits_handle(self) -> bool {
        match self {
            RuntimeString::ScannedDataSlice { offset, length } => offset <= MAX_SLICE_OFFSET
                && length <= MAX_SLICE_LENGTH,
            _ => true,
        }
    }

    /// The handle of the string. The two lowest bits tell the kind of the
    /// string: 0 a literal, 1 a string of the scan, 2 a slice. The number of
    /// a literal or of a string of the scan stands above them; of a slice
    /// the length stands in the next 16 bits and the offset above it.
    pub open spec fn handle(self) -> int {
        match self {
            RuntimeString::Literal(id) => id.0 * 4,
            RuntimeString::Owned(id) => id.0 * 4 + 1,
            RuntimeString::ScannedDataSlice { offset, length } => offset * 0x4_0000 + length * 4
                + 2,
        }
    }

    /// The string that a handle stands for, if it stands for one.
    pub open spec fn of_handle(handle: i64) -> Option<RuntimeString> {
        if handle < 0 {
            None
        } else if handle % 4 == 0 {
            if handle / 4 <= u32::MAX {
                Some(RuntimeString::Literal(LiteralId((handle / 4) as u32)))
            } else {
                None
            }
        } else if handle % 4 == 1 {
            if handle / 4 <= u32::MAX {
                Some(RuntimeString::Owned(LiteralId((handle / 4) as u32)))
            } else {
                None
            }
        } else if handle % 4 == 2 && handle / 0x4_0000 <= usize::MAX {
            Some(
                RuntimeString::ScannedDataSlice {
                    offset: (handle / 0x4_0000) as usize,
                    length: ((handle / 4) % 0x1_0000) as usize,
                },
            )
        } else {
            None
        }
    }

    /// A string that fits a handle is what its handle stands for.
    pub proof fn lemma_handle_round_trip(self)
        requires
            self.fits_handle(),
        ensures
            0 <= self.handle() <= i64::MAX,
            Self::of_handle(self.handle() as i64) == Some(self),
    {
    }

    /// Tells whether the string can be carried as a handle.
    pub fn can_be_handle(&self) -> (b: bool)
        ensures
            b == self.fits_handle(),
    {
        match self {
            RuntimeString::ScannedDataSlice { offset, length } => *offset as u64
                <= MAX_SLICE_OFFSET && *length as u64 <= MAX_SLICE_LENGTH,
            _ => true,
        }
    }

    /// The handle under which the machine carries the string.
    pub fn as_wasm(&self) -> (handle: i64)
        requires
            self.fits_handle(),
        ensures
            handle == self.handle(),
    {
        match self {
            RuntimeString::Literal(id) => id.0 as i64 * 4,
            RuntimeString::Owned(id) => id.0 as i64 * 4 + 1,
            RuntimeString::ScannedDataSlice { offset, length } => *offset as i64 * 0x4_0000
                + *length as i64 * 4 + 2,
        }
    }

    /// The string that the machine carries under `handle`.
    pub fn from_wasm(handle: i64) -> (s: Option<RuntimeString>)
        ensures
            s == Self::of_handle(handle),
    {
        if handle < 0 {
            return None;
        }
        let kind = handle % 4;
        let rest = handle / 4;
        if kind == 0 {
            if rest <= u32::MAX as i64 {
                Some(RuntimeString::Literal(LiteralId(rest as u32)))
            } else {
                None
            }
        } else if kind == 1 {
            if rest <= u32::MAX as i64 {
                Some(RuntimeString::Owned(LiteralId(rest as u32)))
            } else {
                None
            }
        } else if kind == 2 && (handle / 0x4_0000) as u64 <= usize::MAX as u64 {
            Some(
                RuntimeString::ScannedDataSlice {
                    offset: (handle / 0x4_0000) as usize,
                    length: (rest % 0x1_0000) as usize,
                },
            )
        } else {
            None
        }
    }

    /// The bytes of the string: of a literal, what the pool of literals
    /// holds under its number; of a string of the scan, what the pool of the
    /// scan holds; of a slice, that piece of the scanned data. `None` where
    /// the number is in no pool or the slice reaches past the data.
    pub open spec fn bytes(
        self,
        literals: Seq<Seq<u8>>,
        owned: Seq<Seq<u8>>,
        data: Seq<u8>,
    ) -> Option<Seq<u8>> {
        match self {
            RuntimeString::Literal(id) => if id.0 < literals.len() {
                Some(literals[id.0 as int])
            } else {
                None
            },
            RuntimeString::Owned(id) => if id.0 < owned.len() {
                Some(owned[id.0 as int])
            } else {
                None
            },
            RuntimeString::ScannedDataSlice { offset, length } => if offset + length
                <= data.len() {
                Some(data.subrange(offset as int, offset + length))
            } else {
                None
            },
        }
    }
}

} // verus!
