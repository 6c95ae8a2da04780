//! How values cross the boundary between the machine and the host.
//!
//! The machine hands every value over as one 64-bit cell. A `RawValue` is
//! such a cell. A function of the host returns its result as one or two
//! cells: the value, and for a function that can fail to have a value, a
//! flag that says whether the value is undefined.

use smallvec::SmallVec;
use vstd::prelude::*;

verus! {

/// One cell of the machine. A 32-bit value occupies the low half of the
/// cell and leaves the high half zero; a float is held as its bits.
#[derive(Clone, Copy, Debug, PartialEq, Eq, Structural)]
pub struct RawValue {
    pub bits: u64,
}

/// The low 32 bits of a cell, as a signed number.
pub open spec fn low_i32(bits: u64) -> i32 {
    (bits & 0xffff_ffff) as u32 as i32
}

impl RawValue {
    /// A cell that holds a 32-bit integer.
    pub fn i32(i: i32) -> (v: RawValue)
        ensures
            v.bits == i as u32 as u64,
    {
        RawValue { bits: #[verifier::truncate] (i as u32) as u64 }
    }

    /// A cell that holds a 64-bit integer.
    pub fn i64(i: i64) -> (v: RawValue)
        ensures
            v.bits == i as u64,
    {
        RawValue { bits: #[verifier::truncate] (i as u64) }
    }

    /// A cell that holds a 32-bit float, given as its bits.
    pub fn float32(bits: u32) -> (v: RawValue)
        ensures
            v.bits == bits as u64,
    {
        RawValue { bits: bits as u64 }
    }

    /// A cell that holds a 64-bit float, given as its bits.
    pub fn float64(bits: u64) -> (v: RawValue)
        ensures
            v.bits == bits,
    {
        RawValue { bits }
    }

    /// The cell read as a 32-bit integer: its low half.
    pub fn get_i32(&self) -> (i: i32)
        ensures
            i == low_i32(self.bits),
    {
        #[verifier::truncate]
        ((#[verifier::truncate] ((self.bits & 0xffff_ffff) as u32)) as i32)
    }

    /// The cell read as a 64-bit integer.
    pub fn get_i64(&self) -> (i: i64)
        ensures
            i == self.bits as i64,
    {
        #[verifier::truncate]
        (self.bits as i64)
    }

    /// The cell read as the bits of a 32-bit float: its low half.
    pub fn get_float32(&self) -> (bits: u32)
        ensures
            bits == (self.bits & 0xffff_ffff) as u32,
    {
        #[verifier::truncate]
        ((self.bits & 0xffff_ffff) as u32)
    }

    /// The cell read as the bits of a 64-bit float.
    pub fn get_float64(&self) -> (bits: u64)
        ensures
            bits == self.bits,
    {
        self.bits
    }
}

/// What is written into a cell as a 32-bit integer is read back from it,
/// as a 32-bit integer; read as a 64-bit integer it is the same number
/// where that is not negative.
pub proof fn lemma_i32_cell(i: i32)
    ensures
        low_i32(i as u32 as u64) == i,
        i >= 0 ==> (i as u32 as u64) as i64 == i,
{
    let u = i as u32;
    assert((u as u64) & 0xffff_ffff == u as u64) by (bit_vector);
    assert(u as i32 == i) by (bit_vector)
        requires
            u == i as u32,
    ;
}

/// What is written into a cell as a 64-bit integer is read back from it.
pub proof fn lemma_i64_cell(i: i64)
    ensures
        (i as u64) as i64 == i,
{
    let u = i as u64;
    assert(u as i64 == i) by (bit_vector)
        requires
            u == i as u64,
    ;
}

/// A short vector of cells, kept in a `SmallVec` of the `smallvec` crate,
/// which holds up to two cells without allocating.
#[verifier::external_body]
pub struct Cells {
    inner: SmallVec<[RawValue; 2]>,
}

/// What a vector of cells holds, in its order.
pub uninterp spec fn cells(v: Cells) -> Seq<RawValue>;

/// `SmallVec::new`: a vector that holds nothing.
#[verifier::external_body]
pub(crate) fn cells_new() -> (v: Cells)
    ensures
        cells(v).len() == 0,
{
    Cells { inner: SmallVec::new() }
}

/// `SmallVec::push`: afterwards the vector holds `value` after what it held.
#[verifier::external_body]
pub(crate) fn cells_push(v: &mut Cells, value: RawValue)
    ensures
        cells(*final(v)) == cells(*old(v)).push(value),
{
    v.inner.push(value);
}

/// `SmallVec::as_slice`, copied into a `Vec`: the cells in their order.
#[verifier::external_body]
pub(crate) fn cells_to_vec(v: &Cells) -> (out: Vec<RawValue>)
    ensures
        out@ == cells(*v),
{
    v.inner.as_slice().to_vec()
}

impl Cells {
    /// The cells, in their order.
    pub fn to_vec(&self) -> (out: Vec<RawValue>)
        ensures
            out@ == cells(*self),
    {
        cells_to_vec(self)
    }

    /// How many cells the vector holds.
    pub fn len(&self) -> (n: usize)
        ensures
            n == cells(*self).len(),
    {
        cells_to_vec(self).len()
    }
}

/// Return type for functions that may return an undefined value.
pub enum MaybeUndef<T> {
    Defined(T),
    Undef,
}

/// A 64-bit float, held as its bits.
#[derive(Clone, Copy, Debug, PartialEq, Eq, Structural)]
pub struct Float64 {
    pub bits: u64,
}

/// A string at run time, as the machine carries it: one 64-bit handle.
#[derive(Clone, Copy, Debug, PartialEq, Eq, Structural)]
pub struct StringHandle {
    pub handle: i64,
}

impl Default for Float64 {
    fn default() -> (v: Self)
        ensures
            v.bits == 0,
    {
        Float64 { bits: 0 }
    }
}

impl Default for StringHandle {
    fn default() -> (v: Self)
        ensures
            v.handle == 0,
    {
        StringHandle { handle: 0 }
    }
}

/// Conversion of a value into the cells that are passed to the machine.
/// What a function of the host returns must have this conversion.
pub trait ToWasm: Sized {
    /// `values` are the cells that stand for `self`.
    spec fn stands_as(&self, values: Seq<RawValue>) -> bool;

    /// The cells that stand for `self`.
    fn to_wasm(&self) -> (v: Cells)
        ensures
            self.stands_as(cells(v)),
    ;
}

impl ToWasm for () {
    open spec fn stands_as(&self, values: Seq<RawValue>) -> bool {
        values == Seq::<RawValue>::empty()
    }

    fn to_wasm(&self) -> (v: Cells) {
        let v = cells_new();
        assert(cells(v) =~= Seq::<RawValue>::empty());
        v
    }
}

impl ToWasm for i32 {
    open spec fn stands_as(&self, values: Seq<RawValue>) -> bool {
        values == seq![RawValue { bits: *self as u32 as u64 }]
    }

    fn to_wasm(&self) -> (v: Cells) {
        let mut v = cells_new();
        cells_push(&mut v, RawValue::i32(*self));
        assert(cells(v) =~= seq![RawValue { bits: *self as u32 as u64 }]);
        v
    }
}

impl ToWasm for i64 {
    open spec fn stands_as(&self, values: Seq<RawValue>) -> bool {
        values == seq![RawValue { bits: *self as u64 }]
    }

    fn to_wasm(&self) -> (v: Cells) {
        let mut v = cells_new();
        cells_push(&mut v, RawValue::i64(*self));
        assert(cells(v) =~= seq![RawValue { bits: *self as u64 }]);
        v
    }
}

impl ToWasm for Float64 {
    open spec fn stands_as(&self, values: Seq<RawValue>) -> bool {
        values == seq![RawValue { bits: self.bits }]
    }

    fn to_wasm(&self) -> (v: Cells) {
        let mut v = cells_new();
        cells_push(&mut v, RawValue::float64(self.bits));
        assert(cells(v) =~= seq![RawValue { bits: self.bits }]);
        v
    }
}

impl ToWasm for bool {
    open spec fn stands_as(&self, values: Seq<RawValue>) -> bool {
        values == seq![
            RawValue {
                bits: if *self {
                    1
                } else {
                    0
                },
            },
        ]
    }

    fn to_wasm(&self) -> (v: Cells) {
        let mut v = cells_new();
        let flag: i32 = if *self {
            1
        } else {
            0
        };
        cells_push(&mut v, RawValue::i32(flag));
        assert(cells(v) =~= seq![
            RawValue {
                bits: if *self {
                    1
                } else {
                    0
                },
            },
        ]);
        v
    }
}

impl ToWasm for StringHandle {
    open spec fn stands_as(&self, values: Seq<RawValue>) -> bool {
        values == seq![RawValue { bits: self.handle as u64 }]
    }

    fn to_wasm(&self) -> (v: Cells) {
        let mut v = cells_new();
        cells_push(&mut v, RawValue::i64(self.handle));
        assert(cells(v) =~= seq![RawValue { bits: self.handle as u64 }]);
        v
    }
}

/// The flag that follows a value that is defined.
pub open spec fn defined_flag() -> RawValue {
    RawValue { bits: 0 }
}

/// The flag that follows a value that is undefined.
pub open spec fn undefined_flag() -> RawValue {
    RawValue { bits: 1 }
}

impl<T: ToWasm + Default> ToWasm for MaybeUndef<T> {
    /// A defined value stands as its own cells followed by the flag 0; an
    /// undefined one as the cells of the default value of its type
    /// followed by the flag 1.
    open spec fn stands_as(&self, values: Seq<RawValue>) -> bool {
        match self {
            MaybeUndef::Defined(value) => values.len() > 0 && value.stands_as(values.drop_last())
                && values.last() == defined_flag(),
            MaybeUndef::Undef => values.len() > 0 && values.last() == undefined_flag()
                && exists|d: T|
                call_ensures(T::default, (), d) && d.stands_as(values.drop_last()),
        }
    }

    fn to_wasm(&self) -> (v: Cells) {
        match self {
            MaybeUndef::Defined(value) => {
                let mut result = value.to_wasm();
                let ghost inner = cells(result);
                cells_push(&mut result, RawValue::i32(0));
                assert(cells(result).drop_last() =~= inner);
                result
            },
            MaybeUndef::Undef => {
                let d = T::default();
                let mut result = d.to_wasm();
                let ghost inner = cells(result);
                cells_push(&mut result, RawValue::i32(1));
                assert(cells(result).drop_last() =~= inner);
                result
            },
        }
    }
}

} // verus!
