//! The types of the machine, and how the types of the host's functions
//! map to them.

use vstd::prelude::*;

verus! {

/// A type of the machine.
#[derive(Clone, Copy, Debug, PartialEq, Eq, Structural)]
pub enum ValType {
    I32,
    I64,
    Float32,
    Float64,
}

/// A type that a function of the host takes or returns as one value.
#[derive(Clone, Copy, Debug, PartialEq, Eq, Structural)]
pub enum Scalar {
    Int64,
    Int32,
    Float64,
    Float32,
    Bool,
    Unit,
    RuntimeString,
}

/// A type that a function of the host takes or returns.
#[derive(Clone, Copy, Debug, PartialEq, Eq, Structural)]
pub enum HostType {
    /// A value that is always defined.
    Plain(Scalar),
    /// The number of a literal.
    LiteralId,
    /// A value that may be undefined.
    MaybeUndef(Scalar),
}

/// The types of the machine that carry a scalar: none for the unit type,
/// one for any other.
pub open spec fn scalar_types(s: Scalar) -> Seq<ValType> {
    match s {
        Scalar::Int64 => seq![ValType::I64],
        Scalar::Int32 => seq![ValType::I32],
        Scalar::Float64 => seq![ValType::Float64],
        Scalar::Float32 => seq![ValType::Float32],
        Scalar::Bool => seq![ValType::I32],
        Scalar::Unit => Seq::empty(),
        Scalar::RuntimeString => seq![ValType::I64],
    }
}

/// The types of the machine that carry a value of the host: those of the
/// value, and for a value that may be undefined one 32-bit integer more,
/// the flag.
pub open spec fn machine_types(ty: HostType) -> Seq<ValType> {
    match ty {
        HostType::Plain(s) => scalar_types(s),
        HostType::LiteralId => seq![ValType::I32],
        HostType::MaybeUndef(s) => scalar_types(s).push(ValType::I32),
    }
}

/// The types of the machine that carry a value of the given type.
pub fn type_id_to_walrus(ty: HostType) -> (types: Vec<ValType>)
    ensures
        types@ == machine_types(ty),
{
    let mut types: Vec<ValType> = Vec::new();
    let (scalar, flag) = match ty {
        HostType::Plain(s) => (s, false),
        HostType::LiteralId => (Scalar::Int32, false),
        HostType::MaybeUndef(s) => (s, true),
    };
    match scalar {
        Scalar::Int64 | Scalar::RuntimeString => {
            types.push(ValType::I64);
        },
        Scalar::Int32 | Scalar::Bool => {
            types.push(ValType::I32);
        },
        Scalar::Float64 => {
            types.push(ValType::Float64);
        },
        Scalar::Float32 => {
            types.push(ValType::Float32);
        },
        Scalar::Unit => {},
    }
    if flag {
        types.push(ValType::I32);
    }
    assert(types@ =~= machine_types(ty));
    types
}

/// The types of a function of the host: those of its arguments, in their
/// order, and that of its result.
#[derive(Debug)]
pub struct WasmExportedFn {
    pub args: Vec<HostType>,
    pub result: HostType,
}

/// The types of the machine for the arguments `args[..n]`, one after the
/// other.
pub open spec fn argument_types(args: Seq<HostType>, n: int) -> Seq<ValType>
    decreases n,
{
    if n <= 0 || n > args.len() {
        Seq::empty()
    } else {
        argument_types(args, n - 1) + machine_types(args[n - 1])
    }
}

impl WasmExportedFn {
    /// The types of the machine for the function's arguments.
    pub fn walrus_args(&self) -> (types: Vec<ValType>)
        ensures
            types@ == argument_types(self.args@, self.args@.len() as int),
    {
        let mut types: Vec<ValType> = Vec::new();
        let mut i: usize = 0;
        while i < self.args.len()
            invariant
                i <= self.args@.len(),
                types@ == argument_types(self.args@, i as int),
            decreases self.args@.len() - i,
        {
            let mut more = type_id_to_walrus(self.args[i]);
            types.append(&mut more);
            i += 1;
        }
        types
    }

    /// The types of the machine for the function's result.
    pub fn walrus_results(&self) -> (types: Vec<ValType>)
        ensures
            types@ == machine_types(self.result),
    {
        type_id_to_walrus(self.result)
    }
}

} // verus!
