//! Mangled names, which spell the types of a function's arguments and of
//! its result, and the choice among the overloads of a function.
//!
//! A mangled name has three parts with `@` between them: the function's
//! name, one letter for the type of each argument, and one letter for the
//! type of the result, after which a `u` says that the result may be
//! undefined. The letters are `i` for integers, `f` for floats, `b` for
//! truth values and `s` for strings. A function without a result has an
//! empty third part.

use crate::types::{Func, Type};
use vstd::prelude::*;
use vstd::utf8::encode_utf8;

verus! {

/// The type that a letter of a mangled name stands for.
pub open spec fn code_type(c: u8) -> Option<Type> {
    if c == 0x69 {
        Some(Type::Integer)
    } else if c == 0x66 {
        Some(Type::Float)
    } else if c == 0x62 {
        Some(Type::Bool)
    } else if c == 0x73 {
        Some(Type::String)
    } else {
        None
    }
}

/// The position of the first `@` at or after `i`, or the length of the
/// name where there is none.
pub open spec fn next_at(bytes: Seq<u8>, i: int) -> int
    decreases bytes.len() - i,
{
    if i < 0 || i >= bytes.len() {
        bytes.len() as int
    } else if bytes[i] == 0x40 {
        i
    } else {
        next_at(bytes, i + 1)
    }
}

/// The types that the first `n` letters stand for, if each stands for one.
pub open spec fn coded_types(codes: Seq<u8>, n: int) -> Option<Seq<Type>>
    decreases n,
{
    if n <= 0 || n > codes.len() {
        Some(Seq::empty())
    } else {
        match (coded_types(codes, n - 1), code_type(codes[n - 1])) {
            (Some(before), Some(ty)) => Some(before.push(ty)),
            _ => None,
        }
    }
}

/// The type of the result that the third part of a mangled name spells:
/// `Unknown` for a function without a result.
pub open spec fn coded_result(ret: Seq<u8>) -> Option<Type> {
    if ret.len() == 0 {
        Some(Type::Unknown)
    } else if ret.len() == 1 || (ret.len() == 2 && ret[1] == 0x75) {
        code_type(ret[0])
    } else {
        None
    }
}

/// The types of the arguments and of the result that a mangled name
/// spells, if it is well formed.
pub open spec fn parsed_signature(name: Seq<u8>) -> Option<(Seq<Type>, Type)> {
    let first = next_at(name, 0);
    let second = next_at(name, first + 1);
    if first >= name.len() || second >= name.len() || next_at(name, second + 1) < name.len() {
        None
    } else {
        let codes = name.subrange(first + 1, second);
        match (
            coded_types(codes, codes.len() as int),
            coded_result(name.subrange(second + 1, name.len() as int)),
        ) {
            (Some(args), Some(result)) => Some((args, result)),
            _ => None,
        }
    }
}

/// What `next_at` gives lies between `i` and the length.
pub proof fn lemma_next_at(bytes: Seq<u8>, i: int)
    requires
        0 <= i <= bytes.len(),
    ensures
        i <= next_at(bytes, i) <= bytes.len(),
        next_at(bytes, i) < bytes.len() ==> bytes[next_at(bytes, i)] == 0x40,
    decreases bytes.len() - i,
{
    if i < bytes.len() && bytes[i] != 0x40 {
        lemma_next_at(bytes, i + 1);
    }
}

/// The type that a letter of a mangled name stands for.
pub fn type_of_code(c: u8) -> (ty: Option<Type>)
    ensures
        ty == code_type(c),
{
    if c == 0x69 {
        Some(Type::Integer)
    } else if c == 0x66 {
        Some(Type::Float)
    } else if c == 0x62 {
        Some(Type::Bool)
    } else if c == 0x73 {
        Some(Type::String)
    } else {
        None
    }
}

/// The position of the first `@` at or after `i`.
fn find_at(bytes: &[u8], i: usize) -> (at: usize)
    requires
        i <= bytes@.len(),
    ensures
        at == next_at(bytes@, i as int),
        i <= at <= bytes@.len(),
{
    let mut k = i;
    while k < bytes.len() && bytes[k] != 0x40
        invariant
            i <= k <= bytes@.len(),
            next_at(bytes@, i as int) == next_at(bytes@, k as int),
        decreases bytes@.len() - k,
    {
        k += 1;
    }
    k
}

/// Reads the types of the arguments and of the result from a mangled
/// name. `None` where the name is not well formed.
#[verifier::loop_isolation(false)]
pub fn parse_signature(mangled_name: &str) -> (r: Option<(Vec<Type>, Type)>)
    ensures
        match r {
            Some((args, result)) => parsed_signature(encode_utf8(mangled_name@)) == Some(
                (args@, result),
            ),
            None => parsed_signature(encode_utf8(mangled_name@)) is None,
        },
{
    let bytes = mangled_name.as_bytes();
    let len = bytes.len();
    let first = find_at(bytes, 0);
    if first >= len {
        return None;
    }
    let second = find_at(bytes, first + 1);
    if second >= len {
        return None;
    }
    if find_at(bytes, second + 1) < len {
        return None;
    }
    let ghost codes = bytes@.subrange(first + 1, second as int);
    let mut args: Vec<Type> = Vec::new();
    let mut i: usize = first + 1;
    while i < second
        invariant
            first + 1 <= i <= second,
            second < bytes@.len(),
            codes == bytes@.subrange(first + 1, second as int),
            coded_types(codes, i - first - 1) == Some(args@),
        decreases second - i,
    {
        match type_of_code(bytes[i]) {
            Some(ty) => {
                args.push(ty);
            },
            None => {
                proof {
                    lemma_coded_types_fail(codes, i - first - 1, codes.len() as int);
                }
                return None;
            },
        }
        i += 1;
    }
    let ghost ret = bytes@.subrange(second + 1, len as int);
    let count = len - second - 1;
    let result = if count == 0 {
        Some(Type::Unknown)
    } else if count == 1 || (count == 2 && bytes[second + 2] == 0x75) {
        type_of_code(bytes[second + 1])
    } else {
        None
    };
    proof {
        assert(ret.len() == count);
        if count > 0 {
            assert(ret[0] == bytes@[second + 1]);
        }
        if count == 2 {
            assert(ret[1] == bytes@[second + 2]);
        }
        assert(result == coded_result(ret));
    }
    match result {
        Some(result) => Some((args, result)),
        None => None,
    }
}

/// Where a letter stands for no type, the letters up to any later place
/// stand for no types either.
proof fn lemma_coded_types_fail(codes: Seq<u8>, k: int, n: int)
    requires
        0 <= k < n <= codes.len(),
        code_type(codes[k]) is None,
    ensures
        coded_types(codes, n) is None,
    decreases n - k,
{
    if n > k + 1 {
        lemma_coded_types_fail(codes, k, n - 1);
    }
}

/// What the search for an overload ends in.
#[derive(Clone, Copy, Debug, PartialEq, Eq, Structural)]
pub enum Resolution {
    /// The overload with the given number takes the arguments, and its
    /// result has the given type.
    Found(usize, Type),
    /// No overload takes that many arguments.
    WrongNumberOfArguments,
    /// An overload takes that many arguments, but none takes arguments of
    /// these types.
    NoMatchingOverload,
}

/// The type of the result of the overload `signature` on arguments of the
/// types `args`, if it takes exactly such arguments.
pub open spec fn takes(signature: Seq<char>, args: Seq<Type>) -> Option<Type> {
    match parsed_signature(encode_utf8(signature)) {
        Some((types, result)) => if types == args {
            Some(result)
        } else {
            None
        },
        None => None,
    }
}

/// The overload `signature` takes `n` arguments.
pub open spec fn has_arity(signature: Seq<char>, n: nat) -> bool {
    match parsed_signature(encode_utf8(signature)) {
        Some((types, _)) => types.len() == n,
        None => false,
    }
}

/// One of the overloads from number `i` on takes `n` arguments.
pub open spec fn some_has_arity(signatures: Seq<Seq<char>>, n: nat, i: int) -> bool
    decreases signatures.len() - i,
{
    if i < 0 || i >= signatures.len() {
        false
    } else {
        has_arity(signatures[i], n) || some_has_arity(signatures, n, i + 1)
    }
}

/// The first overload, from number `i` on, that takes arguments of
/// exactly the types `args`. Where there is none, the failure says whether
/// any overload at all takes that many arguments.
pub open spec fn resolution(signatures: Seq<Seq<char>>, args: Seq<Type>, i: int) -> Resolution
    decreases signatures.len() - i,
{
    if i < 0 || i >= signatures.len() {
        if some_has_arity(signatures, args.len(), 0) {
            Resolution::NoMatchingOverload
        } else {
            Resolution::WrongNumberOfArguments
        }
    } else {
        match takes(signatures[i], args) {
            Some(result) => Resolution::Found(i as usize, result),
            None => resolution(signatures, args, i + 1),
        }
    }
}

/// Tells whether two lists of types are the same.
pub fn same_types(a: &Vec<Type>, b: &[Type]) -> (same: bool)
    ensures
        same == (a@ == b@),
{
    if a.len() != b.len() {
        return false;
    }
    let mut i: usize = 0;
    while i < a.len()
        invariant
            i <= a@.len(),
            a@.len() == b@.len(),
            forall|j: int| 0 <= j < i ==> a@[j] == b@[j],
        decreases a@.len() - i,
    {
        if a[i] != b[i] {
            return false;
        }
        i += 1;
    }
    assert(a@ =~= b@);
    true
}

impl Func {
    /// Picks the overload for arguments of the given types: the first
    /// whose signature names exactly these types. No type is converted to
    /// another.
    pub fn resolve(&self, args: &[Type]) -> (r: Resolution)
        ensures
            r == resolution(self@, args@, 0),
    {
        let mut arity_seen = false;
        let mut i: usize = 0;
        while i < self.len()
            invariant
                i <= self@.len(),
                resolution(self@, args@, 0) == resolution(self@, args@, i as int),
                some_has_arity(self@, args@.len(), 0) == (arity_seen || some_has_arity(
                    self@,
                    args@.len(),
                    i as int,
                )),
            decreases self@.len() - i,
        {
            match parse_signature(self.signature(i)) {
                Some((types, result)) => {
                    if same_types(&types, args) {
                        return Resolution::Found(i, result);
                    }
                    if types.len() == args.len() {
                        arity_seen = true;
                    }
                },
                None => {},
            }
            i += 1;
        }
        if arity_seen {
            Resolution::NoMatchingOverload
        } else {
            Resolution::WrongNumberOfArguments
        }
    }
}

} // verus!
