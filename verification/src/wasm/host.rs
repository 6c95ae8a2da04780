//! The functions that the machine calls on the host while it evaluates
//! conditions.
//!
//! A function that may have no value to return gives `MaybeUndef::Undef`
//! and never fails: a lookup that leads nowhere, an index past the end of
//! an array and a key that a map does not hold are all undefined.

use crate::compiler::ids::{PatternId, RuleId};
use crate::scanner::ScanContext;
use crate::string_pool::bytes_equal;
use crate::types::{ArrayValue, Heap, MapValue, TypeValue};
use crate::wasm::bitmap::{bitmap_holds, mark_rule, with_bit_at};
use crate::wasm::layout::MATCHING_RULES_BITMAP_BASE;
use crate::wasm::lookup::{lookup, looked_up};
use crate::parser::names::bytes_lt;
use crate::wasm::string::RuntimeString;
use crate::wasm::strops::{contains, ends_with, equals, folded, less, occurs, occurs_at, starts_with};
use crate::wasm::values::{Float64, MaybeUndef};
use vstd::prelude::*;

verus! {

/// A value that may be undefined, from a value that may be absent.
pub open spec fn maybe<T>(value: Option<T>) -> MaybeUndef<T> {
    match value {
        Some(v) => MaybeUndef::Defined(v),
        None => MaybeUndef::Undef,
    }
}

/// The integer that a value holds, if it is an integer and holds one.
pub open spec fn integer_of(value: Option<TypeValue>) -> Option<i64> {
    match value {
        Some(TypeValue::Integer(Some(v))) => Some(v),
        _ => None,
    }
}

/// The float that a value holds, if it is a float and holds one.
pub open spec fn float_of(value: Option<TypeValue>) -> Option<Float64> {
    match value {
        Some(TypeValue::Float(Some(bits))) => Some(Float64 { bits }),
        _ => None,
    }
}

/// The truth value that a value holds, if it is boolean and holds one.
pub open spec fn bool_of(value: Option<TypeValue>) -> Option<bool> {
    match value {
        Some(TypeValue::Bool(Some(v))) => Some(v),
        _ => None,
    }
}

/// The bytes of the string that a value holds, if it is a string and holds
/// one that is on the heap.
pub open spec fn string_of(heap: Heap, value: Option<TypeValue>) -> Option<Seq<u8>> {
    match value {
        Some(TypeValue::String(Some(id))) => if id < heap.strings@.len() {
            Some(heap.strings@[id as int]@)
        } else {
            None
        },
        _ => None,
    }
}

/// The number of the structure that a value is, if it is one.
pub open spec fn struct_of(value: Option<TypeValue>) -> Option<usize> {
    match value {
        Some(TypeValue::Struct(id)) => Some(id),
        _ => None,
    }
}

/// The item `index` of the array that `value` is, as a value.
pub open spec fn element(heap: Heap, value: Option<TypeValue>, index: int) -> Option<TypeValue> {
    match value {
        Some(TypeValue::Array(id)) => if id < heap.arrays@.len() && 0 <= index
            < heap.arrays@[id as int].len_spec() {
            Some(
                match heap.arrays@[id as int] {
                    ArrayValue::Integers(v) => TypeValue::Integer(Some(v@[index])),
                    ArrayValue::Floats(v) => TypeValue::Float(Some(v@[index])),
                    ArrayValue::Bools(v) => TypeValue::Bool(Some(v@[index])),
                    ArrayValue::Strings(v) => TypeValue::String(Some(v@[index])),
                    ArrayValue::Structs(v) => TypeValue::Struct(v@[index]),
                },
            )
        } else {
            None
        },
        _ => None,
    }
}

/// The value of the first entry, at or after position `i`, with the key
/// `key`.
pub open spec fn first_with_int(entries: Seq<(i64, TypeValue)>, key: i64, i: int) -> Option<
    TypeValue,
>
    decreases entries.len() - i,
{
    if i < 0 || i >= entries.len() {
        None
    } else if entries[i].0 == key {
        Some(entries[i].1)
    } else {
        first_with_int(entries, key, i + 1)
    }
}

/// The value of the first entry, at or after position `i`, with the key
/// `key`.
pub open spec fn first_with_bytes(entries: Seq<(Vec<u8>, TypeValue)>, key: Seq<u8>, i: int) -> Option<
    TypeValue,
>
    decreases entries.len() - i,
{
    if i < 0 || i >= entries.len() {
        None
    } else if entries[i].0@ == key {
        Some(entries[i].1)
    } else {
        first_with_bytes(entries, key, i + 1)
    }
}

/// What the map that `value` is holds under the integer `key`.
pub open spec fn entry_by_int(heap: Heap, value: Option<TypeValue>, key: i64) -> Option<TypeValue> {
    match value {
        Some(TypeValue::Mapping(id)) => if id < heap.maps@.len() {
            match heap.maps@[id as int] {
                MapValue::IntegerKeys(entries) => first_with_int(entries@, key, 0),
                _ => None,
            }
        } else {
            None
        },
        _ => None,
    }
}

/// What the map that `value` is holds under the string `key`.
pub open spec fn entry_by_bytes(heap: Heap, value: Option<TypeValue>, key: Seq<u8>) -> Option<
    TypeValue,
> {
    match value {
        Some(TypeValue::Mapping(id)) => if id < heap.maps@.len() {
            match heap.maps@[id as int] {
                MapValue::StringKeys(entries) => first_with_bytes(entries@, key, 0),
                _ => None,
            }
        } else {
            None
        },
        _ => None,
    }
}

/// The integer of `value`, or undefined.
pub fn as_integer(value: Option<TypeValue>) -> (r: MaybeUndef<i64>)
    ensures
        r == maybe(integer_of(value)),
{
    match value {
        Some(TypeValue::Integer(Some(v))) => MaybeUndef::Defined(v),
        _ => MaybeUndef::Undef,
    }
}

/// The float of `value`, or undefined.
pub fn as_float(value: Option<TypeValue>) -> (r: MaybeUndef<Float64>)
    ensures
        r == maybe(float_of(value)),
{
    match value {
        Some(TypeValue::Float(Some(bits))) => MaybeUndef::Defined(Float64 { bits }),
        _ => MaybeUndef::Undef,
    }
}

/// The truth value of `value`, or undefined.
pub fn as_bool(value: Option<TypeValue>) -> (r: MaybeUndef<bool>)
    ensures
        r == maybe(bool_of(value)),
{
    match value {
        Some(TypeValue::Bool(Some(v))) => MaybeUndef::Defined(v),
        _ => MaybeUndef::Undef,
    }
}

/// The item `index` of the array that `value` is.
pub fn array_item(heap: &Heap, value: Option<TypeValue>, index: i64) -> (item: Option<TypeValue>)
    ensures
        item == element(*heap, value, index as int),
{
    let id = match value {
        Some(TypeValue::Array(id)) => id,
        _ => {
            return None;
        },
    };
    if id >= heap.arrays.len() || index < 0 {
        return None;
    }
    let array = &heap.arrays[id];
    if index as u64 >= array.len() as u64 {
        return None;
    }
    let i = index as usize;
    Some(
        match array {
            ArrayValue::Integers(v) => TypeValue::Integer(Some(v[i])),
            ArrayValue::Floats(v) => TypeValue::Float(Some(v[i])),
            ArrayValue::Bools(v) => TypeValue::Bool(Some(v[i])),
            ArrayValue::Strings(v) => TypeValue::String(Some(v[i])),
            ArrayValue::Structs(v) => TypeValue::Struct(v[i]),
        },
    )
}

/// What the map that `value` is holds under the integer `key`.
#[verifier::loop_isolation(false)]
pub fn map_entry_by_int(heap: &Heap, value: Option<TypeValue>, key: i64) -> (found: Option<
    TypeValue,
>)
    ensures
        found == entry_by_int(*heap, value, key),
{
    let id = match value {
        Some(TypeValue::Mapping(id)) => id,
        _ => {
            return None;
        },
    };
    if id >= heap.maps.len() {
        return None;
    }
    match &heap.maps[id] {
        MapValue::IntegerKeys(entries) => {
            let mut i: usize = 0;
            while i < entries.len()
                invariant
                    i <= entries@.len(),
                    first_with_int(entries@, key, 0) == first_with_int(entries@, key, i as int),
                decreases entries@.len() - i,
            {
                if entries[i].0 == key {
                    return Some(entries[i].1);
                }
                i += 1;
            }
            None
        },
        _ => None,
    }
}

/// What the map that `value` is holds under the string `key`.
#[verifier::loop_isolation(false)]
pub fn map_entry_by_bytes(heap: &Heap, value: Option<TypeValue>, key: &[u8]) -> (found: Option<
    TypeValue,
>)
    ensures
        found == entry_by_bytes(*heap, value, key@),
{
    let id = match value {
        Some(TypeValue::Mapping(id)) => id,
        _ => {
            return None;
        },
    };
    if id >= heap.maps.len() {
        return None;
    }
    match &heap.maps[id] {
        MapValue::StringKeys(entries) => {
            let mut i: usize = 0;
            while i < entries.len()
                invariant
                    i <= entries@.len(),
                    first_with_bytes(entries@, key@, 0) == first_with_bytes(
                        entries@,
                        key@,
                        i as int,
                    ),
                decreases entries@.len() - i,
            {
                if bytes_equal(entries[i].0.as_slice(), key) {
                    return Some(entries[i].1);
                }
                i += 1;
            }
            None
        },
        _ => None,
    }
}

/// Called when a rule matches: sets the rule's bit in the bitmap of
/// matching rules and adds the rule to the list of those that matched.
pub fn rule_match(ctx: &mut ScanContext, main_memory: &mut [u8], rule_id: RuleId)
    requires
        bitmap_holds(old(main_memory)@, rule_id as int),
    ensures
        final(main_memory)@ == with_bit_at(
            old(main_memory)@,
            MATCHING_RULES_BITMAP_BASE as int,
            rule_id as int,
        ),
        final(ctx).rules_matching@ == old(ctx).rules_matching@.push(rule_id),
        final(ctx).scanned_data == old(ctx).scanned_data,
        final(ctx).heap == old(ctx).heap,
        final(ctx).root_struct == old(ctx).root_struct,
        final(ctx).current_struct == old(ctx).current_struct,
        final(ctx).vars_stack == old(ctx).vars_stack,
        final(ctx).string_pool == old(ctx).string_pool,
{
    mark_rule(main_memory, rule_id);
    ctx.rules_matching.push(rule_id);
}

/// Asks whether a pattern matches at an offset of the data. Matching
/// patterns is not part of this library: the answer is always no.
pub fn is_pat_match_at(_ctx: &ScanContext, _pattern_id: PatternId, _offset: i64) -> (matches: bool)
    ensures
        !matches,
{
    false
}

/// Asks whether a pattern matches at some offset in a range of the data.
/// Matching patterns is not part of this library: the answer is always no.
pub fn is_pat_match_in(
    _ctx: &ScanContext,
    _pattern_id: PatternId,
    _lower_bound: i64,
    _upper_bound: i64,
) -> (matches: bool)
    ensures
        !matches,
{
    false
}

/// The loop variable `var` holds an array that is on the heap.
pub open spec fn holds_array(ctx: ScanContext, var: i32) -> bool {
    0 <= var < ctx.vars_stack@.len() && (ctx.vars_stack@[var as int] matches TypeValue::Array(id)
        && id < ctx.heap.arrays@.len())
}

/// The loop variable `var` holds a map that is on the heap.
pub open spec fn holds_map(ctx: ScanContext, var: i32) -> bool {
    0 <= var < ctx.vars_stack@.len() && (ctx.vars_stack@[var as int] matches TypeValue::Mapping(id)
        && id < ctx.heap.maps@.len())
}

/// Given a loop variable that holds an array, returns the length of the
/// array.
pub fn array_len(ctx: &ScanContext, var: i32) -> (len: i64)
    requires
        holds_array(*ctx, var),
    ensures
        len == ctx.heap.arrays@[ctx.vars_stack@[var as int]->Array_0 as int].len_spec() as i64,
{
    match ctx.vars_stack[var as usize] {
        TypeValue::Array(id) => #[verifier::truncate]
        (ctx.heap.arrays[id].len() as i64),
        _ => 0,
    }
}

/// Given a loop variable that holds a map, returns the number of entries
/// of the map.
pub fn map_len(ctx: &ScanContext, var: i32) -> (len: i64)
    requires
        holds_map(*ctx, var),
    ensures
        len == ctx.heap.maps@[ctx.vars_stack@[var as int]->Mapping_0 as int].len_spec() as i64,
{
    match ctx.vars_stack[var as usize] {
        TypeValue::Mapping(id) => #[verifier::truncate]
        (ctx.heap.maps[id].len() as i64),
        _ => 0,
    }
}

/// Resolves a field lookup that ends in an integer.
pub fn lookup_integer(ctx: &mut ScanContext, lookup_start: i32, path: &[i32]) -> (r: MaybeUndef<
    i64,
>)
    ensures
        r == maybe(integer_of(looked_up(*old(ctx), lookup_start, path@))),
        final(ctx).current_struct is None,
        final(ctx).same_but_current(old(ctx)),
{
    as_integer(lookup(ctx, lookup_start, path))
}

/// Resolves a field lookup that ends in a float.
pub fn lookup_float(ctx: &mut ScanContext, lookup_start: i32, path: &[i32]) -> (r: MaybeUndef<
    Float64,
>)
    ensures
        r == maybe(float_of(looked_up(*old(ctx), lookup_start, path@))),
        final(ctx).current_struct is None,
        final(ctx).same_but_current(old(ctx)),
{
    as_float(lookup(ctx, lookup_start, path))
}

/// Resolves a field lookup that ends in a truth value.
pub fn lookup_bool(ctx: &mut ScanContext, lookup_start: i32, path: &[i32]) -> (r: MaybeUndef<bool>)
    ensures
        r == maybe(bool_of(looked_up(*old(ctx), lookup_start, path@))),
        final(ctx).current_struct is None,
        final(ctx).same_but_current(old(ctx)),
{
    as_bool(lookup(ctx, lookup_start, path))
}

/// What a function that returns a string promises: where `bytes` is
/// nothing the result is undefined and the scan is unchanged but for the
/// current structure; else the result is a string of the scan whose bytes,
/// in the pool of the scan, are `bytes`, and the pool has grown by that
/// string at most.
pub open spec fn owned_string(
    before: ScanContext,
    after: ScanContext,
    bytes: Option<Seq<u8>>,
    r: MaybeUndef<RuntimeString>,
) -> bool {
    &&& after.wf()
    &&& after.scanned_data == before.scanned_data
    &&& after.heap == before.heap
    &&& after.root_struct == before.root_struct
    &&& after.vars_stack == before.vars_stack
    &&& after.rules_matching == before.rules_matching
    &&& match bytes {
        None => r is Undef && after.string_pool@ == before.string_pool@,
        Some(b) => r matches MaybeUndef::Defined(RuntimeString::Owned(id)) && id.0
            < after.string_pool@.len() && after.string_pool@[id.0 as int] == b
            && after.string_pool@ == crate::wasm::host::interned(before.string_pool@, b),
    }
}

/// The pool after `s` was interned.
pub open spec fn interned(pool: Seq<Seq<u8>>, s: Seq<u8>) -> Seq<Seq<u8>> {
    if pool.contains(s) {
        pool
    } else {
        pool.push(s)
    }
}

/// Makes the string that `value` holds a string of the scan.
pub fn own_string(ctx: &mut ScanContext, value: Option<TypeValue>) -> (r: MaybeUndef<RuntimeString>)
    requires
        old(ctx).wf(),
        old(ctx).string_pool@.len() < u32::MAX,
    ensures
        owned_string(*old(ctx), *final(ctx), string_of(old(ctx).heap, value), r),
        final(ctx).current_struct == old(ctx).current_struct,
{
    match value {
        Some(TypeValue::String(Some(id))) => {
            if id < ctx.heap.strings.len() {
                let id = ctx.string_pool.get_or_intern(ctx.heap.strings[id].as_slice());
                MaybeUndef::Defined(RuntimeString::Owned(id))
            } else {
                MaybeUndef::Undef
            }
        },
        _ => MaybeUndef::Undef,
    }
}

/// Resolves a field lookup that ends in a string. The string becomes a
/// string of the scan.
pub fn lookup_string(ctx: &mut ScanContext, lookup_start: i32, path: &[i32]) -> (r: MaybeUndef<
    RuntimeString,
>)
    requires
        old(ctx).wf(),
        old(ctx).string_pool@.len() < u32::MAX,
    ensures
        owned_string(
            *old(ctx),
            *final(ctx),
            string_of(old(ctx).heap, looked_up(*old(ctx), lookup_start, path@)),
            r,
        ),
        final(ctx).current_struct is None,
{
    let value = lookup(ctx, lookup_start, path);
    own_string(ctx, value)
}

/// The loop variables after `value` was put in the slot `index`: slots
/// that did not exist before are filled with `Unknown`.
pub open spec fn with_var(vars: Seq<TypeValue>, index: int, value: TypeValue) -> Seq<TypeValue> {
    Seq::new(
        if index < vars.len() {
            vars.len()
        } else {
            (index + 1) as nat
        },
        |i: int|
            if i == index {
                value
            } else if i < vars.len() {
                vars[i]
            } else {
                TypeValue::Unknown
            },
    )
}

/// Puts `value` in the slot `index` of the loop variables.
pub fn set_var(vars: &mut Vec<TypeValue>, index: usize, value: TypeValue)
    requires
        index < usize::MAX,
    ensures
        final(vars)@ == with_var(old(vars)@, index as int, value),
{
    while vars.len() <= index
        invariant
            index < usize::MAX,
            vars@.len() >= old(vars)@.len(),
            vars@.len() <= old(vars)@.len() || vars@.len() <= index + 1,
            forall|i: int| 0 <= i < old(vars)@.len() ==> vars@[i] == old(vars)@[i],
            forall|i: int| old(vars)@.len() <= i < vars@.len() ==> vars@[i] == TypeValue::Unknown,
        decreases index + 1 - vars@.len(),
    {
        vars.push(TypeValue::Unknown);
    }
    vars.set(index, value);
    assert(vars@ =~= with_var(old(vars)@, index as int, value));
}

/// Resolves a field lookup and binds what it finds to the loop variable
/// `var`. What is not found is bound as `Unknown`.
pub fn lookup_value(ctx: &mut ScanContext, lookup_start: i32, path: &[i32], var: i32)
    requires
        var >= 0,
    ensures
        final(ctx).vars_stack@ == with_var(
            old(ctx).vars_stack@,
            var as int,
            match looked_up(*old(ctx), lookup_start, path@) {
                Some(value) => value,
                None => TypeValue::Unknown,
            },
        ),
        final(ctx).current_struct is None,
        final(ctx).scanned_data == old(ctx).scanned_data,
        final(ctx).heap == old(ctx).heap,
        final(ctx).root_struct == old(ctx).root_struct,
        final(ctx).rules_matching == old(ctx).rules_matching,
        final(ctx).string_pool == old(ctx).string_pool,
{
    let value = match lookup(ctx, lookup_start, path) {
        Some(value) => value,
        None => TypeValue::Unknown,
    };
    set_var(&mut ctx.vars_stack, var as usize, value);
}

/// The bytes of a string at run time: of a literal, what the pool of
/// literals holds; of a string of the scan, what the pool of the scan
/// holds; of a slice, that piece of the scanned data.
pub fn string_bytes<'a>(
    ctx: &'a ScanContext,
    literals: &'a crate::string_pool::BStringPool,
    s: RuntimeString,
) -> (bytes: Option<&'a [u8]>)
    ensures
        match bytes {
            Some(b) => s.bytes(literals@, ctx.string_pool@, ctx.scanned_data@) == Some(b@),
            None => s.bytes(literals@, ctx.string_pool@, ctx.scanned_data@) is None,
        },
{
    match s {
        RuntimeString::Literal(id) => literals.get(id),
        RuntimeString::Owned(id) => ctx.string_pool.get(id),
        RuntimeString::ScannedDataSlice { offset, length } => {
            let data = ctx.scanned_data.as_slice();
            if offset <= data.len() && length <= data.len() - offset {
                Some(vstd::slice::slice_subrange(data, offset, offset + length))
            } else {
                None
            }
        },
    }
}

/// The item `index` of the array that a lookup finds.
pub open spec fn array_value(ctx: ScanContext, lookup_start: i32, path: Seq<i32>, index: i64) -> Option<
    TypeValue,
> {
    element(ctx.heap, looked_up(ctx, lookup_start, path), index as int)
}

/// Looks an array up and indexes it.
pub fn array_lookup(ctx: &mut ScanContext, lookup_start: i32, path: &[i32], index: i64) -> (item:
    Option<TypeValue>)
    ensures
        item == array_value(*old(ctx), lookup_start, path@, index),
        final(ctx).current_struct is None,
        final(ctx).same_but_current(old(ctx)),
{
    let array = lookup(ctx, lookup_start, path);
    array_item(&ctx.heap, array, index)
}

/// Indexes the array of integers that a lookup finds. The item is not
/// bound to a loop variable: `var` is -1.
pub fn array_lookup_integer(
    ctx: &mut ScanContext,
    lookup_start: i32,
    path: &[i32],
    index: i64,
    var: i32,
) -> (r: MaybeUndef<i64>)
    requires
        var == -1,
    ensures
        r == maybe(integer_of(array_value(*old(ctx), lookup_start, path@, index))),
        final(ctx).current_struct is None,
        final(ctx).same_but_current(old(ctx)),
{
    as_integer(array_lookup(ctx, lookup_start, path, index))
}

/// Indexes the array of floats that a lookup finds. The item is not bound
/// to a loop variable: `var` is -1.
pub fn array_lookup_float(
    ctx: &mut ScanContext,
    lookup_start: i32,
    path: &[i32],
    index: i64,
    var: i32,
) -> (r: MaybeUndef<Float64>)
    requires
        var == -1,
    ensures
        r == maybe(float_of(array_value(*old(ctx), lookup_start, path@, index))),
        final(ctx).current_struct is None,
        final(ctx).same_but_current(old(ctx)),
{
    as_float(array_lookup(ctx, lookup_start, path, index))
}

/// Indexes the array of truth values that a lookup finds. The item is not
/// bound to a loop variable: `var` is -1.
pub fn array_lookup_bool(
    ctx: &mut ScanContext,
    lookup_start: i32,
    path: &[i32],
    index: i64,
    var: i32,
) -> (r: MaybeUndef<bool>)
    requires
        var == -1,
    ensures
        r == maybe(bool_of(array_value(*old(ctx), lookup_start, path@, index))),
        final(ctx).current_struct is None,
        final(ctx).same_but_current(old(ctx)),
{
    as_bool(array_lookup(ctx, lookup_start, path, index))
}

/// Indexes the array of strings that a lookup finds. The item becomes a
/// string of the scan; it is not bound to a loop variable: `var` is -1.
pub fn array_lookup_string(
    ctx: &mut ScanContext,
    lookup_start: i32,
    path: &[i32],
    index: i64,
    var: i32,
) -> (r: MaybeUndef<RuntimeString>)
    requires
        var == -1,
        old(ctx).wf(),
        old(ctx).string_pool@.len() < u32::MAX,
    ensures
        owned_string(
            *old(ctx),
            *final(ctx),
            string_of(old(ctx).heap, array_value(*old(ctx), lookup_start, path@, index)),
            r,
        ),
        final(ctx).current_struct is None,
{
    let item = array_lookup(ctx, lookup_start, path, index);
    own_string(ctx, item)
}

/// What a function that ends in a structure promises: where `found` is
/// nothing the result is undefined and no structure is current; else the
/// structure found is current and, unless `var` is -1, bound to the loop
/// variable `var`.
pub open spec fn entered(
    before: ScanContext,
    after: ScanContext,
    found: Option<usize>,
    var: i32,
    r: MaybeUndef<()>,
) -> bool {
    &&& after.scanned_data == before.scanned_data
    &&& after.heap == before.heap
    &&& after.root_struct == before.root_struct
    &&& after.rules_matching == before.rules_matching
    &&& after.string_pool == before.string_pool
    &&& after.current_struct == found
    &&& r == maybe(
        match found {
            Some(_) => Some(()),
            None => None,
        },
    )
    &&& after.vars_stack@ == match found {
        Some(s) => if var == -1 {
            before.vars_stack@
        } else {
            with_var(before.vars_stack@, var as int, TypeValue::Struct(s))
        },
        None => before.vars_stack@,
    }
}

/// Makes the structure that `value` is the current structure, and binds it
/// to the loop variable `var` unless that is -1.
pub fn enter(ctx: &mut ScanContext, value: Option<TypeValue>, var: i32) -> (r: MaybeUndef<()>)
    requires
        var >= -1,
        old(ctx).current_struct is None,
    ensures
        entered(*old(ctx), *final(ctx), struct_of(value), var, r),
{
    match value {
        Some(TypeValue::Struct(s)) => {
            ctx.current_struct = Some(s);
            if var != -1 {
                set_var(&mut ctx.vars_stack, var as usize, TypeValue::Struct(s));
            }
            MaybeUndef::Defined(())
        },
        _ => MaybeUndef::Undef,
    }
}

/// Indexes the array of structures that a lookup finds. The structure
/// becomes the current one, in which the next lookup starts.
pub fn array_lookup_struct(
    ctx: &mut ScanContext,
    lookup_start: i32,
    path: &[i32],
    index: i64,
    var: i32,
) -> (r: MaybeUndef<()>)
    requires
        var >= -1,
    ensures
        entered(
            *old(ctx),
            *final(ctx),
            struct_of(array_value(*old(ctx), lookup_start, path@, index)),
            var,
            r,
        ),
{
    let item = array_lookup(ctx, lookup_start, path, index);
    enter(ctx, item, var)
}

/// What the map that a lookup finds holds under the integer `key`.
pub open spec fn map_value_by_int(ctx: ScanContext, lookup_start: i32, path: Seq<i32>, key: i64) -> Option<
    TypeValue,
> {
    entry_by_int(ctx.heap, looked_up(ctx, lookup_start, path), key)
}

/// What the map that a lookup finds holds under the string `key`, where
/// the string has bytes.
pub open spec fn map_value_by_string(
    ctx: ScanContext,
    literals: Seq<Seq<u8>>,
    lookup_start: i32,
    path: Seq<i32>,
    key: RuntimeString,
) -> Option<TypeValue> {
    match key.bytes(literals, ctx.string_pool@, ctx.scanned_data@) {
        Some(bytes) => entry_by_bytes(ctx.heap, looked_up(ctx, lookup_start, path), bytes),
        None => None,
    }
}

/// Looks a map up and asks it for the integer `key`.
pub fn map_lookup_by_int(ctx: &mut ScanContext, lookup_start: i32, path: &[i32], key: i64) -> (found:
    Option<TypeValue>)
    ensures
        found == map_value_by_int(*old(ctx), lookup_start, path@, key),
        final(ctx).current_struct is None,
        final(ctx).same_but_current(old(ctx)),
{
    let map = lookup(ctx, lookup_start, path);
    map_entry_by_int(&ctx.heap, map, key)
}

/// Looks a map up and asks it for the string `key`.
pub fn map_lookup_by_string(
    ctx: &mut ScanContext,
    literals: &crate::string_pool::BStringPool,
    lookup_start: i32,
    path: &[i32],
    key: RuntimeString,
) -> (found: Option<TypeValue>)
    ensures
        found == map_value_by_string(*old(ctx), literals@, lookup_start, path@, key),
        final(ctx).current_struct is None,
        final(ctx).same_but_current(old(ctx)),
{
    let map = lookup(ctx, lookup_start, path);
    match string_bytes(ctx, literals, key) {
        Some(bytes) => map_entry_by_bytes(&ctx.heap, map, bytes),
        None => None,
    }
}

/// The truth value of `value` as a 32-bit integer, or undefined.
pub fn as_flag(value: Option<TypeValue>) -> (r: MaybeUndef<i32>)
    ensures
        r == maybe(
            match bool_of(value) {
                Some(b) => Some(
                    if b {
                        1i32
                    } else {
                        0i32
                    },
                ),
                None => None,
            },
        ),
{
    match value {
        Some(TypeValue::Bool(Some(v))) => MaybeUndef::Defined(
            if v {
                1
            } else {
                0
            },
        ),
        _ => MaybeUndef::Undef,
    }
}

/// Asks the map that a lookup finds for the integer under a string.
pub fn map_lookup_string_integer(
    ctx: &mut ScanContext,
    literals: &crate::string_pool::BStringPool,
    lookup_start: i32,
    path: &[i32],
    key: RuntimeString,
) -> (r: MaybeUndef<i64>)
    ensures
        r == maybe(
            integer_of(map_value_by_string(*old(ctx), literals@, lookup_start, path@, key)),
        ),
        final(ctx).current_struct is None,
        final(ctx).same_but_current(old(ctx)),
{
    as_integer(map_lookup_by_string(ctx, literals, lookup_start, path, key))
}

/// Asks the map that a lookup finds for the float under a string.
pub fn map_lookup_string_float(
    ctx: &mut ScanContext,
    literals: &crate::string_pool::BStringPool,
    lookup_start: i32,
    path: &[i32],
    key: RuntimeString,
) -> (r: MaybeUndef<Float64>)
    ensures
        r == maybe(float_of(map_value_by_string(*old(ctx), literals@, lookup_start, path@, key))),
        final(ctx).current_struct is None,
        final(ctx).same_but_current(old(ctx)),
{
    as_float(map_lookup_by_string(ctx, literals, lookup_start, path, key))
}

/// Asks the map that a lookup finds for the truth value under a string,
/// which comes back as 0 or 1.
pub fn map_lookup_string_bool(
    ctx: &mut ScanContext,
    literals: &crate::string_pool::BStringPool,
    lookup_start: i32,
    path: &[i32],
    key: RuntimeString,
) -> (r: MaybeUndef<i32>)
    ensures
        r == maybe(
            match bool_of(map_value_by_string(*old(ctx), literals@, lookup_start, path@, key)) {
                Some(b) => Some(
                    if b {
                        1i32
                    } else {
                        0i32
                    },
                ),
                None => None,
            },
        ),
        final(ctx).current_struct is None,
        final(ctx).same_but_current(old(ctx)),
{
    as_flag(map_lookup_by_string(ctx, literals, lookup_start, path, key))
}

/// Asks the map that a lookup finds for the integer under an integer.
pub fn map_lookup_integer_integer(
    ctx: &mut ScanContext,
    lookup_start: i32,
    path: &[i32],
    key: i64,
) -> (r: MaybeUndef<i64>)
    ensures
        r == maybe(integer_of(map_value_by_int(*old(ctx), lookup_start, path@, key))),
        final(ctx).current_struct is None,
        final(ctx).same_but_current(old(ctx)),
{
    as_integer(map_lookup_by_int(ctx, lookup_start, path, key))
}

/// Asks the map that a lookup finds for the float under an integer.
pub fn map_lookup_integer_float(
    ctx: &mut ScanContext,
    lookup_start: i32,
    path: &[i32],
    key: i64,
) -> (r: MaybeUndef<Float64>)
    ensures
        r == maybe(float_of(map_value_by_int(*old(ctx), lookup_start, path@, key))),
        final(ctx).current_struct is None,
        final(ctx).same_but_current(old(ctx)),
{
    as_float(map_lookup_by_int(ctx, lookup_start, path, key))
}

/// Asks the map that a lookup finds for the truth value under an integer,
/// which comes back as 0 or 1.
pub fn map_lookup_integer_bool(
    ctx: &mut ScanContext,
    lookup_start: i32,
    path: &[i32],
    key: i64,
) -> (r: MaybeUndef<i32>)
    ensures
        r == maybe(
            match bool_of(map_value_by_int(*old(ctx), lookup_start, path@, key)) {
                Some(b) => Some(
                    if b {
                        1i32
                    } else {
                        0i32
                    },
                ),
                None => None,
            },
        ),
        final(ctx).current_struct is None,
        final(ctx).same_but_current(old(ctx)),
{
    as_flag(map_lookup_by_int(ctx, lookup_start, path, key))
}

/// Asks the map that a lookup finds for the string under an integer. The
/// string becomes a string of the scan.
pub fn map_lookup_integer_string(
    ctx: &mut ScanContext,
    lookup_start: i32,
    path: &[i32],
    key: i64,
) -> (r: MaybeUndef<RuntimeString>)
    requires
        old(ctx).wf(),
        old(ctx).string_pool@.len() < u32::MAX,
    ensures
        owned_string(
            *old(ctx),
            *final(ctx),
            string_of(old(ctx).heap, map_value_by_int(*old(ctx), lookup_start, path@, key)),
            r,
        ),
        final(ctx).current_struct is None,
{
    let value = map_lookup_by_int(ctx, lookup_start, path, key);
    own_string(ctx, value)
}

/// Asks the map that a lookup finds for the string under a string. The
/// string becomes a string of the scan.
pub fn map_lookup_string_string(
    ctx: &mut ScanContext,
    literals: &crate::string_pool::BStringPool,
    lookup_start: i32,
    path: &[i32],
    key: RuntimeString,
) -> (r: MaybeUndef<RuntimeString>)
    requires
        old(ctx).wf(),
        old(ctx).string_pool@.len() < u32::MAX,
    ensures
        owned_string(
            *old(ctx),
            *final(ctx),
            string_of(
                old(ctx).heap,
                map_value_by_string(*old(ctx), literals@, lookup_start, path@, key),
            ),
            r,
        ),
        final(ctx).current_struct is None,
{
    let value = map_lookup_by_string(ctx, literals, lookup_start, path, key);
    own_string(ctx, value)
}

/// Asks the map that a lookup finds for the structure under an integer.
/// The structure becomes the current one.
pub fn map_lookup_integer_struct(
    ctx: &mut ScanContext,
    lookup_start: i32,
    path: &[i32],
    key: i64,
) -> (r: MaybeUndef<()>)
    ensures
        entered(
            *old(ctx),
            *final(ctx),
            struct_of(map_value_by_int(*old(ctx), lookup_start, path@, key)),
            -1i32,
            r,
        ),
{
    let value = map_lookup_by_int(ctx, lookup_start, path, key);
    enter(ctx, value, -1)
}

/// Asks the map that a lookup finds for the structure under a string. The
/// structure becomes the current one.
pub fn map_lookup_string_struct(
    ctx: &mut ScanContext,
    literals: &crate::string_pool::BStringPool,
    lookup_start: i32,
    path: &[i32],
    key: RuntimeString,
) -> (r: MaybeUndef<()>)
    ensures
        entered(
            *old(ctx),
            *final(ctx),
            struct_of(map_value_by_string(*old(ctx), literals@, lookup_start, path@, key)),
            -1i32,
            r,
        ),
{
    let value = map_lookup_by_string(ctx, literals, lookup_start, path, key);
    enter(ctx, value, -1)
}

/// The string has bytes: its number is in its pool, or its slice lies in
/// the scanned data.
pub open spec fn readable(ctx: ScanContext, literals: Seq<Seq<u8>>, s: RuntimeString) -> bool {
    s.bytes(literals, ctx.string_pool@, ctx.scanned_data@) is Some
}

/// The bytes of a string that has bytes.
pub open spec fn text(ctx: ScanContext, literals: Seq<Seq<u8>>, s: RuntimeString) -> Seq<u8> {
    s.bytes(literals, ctx.string_pool@, ctx.scanned_data@)->0
}

/// Tells whether the string has bytes.
pub fn is_readable(
    ctx: &ScanContext,
    literals: &crate::string_pool::BStringPool,
    s: RuntimeString,
) -> (b: bool)
    ensures
        b == readable(*ctx, literals@, s),
{
    string_bytes(ctx, literals, s).is_some()
}

/// The bytes of a string that has bytes.
pub fn text_of<'a>(
    ctx: &'a ScanContext,
    literals: &'a crate::string_pool::BStringPool,
    s: RuntimeString,
) -> (bytes: &'a [u8])
    requires
        readable(*ctx, literals@, s),
    ensures
        bytes@ == text(*ctx, literals@, s),
{
    match string_bytes(ctx, literals, s) {
        Some(bytes) => bytes,
        None => vstd::pervasive::unreached(),
    }
}

/// Tells whether two strings are the same.
pub fn str_eq(
    ctx: &ScanContext,
    literals: &crate::string_pool::BStringPool,
    lhs: RuntimeString,
    rhs: RuntimeString,
) -> (r: bool)
    requires
        readable(*ctx, literals@, lhs),
        readable(*ctx, literals@, rhs),
    ensures
        r == (text(*ctx, literals@, lhs) == text(*ctx, literals@, rhs)),
{
    let a = text_of(ctx, literals, lhs);
    let b = text_of(ctx, literals, rhs);
    equals(a, b, false)
}

/// Tells whether two strings differ.
pub fn str_ne(
    ctx: &ScanContext,
    literals: &crate::string_pool::BStringPool,
    lhs: RuntimeString,
    rhs: RuntimeString,
) -> (r: bool)
    requires
        readable(*ctx, literals@, lhs),
        readable(*ctx, literals@, rhs),
    ensures
        r == (text(*ctx, literals@, lhs) != text(*ctx, literals@, rhs)),
{
    let a = text_of(ctx, literals, lhs);
    let b = text_of(ctx, literals, rhs);
    !equals(a, b, false)
}

/// Tells whether, of two strings, the first comes before the second.
pub fn str_lt(
    ctx: &ScanContext,
    literals: &crate::string_pool::BStringPool,
    lhs: RuntimeString,
    rhs: RuntimeString,
) -> (r: bool)
    requires
        readable(*ctx, literals@, lhs),
        readable(*ctx, literals@, rhs),
    ensures
        r == (bytes_lt(text(*ctx, literals@, lhs), text(*ctx, literals@, rhs))),
{
    let a = text_of(ctx, literals, lhs);
    let b = text_of(ctx, literals, rhs);
    less(a, b)
}

/// Tells whether, of two strings, the first comes after the second.
pub fn str_gt(
    ctx: &ScanContext,
    literals: &crate::string_pool::BStringPool,
    lhs: RuntimeString,
    rhs: RuntimeString,
) -> (r: bool)
    requires
        readable(*ctx, literals@, lhs),
        readable(*ctx, literals@, rhs),
    ensures
        r == (bytes_lt(text(*ctx, literals@, rhs), text(*ctx, literals@, lhs))),
{
    let a = text_of(ctx, literals, lhs);
    let b = text_of(ctx, literals, rhs);
    less(b, a)
}

/// Tells whether, of two strings, the first does not come after the second.
pub fn str_le(
    ctx: &ScanContext,
    literals: &crate::string_pool::BStringPool,
    lhs: RuntimeString,
    rhs: RuntimeString,
) -> (r: bool)
    requires
        readable(*ctx, literals@, lhs),
        readable(*ctx, literals@, rhs),
    ensures
        r == (!bytes_lt(text(*ctx, literals@, rhs), text(*ctx, literals@, lhs))),
{
    let a = text_of(ctx, literals, lhs);
    let b = text_of(ctx, literals, rhs);
    !less(b, a)
}

/// Tells whether, of two strings, the first does not come before the second.
pub fn str_ge(
    ctx: &ScanContext,
    literals: &crate::string_pool::BStringPool,
    lhs: RuntimeString,
    rhs: RuntimeString,
) -> (r: bool)
    requires
        readable(*ctx, literals@, lhs),
        readable(*ctx, literals@, rhs),
    ensures
        r == (!bytes_lt(text(*ctx, literals@, lhs), text(*ctx, literals@, rhs))),
{
    let a = text_of(ctx, literals, lhs);
    let b = text_of(ctx, literals, rhs);
    !less(a, b)
}

/// Tells whether, of two strings, the second stands somewhere in the first.
pub fn str_contains(
    ctx: &ScanContext,
    literals: &crate::string_pool::BStringPool,
    lhs: RuntimeString,
    rhs: RuntimeString,
) -> (r: bool)
    requires
        readable(*ctx, literals@, lhs),
        readable(*ctx, literals@, rhs),
    ensures
        r == (occurs(text(*ctx, literals@, lhs), text(*ctx, literals@, rhs))),
{
    let a = text_of(ctx, literals, lhs);
    let b = text_of(ctx, literals, rhs);
    contains(a, b, false)
}

/// Tells whether, of two strings, the first starts with the second.
pub fn str_startswith(
    ctx: &ScanContext,
    literals: &crate::string_pool::BStringPool,
    lhs: RuntimeString,
    rhs: RuntimeString,
) -> (r: bool)
    requires
        readable(*ctx, literals@, lhs),
        readable(*ctx, literals@, rhs),
    ensures
        r == (occurs_at(text(*ctx, literals@, lhs), text(*ctx, literals@, rhs), 0)),
{
    let a = text_of(ctx, literals, lhs);
    let b = text_of(ctx, literals, rhs);
    starts_with(a, b, false)
}

/// Tells whether, of two strings, the first ends with the second.
pub fn str_endswith(
    ctx: &ScanContext,
    literals: &crate::string_pool::BStringPool,
    lhs: RuntimeString,
    rhs: RuntimeString,
) -> (r: bool)
    requires
        readable(*ctx, literals@, lhs),
        readable(*ctx, literals@, rhs),
    ensures
        r == (occurs_at(
            text(*ctx, literals@, lhs),
            text(*ctx, literals@, rhs),
            text(*ctx, literals@, lhs).len() - text(*ctx, literals@, rhs).len(),
        )),
{
    let a = text_of(ctx, literals, lhs);
    let b = text_of(ctx, literals, rhs);
    ends_with(a, b, false)
}

/// Tells whether, of two strings, the second stands somewhere in the first, the case of ASCII letters ignored.
pub fn str_icontains(
    ctx: &ScanContext,
    literals: &crate::string_pool::BStringPool,
    lhs: RuntimeString,
    rhs: RuntimeString,
) -> (r: bool)
    requires
        readable(*ctx, literals@, lhs),
        readable(*ctx, literals@, rhs),
    ensures
        r == (occurs(
            folded(text(*ctx, literals@, lhs), true),
            folded(text(*ctx, literals@, rhs), true),
        )),
{
    let a = text_of(ctx, literals, lhs);
    let b = text_of(ctx, literals, rhs);
    contains(a, b, true)
}

/// Tells whether, of two strings, the first starts with the second, the case of ASCII letters ignored.
pub fn str_istartswith(
    ctx: &ScanContext,
    literals: &crate::string_pool::BStringPool,
    lhs: RuntimeString,
    rhs: RuntimeString,
) -> (r: bool)
    requires
        readable(*ctx, literals@, lhs),
        readable(*ctx, literals@, rhs),
    ensures
        r == (occurs_at(
            folded(text(*ctx, literals@, lhs), true),
            folded(text(*ctx, literals@, rhs), true),
            0,
        )),
{
    let a = text_of(ctx, literals, lhs);
    let b = text_of(ctx, literals, rhs);
    starts_with(a, b, true)
}

/// Tells whether, of two strings, the first ends with the second, the case of ASCII letters ignored.
pub fn str_iendswith(
    ctx: &ScanContext,
    literals: &crate::string_pool::BStringPool,
    lhs: RuntimeString,
    rhs: RuntimeString,
) -> (r: bool)
    requires
        readable(*ctx, literals@, lhs),
        readable(*ctx, literals@, rhs),
    ensures
        r == (occurs_at(
            folded(text(*ctx, literals@, lhs), true),
            folded(text(*ctx, literals@, rhs), true),
            text(*ctx, literals@, lhs).len() - text(*ctx, literals@, rhs).len(),
        )),
{
    let a = text_of(ctx, literals, lhs);
    let b = text_of(ctx, literals, rhs);
    ends_with(a, b, true)
}

/// Tells whether two strings are the same, the case of ASCII letters ignored.
pub fn str_iequals(
    ctx: &ScanContext,
    literals: &crate::string_pool::BStringPool,
    lhs: RuntimeString,
    rhs: RuntimeString,
) -> (r: bool)
    requires
        readable(*ctx, literals@, lhs),
        readable(*ctx, literals@, rhs),
    ensures
        r == (folded(text(*ctx, literals@, lhs), true) == folded(text(*ctx, literals@, rhs), true)),
{
    let a = text_of(ctx, literals, lhs);
    let b = text_of(ctx, literals, rhs);
    equals(a, b, true)
}

/// The length of a string, in bytes.
pub fn str_len(ctx: &ScanContext, literals: &crate::string_pool::BStringPool, s: RuntimeString) -> (len:
    i64)
    requires
        readable(*ctx, literals@, s),
    ensures
        len == text(*ctx, literals@, s).len() as i64,
{
    #[verifier::truncate]
    (text_of(ctx, literals, s).len() as i64)
}

} // verus!
