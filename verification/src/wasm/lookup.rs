//! Field lookups: how the host finds the value that a chain of field
//! accesses such as `module.structure.field` names.
//!
//! The machine hands over the indices of the fields, one for each step of
//! the chain, and the place to start: the structure with the modules, a loop
//! variable that holds a structure, or the structure that the lookup before
//! ended in.

use crate::scanner::ScanContext;
use crate::types::{Heap, TypeValue};
use crate::wasm::layout::LOOKUP_INDEXES_START;
use vstd::prelude::*;

verus! {

/// The structure in which a lookup starts: the current structure if there
/// is one; else the structure in the loop variable `lookup_start`, unless
/// that is -1; else the structure with the modules.
pub open spec fn start_struct(ctx: ScanContext, lookup_start: i32) -> Option<usize> {
    match ctx.current_struct {
        Some(s) => Some(s),
        None => if lookup_start == -1 {
            Some(ctx.root_struct)
        } else if 0 <= lookup_start < ctx.vars_stack@.len() {
            match ctx.vars_stack@[lookup_start as int] {
                TypeValue::Struct(s) => Some(s),
                _ => None,
            }
        } else {
            None
        },
    }
}

/// Follows the indices `path[k..]` from the structure `structure`: each
/// index names a field of the structure reached so far, and a field that is
/// a structure becomes the structure for the next index. `last` is the
/// value of the field passed last. The result is the value of the last
/// field, or nothing where an index names no field.
pub open spec fn walk(
    heap: Heap,
    structure: usize,
    path: Seq<i32>,
    k: int,
    last: Option<TypeValue>,
) -> Option<TypeValue>
    decreases path.len() - k,
{
    if k < 0 || k >= path.len() {
        last
    } else {
        match heap.field(structure, path[k] as int) {
            None => None,
            Some(value) => walk(
                heap,
                match value {
                    TypeValue::Struct(s) => s,
                    _ => structure,
                },
                path,
                k + 1,
                Some(value),
            ),
        }
    }
}

/// The value that a lookup finds. With indices, the value of the last
/// field on the path from the start; without, the value of the loop
/// variable `lookup_start`.
pub open spec fn looked_up(ctx: ScanContext, lookup_start: i32, path: Seq<i32>) -> Option<
    TypeValue,
> {
    if path.len() > 0 {
        match start_struct(ctx, lookup_start) {
            Some(s) => walk(ctx.heap, s, path, 0, None),
            None => None,
        }
    } else if 0 <= lookup_start < ctx.vars_stack@.len() {
        Some(ctx.vars_stack@[lookup_start as int])
    } else {
        None
    }
}

/// Finds the value that the indices `path` lead to, and forgets the current
/// structure.
pub fn lookup(ctx: &mut ScanContext, lookup_start: i32, path: &[i32]) -> (value: Option<TypeValue>)
    ensures
        value == looked_up(*old(ctx), lookup_start, path@),
        final(ctx).current_struct is None,
        final(ctx).same_but_current(old(ctx)),
{
    let value = find(ctx, lookup_start, path);
    ctx.current_struct = None;
    value
}

/// Finds the value that the indices `path` lead to.
#[verifier::loop_isolation(false)]
pub fn find(ctx: &ScanContext, lookup_start: i32, path: &[i32]) -> (value: Option<TypeValue>)
    ensures
        value == looked_up(*ctx, lookup_start, path@),
{
    if path.len() == 0 {
        if lookup_start >= 0 && (lookup_start as usize) < ctx.vars_stack.len() {
            return Some(ctx.vars_stack[lookup_start as usize]);
        }
        return None;
    }
    let mut structure = match ctx.current_struct {
        Some(s) => s,
        None => {
            if lookup_start == -1 {
                ctx.root_struct
            } else if lookup_start >= 0 && (lookup_start as usize) < ctx.vars_stack.len() {
                match ctx.vars_stack[lookup_start as usize] {
                    TypeValue::Struct(s) => s,
                    _ => {
                        return None;
                    },
                }
            } else {
                return None;
            }
        },
    };
    let ghost goal = looked_up(*ctx, lookup_start, path@);
    let mut last: Option<TypeValue> = None;
    let mut k: usize = 0;
    while k < path.len()
        invariant
            k <= path@.len(),
            goal == walk(ctx.heap, structure, path@, k as int, last),
        decreases path@.len() - k,
    {
        let index = path[k];
        if index < 0 {
            return None;
        }
        let value = match ctx.heap.field_value(structure, index as usize) {
            Some(value) => value,
            None => {
                return None;
            },
        };
        match value {
            TypeValue::Struct(s) => {
                structure = s;
            },
            _ => {},
        }
        last = Some(value);
        k += 1;
    }
    last
}

/// The 32-bit integer that four bytes spell, least significant byte first.
pub open spec fn le_i32(bytes: Seq<u8>) -> i32 {
    (bytes[0] as u32 | (bytes[1] as u32) << 8 | (bytes[2] as u32) << 16 | (bytes[3] as u32)
        << 24) as i32
}

/// The indices of a lookup as the machine left them in its memory:
/// `count` integers of 32 bits, least significant byte first, from
/// `LOOKUP_INDEXES_START` on.
pub open spec fn stored_indexes(mem: Seq<u8>, count: int) -> Seq<i32> {
    Seq::new(
        count as nat,
        |i: int| le_i32(mem.subrange(LOOKUP_INDEXES_START + 4 * i, LOOKUP_INDEXES_START + 4 * i + 4)),
    )
}

/// Reads the indices of a lookup from the machine's memory. `None` where
/// the count is negative or the indices would not lie in the space that the
/// memory has for them.
pub fn lookup_indexes(mem: &[u8], lookup_stack_top: i32) -> (indexes: Option<Vec<i32>>)
    ensures
        match indexes {
            Some(v) => 0 <= lookup_stack_top <= 256 && mem@.len() >= 2048 && v@ == stored_indexes(
                mem@,
                lookup_stack_top as int,
            ),
            None => !(0 <= lookup_stack_top <= 256 && mem@.len() >= 2048),
        },
{
    if lookup_stack_top < 0 || lookup_stack_top > 256 || mem.len() < 2048 {
        return None;
    }
    let count = lookup_stack_top as usize;
    let mut indexes: Vec<i32> = Vec::new();
    let mut i: usize = 0;
    while i < count
        invariant
            i <= count <= 256,
            mem@.len() >= 2048,
            indexes@ == stored_indexes(mem@, i as int),
        decreases count - i,
    {
        let at = 1024 + 4 * i;
        let value: u32 = mem[at] as u32 | (mem[at + 1] as u32) << 8 | (mem[at + 2] as u32) << 16
            | (mem[at + 3] as u32) << 24;
        indexes.push(#[verifier::truncate] (value as i32));
        proof {
            let bytes = mem@.subrange(LOOKUP_INDEXES_START + 4 * i, LOOKUP_INDEXES_START + 4 * i + 4);
            assert(bytes[0] == mem@[at as int]);
            assert(bytes[1] == mem@[at + 1]);
            assert(bytes[2] == mem@[at + 2]);
            assert(bytes[3] == mem@[at + 3]);
            assert(indexes@ =~= stored_indexes(mem@, i + 1));
        }
        i += 1;
    }
    Some(indexes)
}

/// A lookup along the indices of a path, each of which names a field of
/// the structure that the index before it led to, finds the last of these
/// fields.
pub proof fn lemma_walk_structs(heap: Heap, structure: usize, path: Seq<i32>, k: int, last: Option<
    TypeValue,
>, fields: Seq<TypeValue>)
    requires
        0 <= k <= path.len(),
        fields.len() == path.len(),
        k > 0 ==> last == Some(fields[k - 1]),
        k < path.len() ==> heap.field(structure, path[k] as int) == Some(fields[k]),
        forall|i: int|
            k <= i < path.len() - 1 ==> (#[trigger] fields[i]) is Struct && heap.field(
                fields[i]->Struct_0,
                path[i + 1] as int,
            ) == Some(fields[i + 1]),
        path.len() > 0,
    ensures
        walk(heap, structure, path, k, last) == Some(fields.last()),
    decreases path.len() - k,
{
    if k < path.len() {
        let value = fields[k];
        if k < path.len() - 1 {
            let s = value->Struct_0;
            lemma_walk_structs(heap, s, path, k + 1, Some(value), fields);
        } else {
            let next = match value {
                TypeValue::Struct(s) => s,
                _ => structure,
            };
            lemma_walk_structs(heap, next, path, k + 1, Some(value), fields);
        }
    }
}

} // verus!
