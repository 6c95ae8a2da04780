//! The state of a scan, as the functions of the host see it, and the
//! evaluation of conditions on it.

pub mod eval;
pub mod laws;
pub mod scan;
pub mod values;

use crate::compiler::ids::RuleId;
use crate::string_pool::BStringPool;
use crate::types::{Heap, TypeValue};
use vstd::prelude::*;

verus! {

/// What a scan works on: the data, the structures that the modules filled
/// for it, the loop variables that do not fit in the machine's memory, and
/// the rules that matched so far.
pub struct ScanContext {
    /// The data that is being scanned.
    pub scanned_data: Vec<u8>,
    /// The structures, arrays, maps and strings of the modules.
    pub heap: Heap,
    /// Number of the structure with one field for each imported module.
    pub root_struct: usize,
    /// The structure in which the next field lookup starts, where the last
    /// lookup ended in a structure of an array or a map.
    pub current_struct: Option<usize>,
    /// The loop variables that hold structures, arrays and maps. It mirrors
    /// the stack of loop variables in the machine's memory.
    pub vars_stack: Vec<TypeValue>,
    /// The numbers of the rules that matched, in the order of matching.
    pub rules_matching: Vec<RuleId>,
    /// The strings made during the scan.
    pub string_pool: BStringPool,
}

impl ScanContext {
    /// The pool of the scan is well formed.
    pub open spec fn wf(&self) -> bool {
        self.string_pool.wf()
    }

    /// The scan differs from `other` in the current structure at most.
    pub open spec fn same_but_current(&self, other: &ScanContext) -> bool {
        &&& self.scanned_data == other.scanned_data
        &&& self.heap == other.heap
        &&& self.root_struct == other.root_struct
        &&& self.vars_stack == other.vars_stack
        &&& self.rules_matching == other.rules_matching
        &&& self.string_pool == other.string_pool
    }

    /// A scan of `scanned_data` with the structures of `heap`, of which
    /// `root_struct` holds the modules.
    pub fn new(scanned_data: Vec<u8>, heap: Heap, root_struct: usize) -> (ctx: ScanContext)
        ensures
            ctx.wf(),
            ctx.scanned_data == scanned_data,
            ctx.heap == heap,
            ctx.root_struct == root_struct,
            ctx.current_struct is None,
            ctx.vars_stack@.len() == 0,
            ctx.rules_matching@.len() == 0,
            ctx.string_pool@.len() == 0,
    {
        ScanContext {
            scanned_data,
            heap,
            root_struct,
            current_struct: None,
            vars_stack: Vec::new(),
            rules_matching: Vec::new(),
            string_pool: BStringPool::new(),
        }
    }

    /// The data that is being scanned.
    pub fn scanned_data(&self) -> (data: &[u8])
        ensures
            data@ == self.scanned_data@,
    {
        self.scanned_data.as_slice()
    }

    /// The size of the scanned data: the value of `filesize`.
    pub fn filesize(&self) -> (size: i64)
        requires
            self.scanned_data@.len() <= i64::MAX,
        ensures
            size == self.scanned_data@.len(),
    {
        self.scanned_data.len() as i64
    }
}

} // verus!
