//! The names under which the functions of the host are linked to the
//! machine, and the numbers under which the generated code calls them.

use crate::modules::{owner_from, ModuleRegistry};
use crate::name_index::NameIndex;
use crate::wasm::exports::{qualified, WasmExport};
use vstd::prelude::*;

verus! {

/// The name under which an export is linked.
pub open spec fn linked_name(modules: &ModuleRegistry, export: WasmExport) -> Seq<char> {
    match owner_from(modules.modules(), export.rust_module_path@, 0) {
        Some(i) => qualified(modules.modules()[i].name@, export.mangled_name@),
        None => export.mangled_name@,
    }
}

/// For each export, the path of its Rust module and the name under which
/// it is linked, in the order of the exports.
pub fn link_names(exports: &[WasmExport], modules: &ModuleRegistry) -> (names: Vec<(String, String)>)
    ensures
        names@.len() == exports@.len(),
        forall|i: int|
            0 <= i < names@.len() ==> (#[trigger] names@[i]).0@ == exports@[i].rust_module_path@
                && names@[i].1@ == linked_name(modules, exports@[i]),
{
    let mut names: Vec<(String, String)> = Vec::new();
    let mut i: usize = 0;
    while i < exports.len()
        invariant
            i <= exports@.len(),
            names@.len() == i,
            forall|j: int|
                0 <= j < i ==> (#[trigger] names@[j]).0@ == exports@[j].rust_module_path@
                    && names@[j].1@ == linked_name(modules, exports@[j]),
        decreases exports@.len() - i,
    {
        let export = &exports[i];
        names.push(
            (export.rust_module_path.clone(), export.fully_qualified_mangled_name(modules)),
        );
        i += 1;
    }
    names
}

/// The functions that the generated code can call, each under its linked
/// name. A function's number is the position at which its name was first
/// added.
pub struct FunctionTable {
    names: NameIndex,
}

impl FunctionTable {
    /// The linked names, each at the position that is the function's
    /// number.
    pub closed spec fn view(&self) -> Seq<Seq<char>> {
        self.names@
    }

    pub closed spec fn wf(&self) -> bool {
        self.names.wf()
    }

    /// In a well-formed table no name stands at two positions.
    pub proof fn lemma_distinct(&self, i: int, j: int)
        requires
            self.wf(),
            0 <= i < self@.len(),
            0 <= j < self@.len(),
            self@[i] == self@[j],
        ensures
            i == j,
    {
        self.names.lemma_distinct(i, j);
    }

    /// A table without functions.
    pub fn new() -> (table: FunctionTable)
        ensures
            table.wf(),
            table@.len() == 0,
    {
        FunctionTable { names: NameIndex::new() }
    }

    /// Adds a function under its linked name and returns its number. A
    /// name that the table holds keeps its number.
    pub fn add(&mut self, name: &str) -> (id: usize)
        requires
            old(self).wf(),
        ensures
            final(self).wf(),
            id < final(self)@.len(),
            final(self)@[id as int] == name@,
            old(self)@.contains(name@) ==> final(self)@ == old(self)@,
            !old(self)@.contains(name@) ==> final(self)@ == old(self)@.push(name@) && id == old(
                self,
            )@.len(),
    {
        self.names.insert(name)
    }

    /// Tells whether the table holds a function of that name.
    pub fn contains(&self, fn_name: &str) -> (b: bool)
        requires
            self.wf(),
        ensures
            b == self@.contains(fn_name@),
    {
        self.names.get(fn_name).is_some()
    }

    /// Given a function's linked name returns its number.
    pub fn function_id(&self, fn_name: &str) -> (id: usize)
        requires
            self.wf(),
            self@.contains(fn_name@),
        ensures
            id < self@.len(),
            self@[id as int] == fn_name@,
    {
        match self.names.get(fn_name) {
            Some(id) => id,
            None => vstd::pervasive::unreached(),
        }
    }
}

} // verus!
