//! The registry of the modules that rules can import.
//!
//! A module gives rule conditions a structure of typed fields and,
//! optionally, functions. The registry is filled once, when the program
//! starts, and only read afterwards.

pub mod magic;
pub mod pe;

use crate::name_index::NameIndex;
use crate::types::{Func, FuncSignature, Heap, Struct, TypeValue};
use crate::wasm::exports::{
    functions_of, is_substring, module_functions, public_exports, qualified,
    qualified_name, WasmExport,
};
use vstd::prelude::*;

verus! {

/// Describes a YARA module.
pub struct Module {
    /// The name under which rules import the module.
    pub name: String,
    /// Full name of the message that describes the module's structure.
    pub root_message: String,
    /// Name of the Rust module, if any, that holds the functions that the
    /// module exports.
    pub rust_module_name: Option<String>,
    /// Whether the module has a main function, which fills the structure
    /// for the data that is scanned.
    pub has_main: bool,
    /// Number, in the registry's heap, of the module's structure.
    pub root_struct: usize,
}

/// A function that is in scope in every condition, such as `uint8`.
pub struct Builtin {
    /// The name under which rules call the function.
    pub name: String,
    /// Number of the function in the registry's heap.
    pub func: usize,
}

/// The modules that are built in, each under its name, and the functions
/// that are in scope everywhere.
pub struct ModuleRegistry {
    heap: Heap,
    modules: Vec<Module>,
    names: NameIndex,
    builtins: Vec<Builtin>,
}

impl ModuleRegistry {
    /// The modules, in the order in which they were added.
    pub closed spec fn modules(&self) -> Seq<Module> {
        self.modules@
    }

    /// The structures and functions of the modules.
    pub closed spec fn heap(&self) -> Heap {
        self.heap
    }

    /// The functions that are in scope everywhere, in the order in which
    /// they were added.
    pub closed spec fn builtins(&self) -> Seq<Builtin> {
        self.builtins@
    }

    /// The names of the modules, in the order in which they were added.
    pub open spec fn names(&self) -> Seq<Seq<char>> {
        Seq::new(self.modules().len(), |i: int| self.modules()[i].name@)
    }

    /// Every module stands under its own name, its structure is on the
    /// heap, and the heap is well formed.
    pub closed spec fn wf(&self) -> bool {
        &&& self.names.wf()
        &&& self.names@ == self.names()
        &&& self.heap.wf()
        &&& forall|i: int|
            0 <= i < self.modules@.len() ==> (#[trigger] self.modules@[i]).root_struct
                < self.heap.structs@.len()
        &&& forall|i: int|
            0 <= i < self.builtins@.len() ==> (#[trigger] self.builtins@[i]).func
                < self.heap.funcs@.len()
    }

    /// In a well-formed registry no two modules have the same name, and the
    /// structure of every module exists.
    pub proof fn lemma_wf(&self, i: int, j: int)
        requires
            self.wf(),
            0 <= i < self.modules().len(),
            0 <= j < self.modules().len(),
        ensures
            self.heap().wf(),
            self.modules()[i].root_struct < self.heap().structs@.len(),
            self.modules()[i].name@ == self.modules()[j].name@ ==> i == j,
    {
        if self.modules()[i].name@ == self.modules()[j].name@ {
            assert(self.names()[i] == self.names()[j]);
            self.names.lemma_distinct(i, j);
        }
    }

    /// The heap of a well-formed registry is well formed.
    pub proof fn lemma_heap(&self)
        requires
            self.wf(),
        ensures
            self.heap().wf(),
    {
    }

    /// A registry without modules.
    pub fn new() -> (registry: ModuleRegistry)
        ensures
            registry.wf(),
            registry.modules().len() == 0,
    {
        let registry = ModuleRegistry {
            heap: Heap::new(),
            modules: Vec::new(),
            names: NameIndex::new(),
            builtins: Vec::new(),
        };
        assert(registry.names@ =~= registry.names());
        registry
    }

    /// Adds the public functions among `exports` as functions that are in
    /// scope everywhere. Each gets a function of its own on the heap, with
    /// its mangled name as the one signature.
    pub fn add_builtins(&mut self, exports: &[WasmExport])
        requires
            old(self).wf(),
        ensures
            final(self).wf(),
            final(self).modules() == old(self).modules(),
            final(self).heap().structs == old(self).heap().structs,
            final(self).builtins().len() == old(self).builtins().len() + public_exports(
                exports@,
                exports@.len() as int,
            ).len(),
            final(self).heap().funcs@.len() == old(self).heap().funcs@.len() + public_exports(
                exports@,
                exports@.len() as int,
            ).len(),
            forall|i: int|
                0 <= i < old(self).builtins().len() ==> final(self).builtins()[i] == old(
                    self,
                ).builtins()[i],
            forall|i: int|
                0 <= i < old(self).heap().funcs@.len() ==> final(self).heap().funcs@[i] == old(
                    self,
                ).heap().funcs@[i],
            forall|k: int|
                0 <= k < public_exports(exports@, exports@.len() as int).len() ==> {
                    let export = public_exports(exports@, exports@.len() as int)[k];
                    let builtin = #[trigger] final(self).builtins()[old(self).builtins().len() + k];
                    &&& builtin.name@ == export.name@
                    &&& builtin.func == old(self).heap().funcs@.len() + k
                    &&& final(self).heap().funcs@[builtin.func as int]@ == seq![
                        export.mangled_name@,
                    ]
                },
    {
        let ghost before = *self;
        let mut i: usize = 0;
        while i < exports.len()
            invariant
                i <= exports@.len(),
                before == *old(self),
                self.wf(),
                self.modules == before.modules,
                self.names == before.names,
                self.heap.structs == before.heap.structs,
                self.builtins@.len() == before.builtins@.len() + public_exports(
                    exports@,
                    i as int,
                ).len(),
                self.heap.funcs@.len() == before.heap.funcs@.len() + public_exports(
                    exports@,
                    i as int,
                ).len(),
                forall|j: int|
                    0 <= j < before.builtins@.len() ==> self.builtins@[j] == before.builtins@[j],
                forall|j: int|
                    0 <= j < before.heap.funcs@.len() ==> self.heap.funcs@[j]
                        == before.heap.funcs@[j],
                forall|k: int|
                    0 <= k < public_exports(exports@, i as int).len() ==> {
                        let export = public_exports(exports@, i as int)[k];
                        let builtin = #[trigger] self.builtins@[before.builtins@.len() + k];
                        &&& builtin.name@ == export.name@
                        &&& builtin.func == before.heap.funcs@.len() + k
                        &&& self.heap.funcs@[builtin.func as int]@ == seq![export.mangled_name@]
                    },
            decreases exports@.len() - i,
        {
            let export = &exports[i];
            if export.public {
                let ghost seen = public_exports(exports@, i as int);
                let func = self.heap.add_func(
                    Func::with_signature(
                        FuncSignature { mangled_name: export.mangled_name.clone() },
                    ),
                );
                self.builtins.push(Builtin { name: export.name.clone(), func });
                proof {
                    assert(public_exports(exports@, i + 1) == seen.push(exports@[i as int]));
                    assert(self.names() =~= before.names());
                    assert forall|k: int|
                        0 <= k < public_exports(exports@, i + 1).len() implies {
                        let export = public_exports(exports@, i + 1)[k];
                        let builtin = #[trigger] self.builtins@[before.builtins@.len() + k];
                        &&& builtin.name@ == export.name@
                        &&& builtin.func == before.heap.funcs@.len() + k
                        &&& self.heap.funcs@[builtin.func as int]@ == seq![export.mangled_name@]
                    } by {
                        if k < seen.len() {
                            assert(public_exports(exports@, i + 1)[k] == seen[k]);
                        }
                    }
                }
            }
            i += 1;
        }
    }

    /// The functions that are in scope everywhere.
    pub fn builtin_functions(&self) -> (builtins: &Vec<Builtin>)
        ensures
            builtins@ == self.builtins(),
    {
        &self.builtins
    }

    /// How many modules the registry holds.
    pub fn len(&self) -> (n: usize)
        ensures
            n == self.modules().len(),
    {
        self.modules.len()
    }

    /// The heap that holds the structures of the modules.
    pub fn structures(&self) -> (heap: &Heap)
        ensures
            *heap == self.heap(),
    {
        &self.heap
    }

    /// Puts a structure on the registry's heap, for a module's structure to
    /// refer to, and returns its number.
    pub fn add_struct(&mut self, s: Struct) -> (id: usize)
        requires
            old(self).wf(),
            s.wf(),
        ensures
            final(self).wf(),
            final(self).modules() == old(self).modules(),
            id == old(self).heap().structs@.len(),
            final(self).heap().structs@ == old(self).heap().structs@.push(s),
            final(self).heap().funcs == old(self).heap().funcs,
            final(self).builtins() == old(self).builtins(),
    {
        let id = self.heap.add_struct(s);
        proof {
            assert(self.names() =~= old(self).names());
        }
        id
    }

    /// Tells whether the registry holds a module of that name.
    pub fn contains(&self, name: &str) -> (b: bool)
        requires
            self.wf(),
        ensures
            b == self.names().contains(name@),
    {
        self.names.get(name).is_some()
    }

    /// Adds a module. Its structure is `root`, followed by one field for
    /// each function that the Rust module `rust_module_name` exports.
    /// Returns the module's position, or `None` where the registry holds a
    /// module of that name already, and then changes nothing.
    pub fn add_module(
        &mut self,
        name: &str,
        root_message: &str,
        rust_module_name: Option<&str>,
        has_main: bool,
        root: Struct,
        exports: &[WasmExport],
    ) -> (at: Option<usize>)
        requires
            old(self).wf(),
            root.wf(),
        ensures
            final(self).wf(),
            old(self).names().contains(name@) ==> at is None && *final(self) == *old(self),
            !old(self).names().contains(name@) ==> {
                let module = final(self).modules().last();
                let functions = match rust_module_name {
                    Some(r) => functions_of(exports@, name@, r@),
                    None => Seq::empty(),
                };
                let s = final(self).heap().structs@[module.root_struct as int];
                &&& at == Some(old(self).modules().len() as usize)
                &&& final(self).modules() == old(self).modules().push(module)
                &&& module.name@ == name@
                &&& module.root_message@ == root_message@
                &&& module.has_main == has_main
                &&& match rust_module_name {
                    Some(r) => module.rust_module_name is Some && module.rust_module_name->0@
                        == r@,
                    None => module.rust_module_name is None,
                }
                &&& module.root_struct == old(self).heap().structs@.len()
                &&& final(self).heap().structs@.len() == old(self).heap().structs@.len() + 1
                &&& forall|i: int|
                    0 <= i < old(self).heap().structs@.len() ==> final(self).heap().structs@[i]
                        == old(self).heap().structs@[i]
                &&& extended_by(
                    root,
                    s,
                    functions,
                    final(self).heap().funcs@,
                    old(self).heap().funcs@.len() as int,
                )
                &&& final(self).builtins() == old(self).builtins()
                &&& forall|i: int|
                    0 <= i < old(self).heap().funcs@.len() ==> final(self).heap().funcs@[i]
                        == old(self).heap().funcs@[i]
            },
    {
        if self.names.get(name).is_some() {
            return None;
        }
        let ghost before = *self;
        let ghost functions = match rust_module_name {
            Some(r) => functions_of(exports@, name@, r@),
            None => Seq::empty(),
        };
        let mut root = root;
        let ghost root0 = root;
        let ghost base = self.heap.funcs@.len() as int;
        match rust_module_name {
            Some(r) => {
                let (names, funcs) = module_functions(exports, name, r);
                let mut funcs = funcs;
                let n = funcs.len();
                let ghost all = funcs@;
                // Functions can only leave a vector at its end: turn the
                // vector round first, so that they leave in their order.
                let mut i: usize = 0;
                let mut rest: Vec<Func> = Vec::new();
                while funcs.len() > 0
                    invariant
                        funcs@.len() + rest@.len() == n,
                        forall|j: int| 0 <= j < funcs@.len() ==> funcs@[j] == all[j],
                        forall|j: int|
                            0 <= j < rest@.len() ==> rest@[j] == all[n - 1 - j],
                    decreases funcs@.len(),
                {
                    let f = funcs.pop().unwrap();
                    rest.push(f);
                }
                while i < n
                    invariant
                        i <= n,
                        n == all.len(),
                        n == names@.len(),
                        names.wf(),
                        rest@.len() == n - i,
                        forall|j: int|
                            0 <= j < rest@.len() ==> rest@[j] == all[n - 1 - j],
                        root0.wf(),
                        base == before.heap.funcs@.len(),
                        self.heap.wf(),
                        self.heap.structs == before.heap.structs,
                        self.modules == before.modules,
                        self.names == before.names,
                        self.builtins == before.builtins,
                        root.wf(),
                        self.heap.funcs@.len() == base + i,
                        forall|j: int| 0 <= j < base ==> self.heap.funcs@[j] == before.heap.funcs@[j],
                        forall|j: int| 0 <= j < i ==> self.heap.funcs@[base + j] == all[j],
                        extended_with(root0, root, names@.take(i as int), base),
                    decreases n - i,
                {
                    let f = rest.pop().unwrap();
                    assert(f == all[i as int]);
                    let ghost funcs_before = self.heap.funcs@;
                    let id = self.heap.add_func(f);
                    assert(forall|j: int|
                        0 <= j < base + i ==> self.heap.funcs@[j] == funcs_before[j]);
                    assert(self.heap.funcs@[base + i] == all[i as int]);
                    let ghost prev = root;
                    let at = root.add_field(names.name(i), TypeValue::Func(id));
                    proof {
                        lemma_extend_step(root0, prev, root, names, base, i as int, at as int);
                    }
                    i += 1;
                }
                proof {
                    assert(names@.take(n as int) =~= names@);
                    assert(function_names(functions) =~= names@);
                    assert forall|k: int| 0 <= k < functions.len() implies (
                    #[trigger] self.heap.funcs@[base + k])@ == functions[k].1 by {
                        assert(self.heap.funcs@[base + k] == all[k]);
                    }
                }
            },
            None => {
                proof {
                    assert(function_names(functions) =~= Seq::<Seq<char>>::empty());
                }
            },
        }
        let root_struct = self.heap.add_struct(root);
        let at = self.modules.len();
        self.names.insert(name);
        let rust_module_name = match rust_module_name {
            Some(r) => Some(String::from_str(r)),
            None => None,
        };
        self.modules.push(
            Module {
                name: String::from_str(name),
                root_message: String::from_str(root_message),
                rust_module_name,
                has_main,
                root_struct,
            },
        );
        proof {
            assert(self.names() =~= before.names().push(name@));
            assert(self.modules() =~= before.modules().push(self.modules().last()));
        }
        Some(at)
    }
}

/// The position of the first module at or after `i` whose Rust module is
/// named in `path`, if there is one.
pub open spec fn owner_from(modules: Seq<Module>, path: Seq<char>, i: int) -> Option<int>
    decreases modules.len() - i,
{
    if i < 0 || i >= modules.len() {
        None
    } else if modules[i].rust_module_name is Some && is_substring(
        modules[i].rust_module_name->0@,
        path,
    ) {
        Some(i)
    } else {
        owner_from(modules, path, i + 1)
    }
}

/// The position of the first module at or after `i` whose structure is
/// described by the message `root_message`, if there is one.
pub open spec fn described_from(modules: Seq<Module>, root_message: Seq<char>, i: int) -> Option<
    int,
>
    decreases modules.len() - i,
{
    if i < 0 || i >= modules.len() {
        None
    } else if modules[i].root_message@ == root_message {
        Some(i)
    } else {
        described_from(modules, root_message, i + 1)
    }
}

impl ModuleRegistry {
    /// The module with the given name.
    pub fn get(&self, name: &str) -> (module: Option<&Module>)
        requires
            self.wf(),
        ensures
            match module {
                Some(m) => m.name@ == name@ && self.modules().contains(*m),
                None => !self.names().contains(name@),
            },
    {
        match self.names.get(name) {
            Some(i) => {
                proof {
                    assert(self.names()[i as int] == name@);
                    assert(self.modules()[i as int] == self.modules@[i as int]);
                }
                Some(&self.modules[i])
            },
            None => None,
        }
    }

    /// The position of the module with the given name.
    pub fn position(&self, name: &str) -> (at: Option<usize>)
        requires
            self.wf(),
        ensures
            match at {
                Some(i) => i < self.modules().len() && self.modules()[i as int].name@ == name@,
                None => !self.names().contains(name@),
            },
    {
        let at = self.names.get(name);
        proof {
            if at is Some {
                assert(self.names()[at->0 as int] == name@);
            }
        }
        at
    }

    /// The module at the given position.
    pub fn module_at(&self, i: usize) -> (module: &Module)
        requires
            i < self.modules().len(),
        ensures
            *module == self.modules()[i as int],
    {
        &self.modules[i]
    }

    /// The position of the first module whose structure is described by
    /// the message with the given full name.
    pub fn find_by_root_message(&self, root_message: &str) -> (at: Option<usize>)
        ensures
            match at {
                Some(i) => described_from(self.modules(), root_message@, 0) == Some(i as int),
                None => described_from(self.modules(), root_message@, 0) is None,
            },
    {
        let mut i: usize = 0;
        while i < self.modules.len()
            invariant
                i <= self.modules.len(),
                described_from(self.modules(), root_message@, 0) == described_from(
                    self.modules(),
                    root_message@,
                    i as int,
                ),
            decreases self.modules.len() - i,
        {
            if string_equal(self.modules[i].root_message.as_str(), root_message) {
                return Some(i);
            }
            i += 1;
        }
        None
    }

    /// Tells whether calling the module whose structure the message
    /// `root_message` describes produces anything: whether there is such a
    /// module and it has a main function. The first such module counts.
    pub fn can_invoke(&self, root_message: &str) -> (b: bool)
        ensures
            b == match described_from(self.modules(), root_message@, 0) {
                Some(i) => self.modules()[i].has_main,
                None => false,
            },
    {
        match self.find_by_root_message(root_message) {
            Some(i) => {
                proof {
                    lemma_described_from(self.modules(), root_message@, 0);
                }
                self.modules[i].has_main
            },
            None => false,
        }
    }
}

/// What `described_from` finds lies in range.
pub proof fn lemma_described_from(modules: Seq<Module>, root_message: Seq<char>, i: int)
    requires
        0 <= i,
    ensures
        described_from(modules, root_message, i) matches Some(k) ==> i <= k < modules.len()
            && modules[k].root_message@ == root_message,
    decreases modules.len() - i,
{
    if i < modules.len() && modules[i].root_message@ != root_message {
        lemma_described_from(modules, root_message, i + 1);
    }
}

/// Tells whether two strings are the same.
pub fn string_equal(a: &str, b: &str) -> (same: bool)
    ensures
        same == (a@ == b@),
{
    let same = crate::string_pool::bytes_equal(a.as_bytes(), b.as_bytes());
    proof {
        if same {
            vstd::utf8::encode_utf8_decode_utf8(a@);
            vstd::utf8::encode_utf8_decode_utf8(b@);
        }
    }
    same
}

/// The names of the built-in modules, in the order of the registry.
pub fn module_names(registry: &ModuleRegistry) -> (names: Vec<String>)
    ensures
        names@.len() == registry.modules().len(),
        forall|i: int| 0 <= i < names@.len() ==> (#[trigger] names@[i])@ == registry.modules()[i].name@,
{
    let mut names: Vec<String> = Vec::new();
    let mut i: usize = 0;
    while i < registry.modules.len()
        invariant
            i <= registry.modules.len(),
            names@.len() == i,
            forall|j: int| 0 <= j < i ==> (#[trigger] names@[j])@ == registry.modules()[j].name@,
        decreases registry.modules.len() - i,
    {
        names.push(registry.modules[i].name.clone());
        i += 1;
    }
    names
}

impl WasmExport {
    /// The name under which the function is linked: for a function of a
    /// module, the module's name, a dot and the mangled name; for any other,
    /// the mangled name. The function belongs to the first module of the
    /// registry whose Rust module is named in the function's path.
    pub fn fully_qualified_mangled_name(&self, modules: &ModuleRegistry) -> (name: String)
        ensures
            name@ == match owner_from(modules.modules(), self.rust_module_path@, 0) {
                Some(i) => qualified(modules.modules()[i].name@, self.mangled_name@),
                None => self.mangled_name@,
            },
    {
        let mut i: usize = 0;
        while i < modules.modules.len()
            invariant
                i <= modules.modules.len(),
                owner_from(modules.modules(), self.rust_module_path@, 0) == owner_from(
                    modules.modules(),
                    self.rust_module_path@,
                    i as int,
                ),
            decreases modules.modules.len() - i,
        {
            let module = &modules.modules[i];
            match &module.rust_module_name {
                Some(rust_module_name) => {
                    if crate::wasm::exports::text_contains(
                        self.rust_module_path.as_str(),
                        rust_module_name.as_str(),
                    ) {
                        return qualified_name(module.name.as_str(), self.mangled_name.as_str());
                    }
                },
                None => {},
            }
            i += 1;
        }
        self.mangled_name.clone()
    }
}

/// The value that `s` holds under `name`, if it has a field of that name.
pub open spec fn value_of(s: Struct, name: Seq<char>) -> Option<TypeValue> {
    if s.field_names().contains(name) {
        Some(s.fields()[s.field_names().index_of(name)].type_value)
    } else {
        None
    }
}

/// The names of the functions, in order.
pub open spec fn function_names(functions: Seq<(Seq<char>, Seq<Seq<char>>)>) -> Seq<Seq<char>> {
    Seq::new(functions.len(), |k: int| functions[k].0)
}

/// `s` is `root` after each of `functions` was given a field, in order:
/// the function with number `k` stands on the heap at `base + k`, with its
/// signatures, and `s` holds it under its name. A field of `root` whose name
/// no function has is unchanged, and `s` has no other fields.
pub open spec fn extended_by(
    root: Struct,
    s: Struct,
    functions: Seq<(Seq<char>, Seq<Seq<char>>)>,
    funcs: Seq<Func>,
    base: int,
) -> bool {
    &&& base + functions.len() <= funcs.len()
    &&& forall|k: int|
        0 <= k < functions.len() ==> (#[trigger] funcs[base + k])@ == functions[k].1
    &&& extended_with(root, s, function_names(functions), base)
}

/// `s` has the fields of `root`, under their names and at their indices,
/// and after them one field for each of `names` that `root` does not have.
/// Under the name with number `k` it holds the function `base + k`; what
/// `root` holds under any other name is unchanged.
pub open spec fn extended_with(root: Struct, s: Struct, names: Seq<Seq<char>>, base: int) -> bool {
    &&& s.wf()
    &&& root.fields().len() <= s.fields().len()
    &&& forall|k: int|
        0 <= k < names.len() ==> value_of(s, #[trigger] names[k]) == Some(
            TypeValue::Func((base + k) as usize),
        )
    &&& forall|i: int|
        0 <= i < root.fields().len() ==> (#[trigger] s.fields()[i]).name@ == root.fields()[i].name@
    &&& forall|i: int|
        0 <= i < root.fields().len() && !names.contains(root.fields()[i].name@) ==> (
        #[trigger] s.fields()[i]).type_value == root.fields()[i].type_value
    &&& forall|i: int|
        root.fields().len() <= i < s.fields().len() ==> names.contains(
            (#[trigger] s.fields()[i]).name@,
        )
}

proof fn lemma_extend_step(
    root: Struct,
    prev: Struct,
    next: Struct,
    names: NameIndex,
    base: int,
    n: int,
    at: int,
)
    requires
        names.wf(),
        0 <= n < names@.len(),
        root.wf(),
        extended_with(root, prev, names@.take(n), base),
        next.wf(),
        0 <= at < next.fields().len(),
        next.fields()[at].name@ == names@[n],
        next.fields()[at].type_value == TypeValue::Func((base + n) as usize),
        prev.field_names().contains(names@[n]) ==> next.fields().len() == prev.fields().len(),
        !prev.field_names().contains(names@[n]) ==> at == prev.fields().len()
            && next.fields().len() == at + 1,
        forall|i: int|
            0 <= i < prev.fields().len() && i != at ==> next.fields()[i] == prev.fields()[i],
    ensures
        extended_with(root, next, names@.take(n + 1), base),
{
    let name = names@[n];
    let done = names@.take(n);
    let now = names@.take(n + 1);
    assert(now =~= done.push(name));
    // The name of every field of `prev` is kept.
    assert forall|i: int| 0 <= i < prev.fields().len() implies next.fields()[i].name@
        == prev.fields()[i].name@ by {
        if i == at {
            assert(prev.field_names().contains(name));
            let j = prev.field_names().index_of(name);
            assert(prev.field_names()[j] == name);
            assert(next.field_names()[at] == name);
            if j != at {
                assert(next.fields()[j] == prev.fields()[j]);
                assert(next.field_names()[j] == name);
                next.lemma_names_distinct(j, at);
            }
        }
    }
    assert forall|k: int| 0 <= k < now.len() implies value_of(next, #[trigger] now[k]) == Some(
        TypeValue::Func((base + k) as usize),
    ) by {
        if k == n {
            assert(next.field_names()[at] == name);
            let j = next.field_names().index_of(name);
            next.lemma_names_distinct(j, at);
        } else {
            assert(now[k] == done[k]);
            assert(names@[k] != name) by {
                if names@[k] == name {
                    names.lemma_distinct(k, n);
                }
            }
            assert(value_of(prev, done[k]) is Some);
            let j = prev.field_names().index_of(names@[k]);
            assert(prev.field_names()[j] == names@[k]);
            assert(j != at);
            assert(next.fields()[j] == prev.fields()[j]);
            assert(next.field_names()[j] == names@[k]);
            let j2 = next.field_names().index_of(names@[k]);
            next.lemma_names_distinct(j, j2);
        }
    }
    assert forall|i: int| 0 <= i < root.fields().len() implies (#[trigger] next.fields()[i]).name@
        == root.fields()[i].name@ by {
        assert(prev.fields()[i].name@ == root.fields()[i].name@);
    }
    assert forall|i: int|
        0 <= i < root.fields().len() && !now.contains(root.fields()[i].name@) implies (
    #[trigger] next.fields()[i]).type_value == root.fields()[i].type_value by {
        let x = root.fields()[i].name@;
        assert(now[n] == name);
        assert(x != name);
        if done.contains(x) {
            let k = choose|k: int| 0 <= k < done.len() && done[k] == x;
            assert(now[k] == x);
        }
        assert(prev.fields()[i].name@ == x);
        assert(prev.fields()[i].type_value == root.fields()[i].type_value);
        assert(i != at);
    }
    assert forall|i: int| root.fields().len() <= i < next.fields().len() implies now.contains(
        (#[trigger] next.fields()[i]).name@,
    ) by {
        if i == at {
            assert(now[n] == next.fields()[i].name@);
        } else {
            let x = prev.fields()[i].name@;
            assert(done.contains(x));
            let k = choose|k: int| 0 <= k < done.len() && done[k] == x;
            assert(now[k] == x);
        }
    }
}

} // verus!
