//! The table of functions that conditions can call, and the functions that
//! a module contributes to it.

use crate::name_index::NameIndex;
use crate::types::{Func, FuncSignature};
use vstd::prelude::*;

verus! {

/// `needle` occurs in `haystack` as a run of consecutive characters.
pub open spec fn is_substring(needle: Seq<char>, haystack: Seq<char>) -> bool {
    exists|i: int|
        0 <= i && i + needle.len() <= haystack.len() && #[trigger] haystack.subrange(
            i,
            i + needle.len(),
        ) == needle
}

/// `str::contains` with a string as the pattern: tells whether `needle`
/// occurs in `haystack`.
#[verifier::external_body]
pub(crate) fn text_contains(haystack: &str, needle: &str) -> (found: bool)
    ensures
        found == is_substring(needle@, haystack@),
{
    haystack.contains(needle)
}

/// A function that the machine can call on the host.
#[derive(Debug)]
pub struct WasmExport {
    /// The function's name, as rules write it.
    pub name: String,
    /// The name with the types of the arguments and of the result.
    pub mangled_name: String,
    /// Whether rules can call the function. Those that are not public serve
    /// the generated code only.
    pub public: bool,
    /// Path of the Rust module that holds the function, with the crate's
    /// name in front.
    pub rust_module_path: String,
}

/// The name of a module's function as rules see it: the module's name, a
/// dot, and the mangled name.
pub open spec fn qualified(module_name: Seq<char>, mangled_name: Seq<char>) -> Seq<char> {
    module_name + "."@ + mangled_name
}

impl WasmExport {
    /// The function is public and lives in the given Rust module.
    pub open spec fn exported_by(&self, rust_module_name: Seq<char>) -> bool {
        self.public && is_substring(rust_module_name, self.rust_module_path@)
    }

    /// Tells whether the function is public and lives in the given Rust
    /// module.
    pub fn is_exported_by(&self, rust_module_name: &str) -> (b: bool)
        ensures
            b == self.exported_by(rust_module_name@),
    {
        self.public && text_contains(self.rust_module_path.as_str(), rust_module_name)
    }
}

/// The public exports among the first `n`, in their order.
pub open spec fn public_exports(exports: Seq<WasmExport>, n: int) -> Seq<WasmExport>
    decreases n,
{
    if n <= 0 || n > exports.len() {
        Seq::empty()
    } else if exports[n - 1].public {
        public_exports(exports, n - 1).push(exports[n - 1])
    } else {
        public_exports(exports, n - 1)
    }
}

/// The position of `name` among the first components of `groups`, or the
/// length of `groups` if it is not there.
pub open spec fn position_of(groups: Seq<(Seq<char>, Seq<Seq<char>>)>, name: Seq<char>) -> int
    decreases groups.len(),
{
    if groups.len() == 0 {
        0
    } else if groups[0].0 == name {
        0
    } else {
        1 + position_of(groups.drop_first(), name)
    }
}

/// The functions that the Rust module `rust_module_name` exports, each with
/// the qualified names of its signatures. Functions stand in the order in
/// which their first signature occurs in `exports`; the signatures of a
/// function stand in the order of `exports`.
pub open spec fn functions_of(
    exports: Seq<WasmExport>,
    module_name: Seq<char>,
    rust_module_name: Seq<char>,
) -> Seq<(Seq<char>, Seq<Seq<char>>)>
    decreases exports.len(),
{
    if exports.len() == 0 {
        Seq::empty()
    } else {
        let before = functions_of(exports.drop_last(), module_name, rust_module_name);
        let export = exports.last();
        let signature = qualified(module_name, export.mangled_name@);
        let at = position_of(before, export.name@);
        if !export.exported_by(rust_module_name) {
            before
        } else if at < before.len() {
            before.update(at, (export.name@, before[at].1.push(signature)))
        } else {
            before.push((export.name@, seq![signature]))
        }
    }
}

/// Where `position_of` finds a name, the name stands; before that place, and
/// everywhere if it finds none, it does not.
pub proof fn lemma_position_of(groups: Seq<(Seq<char>, Seq<Seq<char>>)>, name: Seq<char>)
    ensures
        0 <= position_of(groups, name) <= groups.len(),
        position_of(groups, name) < groups.len() ==> groups[position_of(groups, name)].0 == name,
        forall|i: int| 0 <= i < position_of(groups, name) ==> (#[trigger] groups[i]).0 != name,
    decreases groups.len(),
{
    if groups.len() > 0 && groups[0].0 != name {
        let rest = groups.drop_first();
        lemma_position_of(rest, name);
        assert forall|i: int| 0 <= i < position_of(groups, name) implies (#[trigger] groups[i]).0
            != name by {
            if i > 0 {
                assert(rest[i - 1] == groups[i]);
            }
        }
    }
}

/// No function occurs twice in `functions_of`.
pub proof fn lemma_functions_distinct(
    exports: Seq<WasmExport>,
    module_name: Seq<char>,
    rust_module_name: Seq<char>,
    i: int,
    j: int,
)
    requires
        0 <= i < j < functions_of(exports, module_name, rust_module_name).len(),
    ensures
        functions_of(exports, module_name, rust_module_name)[i].0 != functions_of(
            exports,
            module_name,
            rust_module_name,
        )[j].0,
    decreases exports.len(),
{
    let before = functions_of(exports.drop_last(), module_name, rust_module_name);
    let export = exports.last();
    let at = position_of(before, export.name@);
    lemma_position_of(before, export.name@);
    if !export.exported_by(rust_module_name) {
        lemma_functions_distinct(exports.drop_last(), module_name, rust_module_name, i, j);
    } else if at < before.len() {
        lemma_functions_distinct(exports.drop_last(), module_name, rust_module_name, i, j);
    } else {
        if j < before.len() {
            lemma_functions_distinct(exports.drop_last(), module_name, rust_module_name, i, j);
        }
    }
}

/// The signatures of the functions in `funcs`, each with the function's name.
pub open spec fn grouped(names: Seq<Seq<char>>, funcs: Seq<Func>) -> Seq<
    (Seq<char>, Seq<Seq<char>>),
> {
    Seq::new(names.len(), |i: int| (names[i], funcs[i]@))
}

/// `module_name`, a dot, and `mangled_name`.
pub fn qualified_name(module_name: &str, mangled_name: &str) -> (name: String)
    ensures
        name@ == qualified(module_name@, mangled_name@),
{
    let mut name = String::from_str(module_name);
    name.append(".");
    name.append(mangled_name);
    name
}

/// Collects the functions that the Rust module `rust_module_name` exports
/// for the YARA module `module_name`. A function with several signatures is
/// one function with all of them.
pub fn module_functions(exports: &[WasmExport], module_name: &str, rust_module_name: &str) -> (out:
    (NameIndex, Vec<Func>))
    ensures
        out.0.wf(),
        out.0@.len() == out.1@.len(),
        grouped(out.0@, out.1@) == functions_of(exports@, module_name@, rust_module_name@),
{
    let mut names = NameIndex::new();
    let mut funcs: Vec<Func> = Vec::new();
    let mut k: usize = 0;
    proof {
        assert(exports@.take(0) =~= Seq::<WasmExport>::empty());
        assert(grouped(names@, funcs@) =~= functions_of(
            exports@.take(0),
            module_name@,
            rust_module_name@,
        ));
    }
    while k < exports.len()
        invariant
            k <= exports.len(),
            names.wf(),
            names@.len() == funcs@.len(),
            grouped(names@, funcs@) == functions_of(
                exports@.take(k as int),
                module_name@,
                rust_module_name@,
            ),
        decreases exports.len() - k,
    {
        let export = &exports[k];
        let ghost before = grouped(names@, funcs@);
        proof {
            assert(exports@.take(k + 1).drop_last() =~= exports@.take(k as int));
            assert(exports@.take(k + 1).last() == exports@[k as int]);
            lemma_position_of(before, export.name@);
        }
        if export.is_exported_by(rust_module_name) {
            let signature = FuncSignature {
                mangled_name: qualified_name(module_name, export.mangled_name.as_str()),
            };
            let ghost old_names = names@;
            match names.get(export.name.as_str()) {
                Some(at) => {
                    proof {
                        assert(before[at as int].0 == export.name@);
                        let p = position_of(before, export.name@);
                        if p != at {
                            assert(before[p].0 == names@[p]);
                            names.lemma_distinct(p, at as int);
                        }
                    }
                    let mut func = funcs.swap_remove(at);
                    func.add_signature(signature);
                    funcs.push(func);
                    let last = funcs.len() - 1;
                    if at < last {
                        let moved = funcs.swap_remove(at);
                        funcs.push(moved);
                    }
                    proof {
                        assert(grouped(names@, funcs@) =~= before.update(
                            at as int,
                            (export.name@, before[at as int].1.push(signature.mangled_name@)),
                        ));
                    }
                },
                None => {
                    proof {
                        let p = position_of(before, export.name@);
                        if p < before.len() {
                            assert(before[p].0 == names@[p]);
                            assert(names@.contains(export.name@));
                        }
                    }
                    names.insert(export.name.as_str());
                    funcs.push(Func::with_signature(signature));
                    proof {
                        assert(grouped(names@, funcs@) =~= before.push(
                            (export.name@, seq![signature.mangled_name@]),
                        ));
                    }
                },
            }
        }
        k += 1;
    }
    proof {
        assert(exports@.take(exports.len() as int) =~= exports@);
    }
    (names, funcs)
}

} // verus!
