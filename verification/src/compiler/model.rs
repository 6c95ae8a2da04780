//! What compiling means, stated over plain values: the state of a compiler
//! as sequences and maps, and the steps that an import, a rule, a namespace
//! and a source take it through.

use crate::compiler::errors::{Declared, Expected, Failure, Notice, Rejection};
use crate::compiler::ids::{IdentId, PatternId};
use crate::compiler::semcheck::{cast_notice, casts_of, mismatch, type_of};
use crate::modules::Module;
use crate::parser::ast::{Expr, Ident, Import, Namespace, Rule};
use crate::symbols::{Symbol, SymbolKind};
use crate::types::{Heap, Type, TypeValue};
use vstd::prelude::*;

verus! {

/// A compiled rule as plain values: the number of its identifier, and for
/// each of its patterns the number of the identifier and of the pattern.
pub struct RuleModel {
    pub ident: IdentId,
    pub patterns: Seq<(IdentId, PatternId)>,
    /// The type from which the condition's result is cast to a truth
    /// value, where it is not boolean.
    pub cast: Option<Type>,
}

/// The cast that a condition of type `ty` needs to stand for a truth
/// value.
pub open spec fn cast_of(ty: Type) -> Option<Type> {
    if ty == Type::Bool {
        None
    } else {
        Some(ty)
    }
}

/// The state of a compiler as plain values.
pub struct Model {
    /// The pool of identifiers.
    pub idents: Seq<Seq<char>>,
    /// The compiled rules; a rule's number is its position.
    pub rules: Seq<RuleModel>,
    /// How many patterns the compiled rules have.
    pub num_patterns: nat,
    /// The identifiers of the imported modules, one for each import.
    pub imports: Seq<IdentId>,
    /// The structure whose fields are the imported modules: the name and
    /// the value of each field.
    pub root: Seq<(Seq<char>, TypeValue)>,
    /// The symbols in scope.
    pub frames: Seq<Map<Seq<char>, Symbol>>,
    /// The warnings raised so far.
    pub warnings: Seq<Notice>,
}

/// The names of a sequence of identifiers.
pub open spec fn names_of(idents: Seq<Ident>) -> Seq<Seq<char>> {
    Seq::new(idents.len(), |i: int| idents[i].name@)
}

/// The names of a sequence of rules.
pub open spec fn rule_names(rules: Seq<Rule>) -> Seq<Seq<char>> {
    Seq::new(rules.len(), |i: int| rules[i].identifier.name@)
}

/// The names of the modules of a sequence of imports.
pub open spec fn import_names(imports: Seq<Import>) -> Seq<Seq<char>> {
    Seq::new(imports.len(), |i: int| imports[i].module_name@)
}

/// The names of a sequence of modules.
pub open spec fn module_names_of(modules: Seq<Module>) -> Seq<Seq<char>> {
    Seq::new(modules.len(), |i: int| modules[i].name@)
}

/// The first position in `names[i..limit]` that holds `name`.
pub open spec fn first_at(names: Seq<Seq<char>>, name: Seq<char>, i: int, limit: int) -> Option<int>
    decreases limit - i,
{
    if i < 0 || i >= limit || i >= names.len() {
        None
    } else if names[i] == name {
        Some(i)
    } else {
        first_at(names, name, i + 1, limit)
    }
}

/// The first name, at or after `k`, that occurs earlier in `names`, with the
/// position of its first occurrence: `(first, second)`.
pub open spec fn first_duplicate(names: Seq<Seq<char>>, k: int) -> Option<(int, int)>
    decreases names.len() - k,
{
    if k < 0 || k >= names.len() {
        None
    } else {
        match first_at(names, names[k], 0, k) {
            Some(j) => Some((j, k)),
            None => first_duplicate(names, k + 1),
        }
    }
}

/// The pool after `s` was interned: `s` enters at the end, unless the pool
/// holds it.
pub open spec fn intern(pool: Seq<Seq<char>>, s: Seq<char>) -> Seq<Seq<char>> {
    if pool.contains(s) {
        pool
    } else {
        pool.push(s)
    }
}

/// The pool after the first `n` of `names` were interned, in order.
pub open spec fn intern_all(pool: Seq<Seq<char>>, names: Seq<Seq<char>>, n: int) -> Seq<Seq<char>>
    decreases n,
{
    if n <= 0 || n > names.len() {
        pool
    } else {
        intern(intern_all(pool, names, n - 1), names[n - 1])
    }
}

/// The number of `s` in the pool.
pub open spec fn id_of(pool: Seq<Seq<char>>, s: Seq<char>) -> IdentId {
    IdentId(pool.index_of(s) as u32)
}

/// For each pattern of a rule, the number of its identifier in `pool` and
/// the number of the pattern, which counts on from `base`.
pub open spec fn pattern_pairs(pool: Seq<Seq<char>>, names: Seq<Seq<char>>, base: int) -> Seq<
    (IdentId, PatternId),
> {
    Seq::new(names.len(), |i: int| (id_of(pool, names[i]), (base + i) as i32))
}

/// The warnings for the patterns, from the one with number `i` on, that
/// `condition` does not refer to: one for each, in the order of the
/// patterns.
pub open spec fn unused(patterns: Seq<Ident>, condition: Expr, i: int) -> Seq<Notice>
    decreases patterns.len() - i,
{
    if i < 0 || i >= patterns.len() {
        Seq::empty()
    } else if condition.uses_pattern(patterns[i].name@) {
        unused(patterns, condition, i + 1)
    } else {
        seq![Notice::UnusedString { ident: patterns[i].name@, span: patterns[i].span }] + unused(
            patterns,
            condition,
            i + 1,
        )
    }
}

/// The values of the fields of the root structure.
pub open spec fn root_values(root: Seq<(Seq<char>, TypeValue)>) -> Seq<TypeValue> {
    Seq::new(root.len(), |i: int| root[i].1)
}

/// The names of the fields of the root structure.
pub open spec fn root_names(root: Seq<(Seq<char>, TypeValue)>) -> Seq<Seq<char>> {
    Seq::new(root.len(), |i: int| root[i].0)
}

/// The frames with `name` bound to `symbol` in the innermost one.
pub open spec fn bind(
    frames: Seq<Map<Seq<char>, Symbol>>,
    name: Seq<char>,
    symbol: Symbol,
) -> Seq<Map<Seq<char>, Symbol>> {
    if frames.len() == 0 {
        frames
    } else {
        frames.update(frames.len() - 1, frames.last().insert(name, symbol))
    }
}

/// The symbol of the rule with the given number.
pub open spec fn rule_symbol(id: int) -> Symbol {
    Symbol { ty: Type::Bool, kind: SymbolKind::Rule(id as i32) }
}

/// The symbol of the module that is the field `at` of the root structure.
pub open spec fn module_symbol(at: int) -> Symbol {
    Symbol { ty: Type::Struct, kind: SymbolKind::FieldIndex(at as i32) }
}

/// The state after the import with number `k` of a namespace.
///
/// A module that does not exist is an error. A module that the namespace
/// imported before gives a warning and nothing else. Any other import
/// interns the module's name, records the import, makes the module a field
/// of the root structure, and binds its name in the innermost scope.
pub open spec fn import_step(m: Model, modules: Seq<Module>, imports: Seq<Import>, k: int) -> Result<
    Model,
    Rejection,
> {
    let import = imports[k];
    let name = import.module_name@;
    if !module_names_of(modules).contains(name) {
        Err(Rejection::Failure(Failure::UnknownModule { name, span: import.span }))
    } else {
        match first_at(import_names(imports), name, 0, k) {
            Some(j) => Ok(
                Model {
                    warnings: m.warnings.push(
                        Notice::DuplicateImport {
                            module: name,
                            new_span: import.span,
                            existing_span: imports[j].span,
                        },
                    ),
                    ..m
                },
            ),
            None => {
                let module = modules[module_names_of(modules).index_of(name)];
                let pool = intern(m.idents, name);
                let value = TypeValue::Struct(module.root_struct);
                let known = root_names(m.root).contains(name);
                let at = if known {
                    root_names(m.root).index_of(name)
                } else {
                    m.root.len() as int
                };
                Ok(
                    Model {
                        idents: pool,
                        imports: m.imports.push(id_of(pool, name)),
                        root: if known {
                            m.root.update(at, (name, value))
                        } else {
                            m.root.push((name, value))
                        },
                        frames: bind(m.frames, name, module_symbol(at)),
                        ..m
                    },
                )
            },
        }
    }
}

/// The state after the imports of a namespace from number `k` on.
pub open spec fn imports_from(m: Model, modules: Seq<Module>, imports: Seq<Import>, k: int) -> Result<
    Model,
    Rejection,
>
    decreases imports.len() - k,
{
    if k < 0 || k >= imports.len() {
        Ok(m)
    } else {
        match import_step(m, modules, imports, k) {
            Err(r) => Err(r),
            Ok(next) => imports_from(next, modules, imports, k + 1),
        }
    }
}

/// The state after the rule with number `k` of a namespace.
///
/// The rule must not have the name of an earlier rule of the namespace, nor
/// a tag or a pattern twice. Its patterns get the next pattern numbers and
/// the rule the next rule number; the identifiers are interned, those of
/// the patterns first. The rule's name is bound before its condition is
/// checked. The condition must have a type that can stand for a truth
/// value. Warnings follow in this order: those of the condition, the one for
/// a condition that is not boolean, and one for each unused pattern.
pub open spec fn rule_step(m: Model, heap: Heap, rules: Seq<Rule>, k: int) -> Result<
    Model,
    Rejection,
> {
    let rule = rules[k];
    let name = rule.identifier.name@;
    let patterns = names_of(rule.patterns@);
    let pool = intern(intern_all(m.idents, patterns, patterns.len() as int), name);
    let frames = bind(m.frames, name, rule_symbol(m.rules.len() as int));
    let root = root_values(m.root);
    match first_at(rule_names(rules), name, 0, k) {
        Some(j) => Err(
            Rejection::Duplicate {
                what: Declared::Rule,
                name,
                new_span: rule.identifier.span,
                existing_span: rules[j].identifier.span,
            },
        ),
        None => match first_duplicate(names_of(rule.tags@), 0) {
            Some((i, j)) => Err(
                Rejection::Duplicate {
                    what: Declared::Tag,
                    name: rule.tags@[j].name@,
                    new_span: rule.tags@[j].span,
                    existing_span: rule.tags@[i].span,
                },
            ),
            None => match first_duplicate(names_of(rule.patterns@), 0) {
                Some((i, j)) => Err(
                    Rejection::Duplicate {
                        what: Declared::Pattern,
                        name: rule.patterns@[j].name@,
                        new_span: rule.patterns@[j].span,
                        existing_span: rule.patterns@[i].span,
                    },
                ),
                None => match type_of(rule.patterns@, root, heap, frames, 0, rule.condition) {
                    Err(f) => Err(Rejection::Failure(f)),
                    Ok(ty) => match mismatch(Expected::Scalar, ty, rule.condition.span) {
                        Some(f) => Err(Rejection::Failure(f)),
                        None => Ok(
                            Model {
                                idents: pool,
                                rules: m.rules.push(
                                    RuleModel {
                                        ident: id_of(pool, name),
                                        patterns: pattern_pairs(
                                            pool,
                                            patterns,
                                            m.num_patterns as int,
                                        ),
                                        cast: cast_of(ty),
                                    },
                                ),
                                num_patterns: m.num_patterns + patterns.len(),
                                frames,
                                warnings: m.warnings + casts_of(
                                    rule.patterns@,
                                    root,
                                    heap,
                                    frames,
                                    0,
                                    rule.condition,
                                ) + cast_notice(ty, rule.condition.span) + unused(
                                    rule.patterns@,
                                    rule.condition,
                                    0,
                                ),
                                ..m
                            },
                        ),
                    },
                },
            },
        },
    }
}

/// The state after the rules of a namespace from number `k` on.
pub open spec fn rules_from(m: Model, heap: Heap, rules: Seq<Rule>, k: int) -> Result<
    Model,
    Rejection,
>
    decreases rules.len() - k,
{
    if k < 0 || k >= rules.len() {
        Ok(m)
    } else {
        match rule_step(m, heap, rules, k) {
            Err(r) => Err(r),
            Ok(next) => rules_from(next, heap, rules, k + 1),
        }
    }
}

/// The state after a namespace: a scope is opened, the imports are
/// resolved, the rules are compiled in their order, and the scope is closed.
pub open spec fn namespace_step(m: Model, modules: Seq<Module>, heap: Heap, ns: Namespace) -> Result<
    Model,
    Rejection,
> {
    let opened = Model { frames: m.frames.push(Map::<Seq<char>, Symbol>::empty()), ..m };
    match imports_from(opened, modules, ns.imports@, 0) {
        Err(r) => Err(r),
        Ok(imported) => match rules_from(imported, heap, ns.rules@, 0) {
            Err(r) => Err(r),
            Ok(done) => Ok(Model { frames: m.frames, ..done }),
        },
    }
}

/// The state after the namespaces of a source from number `k` on.
pub open spec fn namespaces_from(
    m: Model,
    modules: Seq<Module>,
    heap: Heap,
    namespaces: Seq<Namespace>,
    k: int,
) -> Result<Model, Rejection>
    decreases namespaces.len() - k,
{
    if k < 0 || k >= namespaces.len() {
        Ok(m)
    } else {
        match namespace_step(m, modules, heap, namespaces[k]) {
            Err(r) => Err(r),
            Ok(next) => namespaces_from(next, modules, heap, namespaces, k + 1),
        }
    }
}

/// How many identifiers a sequence of rules declares, from the rule with
/// number `k` on: one for each rule and one for each of its patterns.
pub open spec fn rules_size(rules: Seq<Rule>, k: int) -> nat
    decreases rules.len() - k,
{
    if k < 0 || k >= rules.len() {
        0
    } else {
        1 + rules[k].patterns@.len() + rules_size(rules, k + 1)
    }
}

/// How many identifiers the namespaces of a source declare, from the one
/// with number `k` on: one for each import, rule and pattern.
pub open spec fn namespaces_size(namespaces: Seq<Namespace>, k: int) -> nat
    decreases namespaces.len() - k,
{
    if k < 0 || k >= namespaces.len() {
        0
    } else {
        namespaces[k].imports@.len() + rules_size(namespaces[k].rules@, 0) + namespaces_size(
            namespaces,
            k + 1,
        )
    }
}

/// How many rules the namespaces of a source declare, from the one with
/// number `k` on.
pub open spec fn count_rules(namespaces: Seq<Namespace>, k: int) -> nat
    decreases namespaces.len() - k,
{
    if k < 0 || k >= namespaces.len() {
        0
    } else {
        namespaces[k].rules@.len() + count_rules(namespaces, k + 1)
    }
}

/// Behind other namespaces, namespaces declare the rules that they declare
/// by themselves.
pub proof fn lemma_count_rules_behind(
    before: Seq<Namespace>,
    namespaces: Seq<Namespace>,
    j: int,
)
    requires
        0 <= j,
    ensures
        count_rules(before + namespaces, before.len() + j) == count_rules(namespaces, j),
    decreases namespaces.len() - j,
{
    if j < namespaces.len() {
        lemma_count_rules_behind(before, namespaces, j + 1);
        assert((before + namespaces)[before.len() + j] == namespaces[j]);
    }
}

/// Namespaces behind others declare the rules of both.
pub proof fn lemma_count_rules_joined(before: Seq<Namespace>, namespaces: Seq<Namespace>, k: int)
    requires
        0 <= k <= before.len(),
    ensures
        count_rules(before + namespaces, k) == count_rules(before, k) + count_rules(
            namespaces,
            0,
        ),
    decreases before.len() - k,
{
    if k < before.len() {
        lemma_count_rules_joined(before, namespaces, k + 1);
        assert((before + namespaces)[k] == before[k]);
    } else {
        lemma_count_rules_behind(before, namespaces, 0);
    }
}

} // verus!
