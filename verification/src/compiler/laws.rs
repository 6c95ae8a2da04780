//! What holds of every compilation.

use crate::compiler::errors::Notice;
use crate::compiler::model::{
    cast_of, count_rules, first_at, first_duplicate, import_step, imports_from, names_of,
    namespace_step, namespaces_from, root_values, rule_step, rules_from, unused, Model,
};
use crate::compiler::model::{bind, rule_symbol};
use crate::compiler::semcheck::{
    arg_types, cast_notice, casts_of, first_undeclared, resolve, resolve_fields, type_of,
    with_loop_var,
};
use crate::modules::Module;
use crate::parser::ast::{
    args_within, expr_within, idents_within, namespace_within, rule_within, Expr, ExprKind, Ident,
    Import, Namespace, PatternSet, Rule,
};
use crate::symbols::{innermost, Symbol, SymbolKind};
use crate::types::{Heap, Type, TypeValue};
use vstd::prelude::*;

verus! {

/// What `first_at` finds lies below the limit and holds the name.
pub proof fn lemma_first_at(names: Seq<Seq<char>>, name: Seq<char>, i: int, limit: int)
    requires
        0 <= i,
    ensures
        first_at(names, name, i, limit) matches Some(j) ==> i <= j < limit && j < names.len()
            && names[j] == name,
    decreases limit - i,
{
    if i < limit && i < names.len() && names[i] != name {
        lemma_first_at(names, name, i + 1, limit);
    }
}

/// What `first_duplicate` finds are two positions of one name.
pub proof fn lemma_first_duplicate(names: Seq<Seq<char>>, k: int)
    requires
        0 <= k,
    ensures
        first_duplicate(names, k) matches Some((i, j)) ==> 0 <= i < j < names.len() && names[i]
            == names[j],
    decreases names.len() - k,
{
    if k < names.len() {
        lemma_first_at(names, names[k], 0, k);
        if first_at(names, names[k], 0, k) is None {
            lemma_first_duplicate(names, k + 1);
        }
    }
}

proof fn lemma_first_undeclared(patterns: Seq<Ident>, idents: Seq<Ident>, i: int)
    requires
        0 <= i,
    ensures
        first_undeclared(patterns, idents, i) matches Some(j) ==> i <= j < idents.len(),
    decreases idents.len() - i,
{
    if i < idents.len() {
        lemma_first_undeclared(patterns, idents, i + 1);
    }
}

proof fn lemma_resolve_fields_within(
    heap: Heap,
    value: TypeValue,
    idents: Seq<Ident>,
    k: int,
    path: Seq<usize>,
    len: nat,
)
    requires
        idents_within(idents, len),
    ensures
        resolve_fields(heap, value, idents, k, path) matches Err(f) ==> f.span().within(len),
    decreases idents.len() - k,
{
    if 1 <= k < idents.len() {
        match value {
            TypeValue::Struct(id) => {
                if id < heap.structs@.len() && heap.structs@[id as int].field_names().contains(
                    idents[k].name@,
                ) {
                    let s = heap.structs@[id as int];
                    let j = s.field_names().index_of(idents[k].name@);
                    lemma_resolve_fields_within(
                        heap,
                        s.fields()[j].type_value,
                        idents,
                        k + 1,
                        path.push(j as usize),
                        len,
                    );
                } else {
                    assert(idents[k].span.within(len));
                }
            },
            _ => {
                assert(idents[k - 1].span.within(len));
            },
        }
    }
}

proof fn lemma_resolve_within(
    root: Seq<TypeValue>,
    heap: Heap,
    frames: Seq<Map<Seq<char>, Symbol>>,
    idents: Seq<Ident>,
    len: nat,
)
    requires
        idents_within(idents, len),
    ensures
        resolve(root, heap, frames, idents) matches Err(f) ==> f.span().within(len),
{
    if idents.len() > 0 {
        assert(idents[0].span.within(len));
        match innermost(frames, idents[0].name@) {
            Some(symbol) => match symbol.kind {
                SymbolKind::FieldIndex(i) => {
                    if 0 <= i < root.len() {
                        lemma_resolve_fields_within(
                            heap,
                            root[i as int],
                            idents,
                            1,
                            seq![i as usize],
                            len,
                        );
                    }
                },
                _ => {},
            },
            None => {},
        }
    }
}

/// The error of a condition points into the condition.
pub proof fn lemma_type_error_within(
    patterns: Seq<Ident>,
    root: Seq<TypeValue>,
    heap: Heap,
    frames: Seq<Map<Seq<char>, Symbol>>,
    top: int,
    e: Expr,
    len: nat,
)
    requires
        expr_within(e, len),
    ensures
        type_of(patterns, root, heap, frames, top, e) matches Err(f) ==> f.span().within(len),
    decreases e, 1int,
{
    reveal_with_fuel(expr_within, 2);
    match e.kind {
        ExprKind::Call { callee, args } => {
            lemma_arg_error_within(patterns, root, heap, frames, top, e, args@.len() as int, len);
        },
        ExprKind::Of(quantifier, set) => {
            match set {
                PatternSet::Named(idents) => {
                    lemma_first_undeclared(patterns, idents@, 0);
                    if first_undeclared(patterns, idents@, 0) is Some {
                        let i = first_undeclared(patterns, idents@, 0)->0;
                        assert(idents@[i].span.within(len));
                    }
                },
                _ => {},
            }
        },
        ExprKind::FieldAccess(idents) => {
            lemma_resolve_within(root, heap, frames, idents@, len);
        },
        ExprKind::Not(a) | ExprKind::PatternAt(_, a) => {
            lemma_type_error_within(patterns, root, heap, frames, top, *a, len);
        },
        ExprKind::And(a, b)
        | ExprKind::Or(a, b)
        | ExprKind::Compare(_, a, b)
        | ExprKind::Arith(_, a, b)
        | ExprKind::PatternIn(_, a, b) => {
            lemma_type_error_within(patterns, root, heap, frames, top, *a, len);
            lemma_type_error_within(patterns, root, heap, frames, top, *b, len);
        },
        ExprKind::ForIn { var, lower, upper, condition } => {
            lemma_type_error_within(patterns, root, heap, frames, top, *lower, len);
            lemma_type_error_within(patterns, root, heap, frames, top, *upper, len);
            lemma_type_error_within(
                patterns,
                root,
                heap,
                with_loop_var(frames, var.name@, top),
                top + 1,
                *condition,
                len,
            );
        },
        _ => {},
    }
}

/// The error of the arguments of a call points into the arguments.
pub proof fn lemma_arg_error_within(
    patterns: Seq<Ident>,
    root: Seq<TypeValue>,
    heap: Heap,
    frames: Seq<Map<Seq<char>, Symbol>>,
    top: int,
    e: Expr,
    n: int,
    len: nat,
)
    requires
        e.kind is Call,
        args_within(e, n, len),
    ensures
        arg_types(patterns, root, heap, frames, top, e, n) matches Err(f) ==> f.span().within(len),
    decreases e, 0int, n,
{
    let args = e.kind->Call_args;
    if 0 < n <= args@.len() {
        reveal_with_fuel(args_within, 2);
        reveal_with_fuel(expr_within, 2);
        assert(expr_within(args@[n - 1], len));
        assert(args@[n - 1].span.within(len));
        lemma_arg_error_within(patterns, root, heap, frames, top, e, n - 1, len);
        lemma_type_error_within(patterns, root, heap, frames, top, args@[n - 1], len);
    }
}

/// The error of a rule points into the rule.
pub proof fn lemma_rule_error_within(m: Model, heap: Heap, rules: Seq<Rule>, k: int, len: nat)
    requires
        0 <= k < rules.len(),
        forall|i: int| 0 <= i < rules.len() ==> rule_within(#[trigger] rules[i], len),
    ensures
        rule_step(m, heap, rules, k) matches Err(r) ==> r.span() matches Some(span) && span.within(
            len,
        ),
{
    let rule = rules[k];
    assert(rule_within(rule, len));
    lemma_first_duplicate(names_of(rule.tags@), 0);
    lemma_first_duplicate(names_of(rule.patterns@), 0);
    if first_duplicate(names_of(rule.tags@), 0) is Some {
        let pair = first_duplicate(names_of(rule.tags@), 0)->0;
        let j = pair.1;
        assert(rule.tags@[j].span.within(len));
    }
    if first_duplicate(names_of(rule.patterns@), 0) is Some {
        let pair = first_duplicate(names_of(rule.patterns@), 0)->0;
        let j = pair.1;
        assert(rule.patterns@[j].span.within(len));
    }
    let frames = bind(m.frames, rule.identifier.name@, rule_symbol(m.rules.len() as int));
    lemma_type_error_within(
        rule.patterns@,
        root_values(m.root),
        heap,
        frames,
        0,
        rule.condition,
        len,
    );
}

proof fn lemma_rules_error_within(m: Model, heap: Heap, rules: Seq<Rule>, k: int, len: nat)
    requires
        0 <= k,
        forall|i: int| 0 <= i < rules.len() ==> rule_within(#[trigger] rules[i], len),
    ensures
        rules_from(m, heap, rules, k) matches Err(r) ==> r.span() matches Some(span)
            && span.within(len),
    decreases rules.len() - k,
{
    if k < rules.len() {
        lemma_rule_error_within(m, heap, rules, k, len);
        match rule_step(m, heap, rules, k) {
            Ok(next) => {
                lemma_rules_error_within(next, heap, rules, k + 1, len);
            },
            Err(_) => {},
        }
    }
}

proof fn lemma_imports_error_within(
    m: Model,
    modules: Seq<Module>,
    imports: Seq<Import>,
    k: int,
    len: nat,
)
    requires
        0 <= k,
        forall|i: int| 0 <= i < imports.len() ==> (#[trigger] imports[i]).span.within(len),
    ensures
        imports_from(m, modules, imports, k) matches Err(r) ==> r.span() matches Some(span)
            && span.within(len),
    decreases imports.len() - k,
{
    if k < imports.len() {
        assert(imports[k].span.within(len));
        match import_step(m, modules, imports, k) {
            Ok(next) => {
                lemma_imports_error_within(next, modules, imports, k + 1, len);
            },
            Err(_) => {},
        }
    }
}

/// Where a source whose spans lie inside it does not compile, the error
/// has a span, and the span lies inside the source.
pub proof fn lemma_error_within_source(
    m: Model,
    modules: Seq<Module>,
    heap: Heap,
    namespaces: Seq<Namespace>,
    k: int,
    len: nat,
)
    requires
        0 <= k,
        forall|i: int|
            0 <= i < namespaces.len() ==> namespace_within(#[trigger] namespaces[i], len),
    ensures
        namespaces_from(m, modules, heap, namespaces, k) matches Err(r) ==> r.span() matches Some(
            span,
        ) && span.within(len),
    decreases namespaces.len() - k,
{
    if k < namespaces.len() {
        let ns = namespaces[k];
        assert(namespace_within(ns, len));
        let opened = Model { frames: m.frames.push(Map::<Seq<char>, Symbol>::empty()), ..m };
        lemma_imports_error_within(opened, modules, ns.imports@, 0, len);
        match imports_from(opened, modules, ns.imports@, 0) {
            Ok(imported) => {
                lemma_rules_error_within(imported, heap, ns.rules@, 0, len);
            },
            Err(_) => {},
        }
        match namespace_step(m, modules, heap, ns) {
            Ok(next) => {
                lemma_error_within_source(next, modules, heap, namespaces, k + 1, len);
            },
            Err(_) => {},
        }
    }
}

proof fn lemma_imports_keep_rules(m: Model, modules: Seq<Module>, imports: Seq<Import>, k: int)
    requires
        0 <= k,
    ensures
        imports_from(m, modules, imports, k) matches Ok(after) ==> after.rules == m.rules,
    decreases imports.len() - k,
{
    if k < imports.len() {
        match import_step(m, modules, imports, k) {
            Ok(next) => {
                lemma_imports_keep_rules(next, modules, imports, k + 1);
            },
            Err(_) => {},
        }
    }
}

proof fn lemma_rules_counted(m: Model, heap: Heap, rules: Seq<Rule>, k: int)
    requires
        0 <= k <= rules.len(),
    ensures
        rules_from(m, heap, rules, k) matches Ok(after) ==> after.rules.len() == m.rules.len()
            + rules.len() - k,
    decreases rules.len() - k,
{
    if k < rules.len() {
        match rule_step(m, heap, rules, k) {
            Ok(next) => {
                lemma_rules_counted(next, heap, rules, k + 1);
            },
            Err(_) => {},
        }
    }
}

/// Where a source compiles, the compiled rules are as many more as the
/// source declares rules.
pub proof fn lemma_every_rule_compiled(
    m: Model,
    modules: Seq<Module>,
    heap: Heap,
    namespaces: Seq<Namespace>,
    k: int,
)
    requires
        0 <= k,
    ensures
        namespaces_from(m, modules, heap, namespaces, k) matches Ok(after) ==> after.rules.len()
            == m.rules.len() + count_rules(namespaces, k),
    decreases namespaces.len() - k,
{
    if k < namespaces.len() {
        let ns = namespaces[k];
        let opened = Model { frames: m.frames.push(Map::<Seq<char>, Symbol>::empty()), ..m };
        lemma_imports_keep_rules(opened, modules, ns.imports@, 0);
        match imports_from(opened, modules, ns.imports@, 0) {
            Ok(imported) => {
                lemma_rules_counted(imported, heap, ns.rules@, 0);
            },
            Err(_) => {},
        }
        match namespace_step(m, modules, heap, ns) {
            Ok(next) => {
                lemma_every_rule_compiled(next, modules, heap, namespaces, k + 1);
            },
            Err(_) => {},
        }
    }
}

/// A rule whose condition has a type other than boolean compiles with a
/// cast from that type, and with a warning that names the type and the
/// condition.
pub proof fn lemma_non_boolean_condition(m: Model, heap: Heap, rules: Seq<Rule>, k: int)
    requires
        0 <= k < rules.len(),
        rule_step(m, heap, rules, k) is Ok,
    ensures
        ({
            let rule = rules[k];
            let after = rule_step(m, heap, rules, k)->Ok_0;
            let frames = bind(m.frames, rule.identifier.name@, rule_symbol(m.rules.len() as int));
            let ty = type_of(
                rule.patterns@,
                root_values(m.root),
                heap,
                frames,
                0,
                rule.condition,
            );
            &&& ty matches Ok(t) && (t == Type::Bool || t == Type::Integer || t == Type::Float || t
                == Type::String)
            &&& after.rules.len() == m.rules.len() + 1
            &&& after.rules.last().cast == cast_of(ty->Ok_0)
            &&& ty->Ok_0 != Type::Bool ==> after.warnings.contains(
                Notice::NonBooleanCondition { got: ty->Ok_0, span: rule.condition.span },
            )
        }),
{
    let rule = rules[k];
    let after = rule_step(m, heap, rules, k)->Ok_0;
    let frames = bind(m.frames, rule.identifier.name@, rule_symbol(m.rules.len() as int));
    let root = root_values(m.root);
    let ty = type_of(rule.patterns@, root, heap, frames, 0, rule.condition)->Ok_0;
    if ty != Type::Bool {
        let before = m.warnings + casts_of(rule.patterns@, root, heap, frames, 0, rule.condition);
        let notice = Notice::NonBooleanCondition { got: ty, span: rule.condition.span };
        assert(cast_notice(ty, rule.condition.span)[0] == notice);
        assert(after.warnings[before.len() as int] == notice);
    }
}

/// How many of `warnings` say that the pattern `name` is unused.
pub open spec fn times_unused(warnings: Seq<Notice>, name: Seq<char>) -> nat
    decreases warnings.len(),
{
    if warnings.len() == 0 {
        0
    } else {
        let rest = times_unused(warnings.drop_first(), name);
        match warnings[0] {
            Notice::UnusedString { ident, .. } => if ident == name {
                rest + 1
            } else {
                rest
            },
            _ => rest,
        }
    }
}

/// Of the patterns of a rule, none of which is declared twice, each that the
/// condition does not refer to is warned of exactly once, and no other is
/// warned of.
pub proof fn lemma_unused_once(patterns: Seq<Ident>, condition: Expr, i: int, p: int)
    requires
        0 <= i <= patterns.len(),
        0 <= p < patterns.len(),
        forall|a: int, b: int|
            0 <= a < b < patterns.len() ==> (#[trigger] patterns[a]).name@ != (
            #[trigger] patterns[b]).name@,
    ensures
        times_unused(unused(patterns, condition, i), patterns[p].name@) == if p >= i
            && !condition.uses_pattern(patterns[p].name@) {
            1nat
        } else {
            0nat
        },
    decreases patterns.len() - i,
{
    if i < patterns.len() {
        lemma_unused_once(patterns, condition, i + 1, p);
        if !condition.uses_pattern(patterns[i].name@) {
            let notice = Notice::UnusedString { ident: patterns[i].name@, span: patterns[i].span };
            let rest = unused(patterns, condition, i + 1);
            let all = seq![notice] + rest;
            assert(all.drop_first() =~= rest);
            assert(all[0] == notice);
            if i != p {
                if i < p {
                    assert(patterns[i].name@ != patterns[p].name@);
                } else {
                    assert(patterns[p].name@ != patterns[i].name@);
                }
            }
        }
    }
}

} // verus!
