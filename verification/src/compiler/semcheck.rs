//! Checks the meaning of a condition: resolves its identifiers, gives every
//! expression a type, and warns where a value is cast to a truth value.

use crate::compiler::context::Context;
use crate::compiler::errors::{notices, CompileError, Expected, Failure, Notice, Warning};
use crate::modules::string_equal;
use crate::parser::ast::{Arithmetic, Comparison, Expr, ExprKind, Ident, PatternSet, Quantifier};
use crate::parser::span::Span;
use crate::symbols::{innermost, Symbol, SymbolKind, Var};
use crate::types::signature::{resolution, Resolution};
use crate::types::{Heap, Struct, Type, TypeValue};
use crate::wasm::layout::MAX_VARS;
use vstd::prelude::*;

verus! {

/// What a condition is checked against: the patterns of its rule, the
/// structure whose fields are the imported modules, and the heap that holds
/// the structures of the modules.
pub struct Env<'a> {
    pub patterns: &'a Vec<Ident>,
    pub modules_struct: &'a Struct,
    pub heap: &'a Heap,
}

impl<'a> Env<'a> {
    pub open spec fn wf(&self) -> bool {
        self.modules_struct.wf() && self.heap.wf()
    }
}

/// One of `patterns` has the name `name`.
pub open spec fn declared(patterns: Seq<Ident>, name: Seq<char>) -> bool {
    exists|i: int| 0 <= i < patterns.len() && (#[trigger] patterns[i]).name@ == name
}

/// The position of the first of `idents`, at or after `i`, that is not the
/// name of a pattern.
pub open spec fn first_undeclared(patterns: Seq<Ident>, idents: Seq<Ident>, i: int) -> Option<int>
    decreases idents.len() - i,
{
    if i < 0 || i >= idents.len() {
        None
    } else if !declared(patterns, idents[i].name@) {
        Some(i)
    } else {
        first_undeclared(patterns, idents, i + 1)
    }
}

/// The symbol of a loop variable in the slot `top`.
pub open spec fn loop_var(top: int) -> Symbol {
    Symbol { ty: Type::Integer, kind: SymbolKind::LoopVar(Var { ty: Type::Integer, index: top as i32 }) }
}

/// The error for a type that its place does not accept, if it does not.
pub open spec fn mismatch(expected: Expected, got: Type, span: Span) -> Option<Failure> {
    if expected.admits(got) {
        None
    } else {
        Some(Failure::WrongType { expected, got, span })
    }
}

/// Follows the identifiers `idents[k..]` as field names, starting in
/// `value`. `path` holds the indices of the fields passed so far. The result
/// is the path with one index more for each identifier, each the position
/// of the named field in the structure before it, and the type of the last
/// field.
pub open spec fn resolve_fields(
    heap: Heap,
    value: TypeValue,
    idents: Seq<Ident>,
    k: int,
    path: Seq<usize>,
) -> Result<(Seq<usize>, Type), Failure>
    decreases idents.len() - k,
{
    if k < 1 || k >= idents.len() {
        Ok((path, value.ty_spec()))
    } else {
        match value {
            TypeValue::Struct(id) => if id < heap.structs@.len() && heap.structs@[id as int].field_names().contains(
                idents[k].name@,
            ) {
                let s = heap.structs@[id as int];
                let j = s.field_names().index_of(idents[k].name@);
                resolve_fields(
                    heap,
                    s.fields()[j].type_value,
                    idents,
                    k + 1,
                    path.push(j as usize),
                )
            } else {
                Err(Failure::UnknownIdentifier { name: idents[k].name@, span: idents[k].span })
            },
            _ => Err(
                Failure::WrongType {
                    expected: Expected::Struct,
                    got: value.ty_spec(),
                    span: idents[k - 1].span,
                },
            ),
        }
    }
}

/// Resolves the chain of field accesses `a.b.c`, given as its identifiers.
/// The first identifier is looked up among the symbols in scope; a module
/// starts a path into the structures, and any other symbol must stand alone.
pub open spec fn resolve(
    root: Seq<TypeValue>,
    heap: Heap,
    frames: Seq<Map<Seq<char>, Symbol>>,
    idents: Seq<Ident>,
) -> Result<(Seq<usize>, Type), Failure> {
    if idents.len() == 0 {
        Ok((Seq::empty(), Type::Unknown))
    } else {
        match innermost(frames, idents[0].name@) {
            None => Err(
                Failure::UnknownIdentifier { name: idents[0].name@, span: idents[0].span },
            ),
            Some(symbol) => match symbol.kind {
                SymbolKind::FieldIndex(i) => if 0 <= i < root.len() {
                    resolve_fields(heap, root[i as int], idents, 1, seq![i as usize])
                } else {
                    Err(
                        Failure::UnknownIdentifier {
                            name: idents[0].name@,
                            span: idents[0].span,
                        },
                    )
                },
                _ => if idents.len() == 1 {
                    Ok((Seq::empty(), symbol.ty))
                } else {
                    Err(
                        Failure::WrongType {
                            expected: Expected::Struct,
                            got: symbol.ty,
                            span: idents[0].span,
                        },
                    )
                },
            },
        }
    }
}

/// The type of an `of` expression, which is boolean where the quantifier
/// and the set of patterns are in order.
pub open spec fn type_of_quantified(
    patterns: Seq<Ident>,
    quantifier: Quantifier,
    set: PatternSet,
    span: Span,
) -> Result<Type, Failure> {
    if quantifier matches Quantifier::Percent(p) && !(1 <= p <= 100) {
        Err(Failure::InvalidPercentage { value: quantifier->Percent_0, span })
    } else {
        match set {
            PatternSet::Them => if patterns.len() == 0 {
                Err(Failure::EmptyPatternSet { span })
            } else {
                Ok(Type::Bool)
            },
            PatternSet::Named(idents) => match first_undeclared(patterns, idents@, 0) {
                Some(i) => Err(
                    Failure::UnknownIdentifier { name: idents@[i].name@, span: idents@[i].span },
                ),
                None => Ok(Type::Bool),
            },
        }
    }
}

/// The type of the result of arithmetic on two numbers.
pub open spec fn arithmetic_type(a: Type, b: Type) -> Type {
    if a == Type::Float || b == Type::Float {
        Type::Float
    } else {
        Type::Integer
    }
}

/// What the left side of a comparison must be: a string for an operator on
/// strings, a number or a string for any other.
pub open spec fn compared_kind(op: Comparison) -> Expected {
    if op.on_strings() {
        Expected::String
    } else {
        Expected::Comparable
    }
}

/// What the operands of arithmetic must be: integers for an operator on
/// bits, numbers for any other.
pub open spec fn computed_kind(op: Arithmetic) -> Expected {
    if op.on_bits() {
        Expected::Integer
    } else {
        Expected::Numeric
    }
}

/// What the right side of a comparison must be, given the left side.
pub open spec fn same_kind(left: Type) -> Expected {
    if left == Type::String {
        Expected::String
    } else {
        Expected::Numeric
    }
}

/// The frames with one more scope, which binds `var` to the loop variable
/// in the slot `top`.
pub open spec fn with_loop_var(
    frames: Seq<Map<Seq<char>, Symbol>>,
    var: Seq<char>,
    top: int,
) -> Seq<Map<Seq<char>, Symbol>> {
    frames.push(Map::<Seq<char>, Symbol>::empty().insert(var, loop_var(top)))
}

/// The static type of an expression, or the first error that checking it
/// from left to right meets. `frames` are the symbols in scope and `top` is
/// the number of loop variables in use.
pub open spec fn type_of(
    patterns: Seq<Ident>,
    root: Seq<TypeValue>,
    heap: Heap,
    frames: Seq<Map<Seq<char>, Symbol>>,
    top: int,
    e: Expr,
) -> Result<Type, Failure>
    decreases e, 1int,
{
    match e.kind {
        ExprKind::Call { callee, args } => match innermost(frames, callee.name@) {
            None => Err(Failure::UnknownIdentifier { name: callee.name@, span: callee.span }),
            Some(symbol) => match symbol.kind {
                SymbolKind::Func(id) => if id < heap.funcs@.len() {
                    match arg_types(patterns, root, heap, frames, top, e, args@.len() as int) {
                        Err(f) => Err(f),
                        Ok(types) => match resolution(heap.funcs@[id as int]@, types, 0) {
                            Resolution::Found(_, result) => Ok(result),
                            Resolution::WrongNumberOfArguments => Err(
                                Failure::WrongNumberOfArguments { span: e.span },
                            ),
                            Resolution::NoMatchingOverload => Err(
                                Failure::NoMatchingOverload { span: e.span },
                            ),
                        },
                    }
                } else {
                    Err(Failure::UnknownIdentifier { name: callee.name@, span: callee.span })
                },
                _ => Err(
                    Failure::WrongType {
                        expected: Expected::Func,
                        got: symbol.ty,
                        span: callee.span,
                    },
                ),
            },
        },
        ExprKind::True | ExprKind::False => Ok(Type::Bool),
        ExprKind::Filesize | ExprKind::LiteralInt(_) => Ok(Type::Integer),
        ExprKind::LiteralFloat(_) => Ok(Type::Float),
        ExprKind::LiteralStr(_) => Ok(Type::String),
        ExprKind::PatternMatch(ident) => if declared(patterns, ident@) {
            Ok(Type::Bool)
        } else {
            Err(Failure::UnknownIdentifier { name: ident@, span: e.span })
        },
        ExprKind::PatternAt(ident, a) => if declared(patterns, ident@) {
            match type_of(patterns, root, heap, frames, top, *a) {
                Err(f) => Err(f),
                Ok(ta) => match mismatch(Expected::Integer, ta, a.span) {
                    Some(f) => Err(f),
                    None => Ok(Type::Bool),
                },
            }
        } else {
            Err(Failure::UnknownIdentifier { name: ident@, span: e.span })
        },
        ExprKind::PatternIn(ident, a, b) => if declared(patterns, ident@) {
            match type_of(patterns, root, heap, frames, top, *a) {
                Err(f) => Err(f),
                Ok(ta) => match mismatch(Expected::Integer, ta, a.span) {
                    Some(f) => Err(f),
                    None => match type_of(patterns, root, heap, frames, top, *b) {
                        Err(f) => Err(f),
                        Ok(tb) => match mismatch(Expected::Integer, tb, b.span) {
                            Some(f) => Err(f),
                            None => Ok(Type::Bool),
                        },
                    },
                },
            }
        } else {
            Err(Failure::UnknownIdentifier { name: ident@, span: e.span })
        },
        ExprKind::Of(quantifier, set) => type_of_quantified(patterns, quantifier, set, e.span),
        ExprKind::FieldAccess(idents) => match resolve(root, heap, frames, idents@) {
            Ok((_, ty)) => Ok(ty),
            Err(f) => Err(f),
        },
        ExprKind::Not(a) => match type_of(patterns, root, heap, frames, top, *a) {
            Err(f) => Err(f),
            Ok(ta) => match mismatch(Expected::Scalar, ta, a.span) {
                Some(f) => Err(f),
                None => Ok(Type::Bool),
            },
        },
        ExprKind::And(a, b) | ExprKind::Or(a, b) => match type_of(
            patterns,
            root,
            heap,
            frames,
            top,
            *a,
        ) {
            Err(f) => Err(f),
            Ok(ta) => match mismatch(Expected::Scalar, ta, a.span) {
                Some(f) => Err(f),
                None => match type_of(patterns, root, heap, frames, top, *b) {
                    Err(f) => Err(f),
                    Ok(tb) => match mismatch(Expected::Scalar, tb, b.span) {
                        Some(f) => Err(f),
                        None => Ok(Type::Bool),
                    },
                },
            },
        },
        ExprKind::Compare(op, a, b) => match type_of(patterns, root, heap, frames, top, *a) {
            Err(f) => Err(f),
            Ok(ta) => match mismatch(compared_kind(op), ta, a.span) {
                Some(f) => Err(f),
                None => match type_of(patterns, root, heap, frames, top, *b) {
                    Err(f) => Err(f),
                    Ok(tb) => match mismatch(second(compared_kind(op), ta), tb, b.span) {
                        Some(f) => Err(f),
                        None => Ok(Type::Bool),
                    },
                },
            },
        },
        ExprKind::Arith(op, a, b) => match type_of(patterns, root, heap, frames, top, *a) {
            Err(f) => Err(f),
            Ok(ta) => match mismatch(computed_kind(op), ta, a.span) {
                Some(f) => Err(f),
                None => match type_of(patterns, root, heap, frames, top, *b) {
                    Err(f) => Err(f),
                    Ok(tb) => match mismatch(computed_kind(op), tb, b.span) {
                        Some(f) => Err(f),
                        None => Ok(arithmetic_type(ta, tb)),
                    },
                },
            },
        },
        ExprKind::ForIn { var, lower, upper, condition } => match type_of(
            patterns,
            root,
            heap,
            frames,
            top,
            *lower,
        ) {
            Err(f) => Err(f),
            Ok(tl) => match mismatch(Expected::Integer, tl, lower.span) {
                Some(f) => Err(f),
                None => match type_of(patterns, root, heap, frames, top, *upper) {
                    Err(f) => Err(f),
                    Ok(tu) => match mismatch(Expected::Integer, tu, upper.span) {
                        Some(f) => Err(f),
                        None => if top >= MAX_VARS {
                            Err(Failure::TooManyNestedLoops { span: e.span })
                        } else {
                            match type_of(
                                patterns,
                                root,
                                heap,
                                with_loop_var(frames, var.name@, top),
                                top + 1,
                                *condition,
                            ) {
                                Err(f) => Err(f),
                                Ok(tc) => match mismatch(Expected::Scalar, tc, condition.span) {
                                    Some(f) => Err(f),
                                    None => Ok(Type::Bool),
                                },
                            }
                        },
                    },
                },
            },
        },
    }
}

/// The types of the first `n` arguments of a call, each of which must be a
/// truth value, a number or a string; or the first error that checking them
/// from left to right meets.
pub open spec fn arg_types(
    patterns: Seq<Ident>,
    root: Seq<TypeValue>,
    heap: Heap,
    frames: Seq<Map<Seq<char>, Symbol>>,
    top: int,
    e: Expr,
    n: int,
) -> Result<Seq<Type>, Failure>
    decreases e, 0int, n,
{
    match e.kind {
        ExprKind::Call { args, .. } => if n <= 0 || n > args@.len() {
            Ok(Seq::empty())
        } else {
            match arg_types(patterns, root, heap, frames, top, e, n - 1) {
                Err(f) => Err(f),
                Ok(before) => match type_of(patterns, root, heap, frames, top, args@[n - 1]) {
                    Err(f) => Err(f),
                    Ok(ty) => match mismatch(Expected::Scalar, ty, args@[n - 1].span) {
                        Some(f) => Err(f),
                        None => Ok(before.push(ty)),
                    },
                },
            }
        },
        _ => Ok(Seq::empty()),
    }
}

/// The warning for a value of type `ty` that stands for a truth value: one
/// warning where the type is not boolean, none where it is.
pub open spec fn cast_notice(ty: Type, span: Span) -> Seq<Notice> {
    if ty == Type::Bool {
        Seq::empty()
    } else {
        seq![Notice::NonBooleanCondition { got: ty, span }]
    }
}

/// The type of `e`, where it has one.
pub open spec fn ok_type(
    patterns: Seq<Ident>,
    root: Seq<TypeValue>,
    heap: Heap,
    frames: Seq<Map<Seq<char>, Symbol>>,
    top: int,
    e: Expr,
) -> Type {
    match type_of(patterns, root, heap, frames, top, e) {
        Ok(ty) => ty,
        Err(_) => Type::Unknown,
    }
}

/// The warnings that checking an expression raises, in their order: one for
/// each operand of `not`, `and`, `or` and each condition of a loop that is
/// not boolean.
pub open spec fn casts_of(
    patterns: Seq<Ident>,
    root: Seq<TypeValue>,
    heap: Heap,
    frames: Seq<Map<Seq<char>, Symbol>>,
    top: int,
    e: Expr,
) -> Seq<Notice>
    decreases e, 1int,
{
    match e.kind {
        ExprKind::Call { args, .. } => arg_casts(
            patterns,
            root,
            heap,
            frames,
            top,
            e,
            args@.len() as int,
        ),
        ExprKind::Not(a) => casts_of(patterns, root, heap, frames, top, *a) + cast_notice(
            ok_type(patterns, root, heap, frames, top, *a),
            a.span,
        ),
        ExprKind::PatternAt(ident, a) => if declared(patterns, ident@) {
            casts_of(patterns, root, heap, frames, top, *a)
        } else {
            Seq::empty()
        },
        ExprKind::PatternIn(ident, a, b) => if declared(patterns, ident@) {
            casts_of(patterns, root, heap, frames, top, *a) + casts_of(
                patterns,
                root,
                heap,
                frames,
                top,
                *b,
            )
        } else {
            Seq::empty()
        },
        ExprKind::And(a, b) | ExprKind::Or(a, b) => casts_of(patterns, root, heap, frames, top, *a)
            + cast_notice(ok_type(patterns, root, heap, frames, top, *a), a.span) + casts_of(
            patterns,
            root,
            heap,
            frames,
            top,
            *b,
        ) + cast_notice(ok_type(patterns, root, heap, frames, top, *b), b.span),
        ExprKind::Compare(_, a, b) | ExprKind::Arith(_, a, b) => casts_of(
            patterns,
            root,
            heap,
            frames,
            top,
            *a,
        ) + casts_of(patterns, root, heap, frames, top, *b),
        ExprKind::ForIn { var, lower, upper, condition } => casts_of(
            patterns,
            root,
            heap,
            frames,
            top,
            *lower,
        ) + casts_of(patterns, root, heap, frames, top, *upper) + casts_of(
            patterns,
            root,
            heap,
            with_loop_var(frames, var.name@, top),
            top + 1,
            *condition,
        ) + cast_notice(
            ok_type(
                patterns,
                root,
                heap,
                with_loop_var(frames, var.name@, top),
                top + 1,
                *condition,
            ),
            condition.span,
        ),
        _ => Seq::empty(),
    }
}

/// The warnings that checking the first `n` arguments of a call raises.
pub open spec fn arg_casts(
    patterns: Seq<Ident>,
    root: Seq<TypeValue>,
    heap: Heap,
    frames: Seq<Map<Seq<char>, Symbol>>,
    top: int,
    e: Expr,
    n: int,
) -> Seq<Notice>
    decreases e, 0int, n,
{
    match e.kind {
        ExprKind::Call { args, .. } => if n <= 0 || n > args@.len() {
            Seq::empty()
        } else {
            arg_casts(patterns, root, heap, frames, top, e, n - 1) + casts_of(
                patterns,
                root,
                heap,
                frames,
                top,
                args@[n - 1],
            )
        },
        _ => Seq::empty(),
    }
}

/// Tells whether one of `patterns` has the name `name`.
pub fn is_declared(patterns: &Vec<Ident>, name: &str) -> (b: bool)
    ensures
        b == declared(patterns@, name@),
{
    let mut i: usize = 0;
    while i < patterns.len()
        invariant
            i <= patterns.len(),
            forall|j: int| 0 <= j < i ==> (#[trigger] patterns@[j]).name@ != name@,
        decreases patterns.len() - i,
    {
        if string_equal(patterns[i].name.as_str(), name) {
            assert(patterns@[i as int].name@ == name@);
            return true;
        }
        i += 1;
    }
    false
}

/// The error for a type that its place does not accept, if it does not.
pub fn check_type(expected: Expected, got: Type, span: Span) -> (r: Result<(), CompileError>)
    ensures
        match r {
            Ok(_) => mismatch(expected, got, span) is None,
            Err(e) => mismatch(expected, got, span) == Some(e@),
        },
{
    if expected.accepts(got) {
        Ok(())
    } else {
        Err(CompileError::WrongType { expected, got, span })
    }
}

/// Raises a warning where a value of type `ty` stands for a truth value and
/// is not boolean.
pub fn warn_if_not_bool(ctx: &mut Context, ty: Type, span: Span)
    ensures
        final(ctx).symbol_table == old(ctx).symbol_table,
        final(ctx).vars_stack_top == old(ctx).vars_stack_top,
        notices(final(ctx).warnings@) == notices(old(ctx).warnings@) + cast_notice(ty, span),
{
    match ty {
        Type::Bool => {
            assert(notices(ctx.warnings@) =~= notices(old(ctx).warnings@) + cast_notice(ty, span));
        },
        _ => {
            ctx.warnings.push(Warning::NonBooleanCondition { got: ty, span });
            assert(notices(ctx.warnings@) =~= notices(old(ctx).warnings@) + cast_notice(ty, span));
        },
    }
}

/// Checks an `of` expression: the percentage, if there is one, and that the
/// patterns it speaks of exist.
#[verifier::loop_isolation(false)]
pub fn check_quantified(
    patterns: &Vec<Ident>,
    quantifier: &Quantifier,
    set: &PatternSet,
    span: Span,
) -> (r: Result<Type, CompileError>)
    ensures
        match r {
            Ok(ty) => type_of_quantified(patterns@, *quantifier, *set, span) == Ok::<Type, Failure>(ty),
            Err(e) => type_of_quantified(patterns@, *quantifier, *set, span) == Err::<Type, Failure>(e@),
        },
{
    match quantifier {
        Quantifier::Percent(p) => {
            if *p < 1 || *p > 100 {
                return Err(CompileError::InvalidPercentage { value: *p, span });
            }
        },
        _ => {},
    }
    match set {
        PatternSet::Them => {
            if patterns.len() == 0 {
                Err(CompileError::EmptyPatternSet { span })
            } else {
                Ok(Type::Bool)
            }
        },
        PatternSet::Named(idents) => {
            let mut i: usize = 0;
            while i < idents.len()
                invariant
                    i <= idents.len(),
                    first_undeclared(patterns@, idents@, 0) == first_undeclared(
                        patterns@,
                        idents@,
                        i as int,
                    ),
                decreases idents.len() - i,
            {
                if !is_declared(patterns, idents[i].name.as_str()) {
                    return Err(
                        CompileError::UnknownIdentifier {
                            name: idents[i].name.clone(),
                            span: idents[i].span,
                        },
                    );
                }
                i += 1;
            }
            Ok(Type::Bool)
        },
    }
}

/// Resolves the chain of field accesses `a.b.c`, given as its identifiers,
/// to the path of field indices that leads to the last field, and to that
/// field's type.
#[verifier::loop_isolation(false)]
pub fn resolve_path(env: &Env, ctx: &Context, idents: &Vec<Ident>) -> (r: Result<
    (Vec<usize>, Type),
    CompileError,
>)
    requires
        env.wf(),
        ctx.wf(),
    ensures
        match r {
            Ok((path, ty)) => resolve(
                env.modules_struct.values(),
                *env.heap,
                ctx.symbol_table@,
                idents@,
            ) == Ok::<(Seq<usize>, Type), Failure>((path@, ty)),
            Err(e) => resolve(env.modules_struct.values(), *env.heap, ctx.symbol_table@, idents@) == Err::<
                (Seq<usize>, Type),
                Failure,
            >(e@),
        },
{
    let mut path: Vec<usize> = Vec::new();
    if idents.len() == 0 {
        return Ok((path, Type::Unknown));
    }
    let first = &idents[0];
    let symbol = match ctx.symbol_table.lookup(first.name.as_str()) {
        Some(symbol) => symbol,
        None => {
            return Err(
                CompileError::UnknownIdentifier { name: first.name.clone(), span: first.span },
            );
        },
    };
    let index = match symbol.kind {
        SymbolKind::FieldIndex(i) => i,
        _ => {
            if idents.len() == 1 {
                return Ok((path, symbol.ty));
            }
            return Err(
                CompileError::WrongType {
                    expected: Expected::Struct,
                    got: symbol.ty,
                    span: first.span,
                },
            );
        },
    };
    if index < 0 {
        return Err(CompileError::UnknownIdentifier { name: first.name.clone(), span: first.span });
    }
    let mut value = match env.modules_struct.field_by_index(index as usize) {
        Some(field) => field.type_value,
        None => {
            return Err(
                CompileError::UnknownIdentifier { name: first.name.clone(), span: first.span },
            );
        },
    };
    path.push(index as usize);
    let ghost goal = resolve(env.modules_struct.values(), *env.heap, ctx.symbol_table@, idents@);
    let mut k: usize = 1;
    while k < idents.len()
        invariant
            1 <= k <= idents.len(),
            env.wf(),
            goal == resolve_fields(*env.heap, value, idents@, k as int, path@),
        decreases idents.len() - k,
    {
        let ident = &idents[k];
        let id = match value {
            TypeValue::Struct(id) => id,
            _ => {
                return Err(
                    CompileError::WrongType {
                        expected: Expected::Struct,
                        got: value.ty(),
                        span: idents[k - 1].span,
                    },
                );
            },
        };
        if id >= env.heap.structs.len() {
            return Err(
                CompileError::UnknownIdentifier { name: ident.name.clone(), span: ident.span },
            );
        }
        let s = &env.heap.structs[id];
        let j = match s.index_of(ident.name.as_str()) {
            Some(j) => j,
            None => {
                return Err(
                    CompileError::UnknownIdentifier { name: ident.name.clone(), span: ident.span },
                );
            },
        };
        proof {
            let j0 = s.field_names().index_of(ident.name@);
            assert(s.field_names()[j as int] == ident.name@);
            assert(s.field_names()[j0] == ident.name@);
            s.lemma_names_distinct(j as int, j0);
        }
        value = s.fields_ref()[j].type_value;
        path.push(j);
        k += 1;
    }
    Ok((path, value.ty()))
}

/// A path that starts at a module has one index for each identifier of the
/// chain: one more than the chain has dots.
pub proof fn lemma_path_length(
    root: Seq<TypeValue>,
    heap: Heap,
    frames: Seq<Map<Seq<char>, Symbol>>,
    idents: Seq<Ident>,
)
    requires
        idents.len() > 0,
        innermost(frames, idents[0].name@) matches Some(symbol) && symbol.kind is FieldIndex,
    ensures
        resolve(root, heap, frames, idents) matches Ok((path, _)) ==> path.len() == idents.len(),
{
    let symbol = innermost(frames, idents[0].name@)->0;
    let i = symbol.kind->FieldIndex_0;
    if 0 <= i < root.len() {
        lemma_resolve_fields_length(
            heap,
            root[i as int],
            idents,
            1,
            seq![i as usize],
        );
    }
}

/// `resolve_fields` adds one index for each identifier that it follows.
pub proof fn lemma_resolve_fields_length(
    heap: Heap,
    value: TypeValue,
    idents: Seq<Ident>,
    k: int,
    path: Seq<usize>,
)
    requires
        1 <= k <= idents.len(),
    ensures
        resolve_fields(heap, value, idents, k, path) matches Ok((p, _)) ==> p.len() == path.len()
            + idents.len() - k,
    decreases idents.len() - k,
{
    if k < idents.len() {
        match value {
            TypeValue::Struct(id) => {
                if id < heap.structs@.len() && heap.structs@[id as int].field_names().contains(
                    idents[k].name@,
                ) {
                    let s = heap.structs@[id as int];
                    let j = s.field_names().index_of(idents[k].name@);
                    lemma_resolve_fields_length(
                        heap,
                        s.fields()[j].type_value,
                        idents,
                        k + 1,
                        path.push(j as usize),
                    );
                }
            },
            _ => {},
        }
    }
}

/// What `semcheck` promises of its result and of the warnings, given the
/// state before and after.
pub open spec fn checked(
    env: Env,
    before: Context,
    after: Context,
    e: Expr,
    r: Result<Type, CompileError>,
) -> bool {
    let expected = type_of(
        env.patterns@,
        env.modules_struct.values(),
        *env.heap,
        before.symbol_table@,
        before.vars_stack_top as int,
        e,
    );
    &&& restored(before, after)
    &&& match r {
        Ok(ty) => expected == Ok::<Type, Failure>(ty) && notices(after.warnings@) == notices(
            before.warnings@,
        ) + casts_of(
            env.patterns@,
            env.modules_struct.values(),
            *env.heap,
            before.symbol_table@,
            before.vars_stack_top as int,
            e,
        ),
        Err(err) => expected == Err::<Type, Failure>(err@) && notices(
            before.warnings@,
        ).is_prefix_of(notices(after.warnings@)),
    }
}

/// The scopes and the loop variables are as they were.
pub open spec fn restored(before: Context, after: Context) -> bool {
    &&& after.wf()
    &&& after.symbol_table@ == before.symbol_table@
    &&& after.vars_stack_top == before.vars_stack_top
}

/// The type of an operand that must be one of the types `expected`.
pub open spec fn operand_type(
    patterns: Seq<Ident>,
    root: Seq<TypeValue>,
    heap: Heap,
    frames: Seq<Map<Seq<char>, Symbol>>,
    top: int,
    a: Expr,
    expected: Expected,
) -> Result<Type, Failure> {
    match type_of(patterns, root, heap, frames, top, a) {
        Err(f) => Err(f),
        Ok(ta) => match mismatch(expected, ta, a.span) {
            Some(f) => Err(f),
            None => Ok(ta),
        },
    }
}

/// The warnings of an operand, with the one for its cast to a truth value
/// where `truth` is set.
pub open spec fn operand_casts(
    patterns: Seq<Ident>,
    root: Seq<TypeValue>,
    heap: Heap,
    frames: Seq<Map<Seq<char>, Symbol>>,
    top: int,
    a: Expr,
    truth: bool,
) -> Seq<Notice> {
    if truth {
        casts_of(patterns, root, heap, frames, top, a) + cast_notice(
            ok_type(patterns, root, heap, frames, top, a),
            a.span,
        )
    } else {
        casts_of(patterns, root, heap, frames, top, a)
    }
}

/// What `check_operand` promises.
pub open spec fn operand_checked(
    env: Env,
    before: Context,
    after: Context,
    a: Expr,
    expected: Expected,
    truth: bool,
    r: Result<Type, CompileError>,
) -> bool {
    let ty = operand_type(
        env.patterns@,
        env.modules_struct.values(),
        *env.heap,
        before.symbol_table@,
        before.vars_stack_top as int,
        a,
        expected,
    );
    &&& restored(before, after)
    &&& match r {
        Ok(t) => ty == Ok::<Type, Failure>(t) && notices(after.warnings@) == notices(
            before.warnings@,
        ) + operand_casts(
            env.patterns@,
            env.modules_struct.values(),
            *env.heap,
            before.symbol_table@,
            before.vars_stack_top as int,
            a,
            truth,
        ),
        Err(err) => ty == Err::<Type, Failure>(err@) && notices(before.warnings@).is_prefix_of(
            notices(after.warnings@),
        ),
    }
}

/// Checks an operand: the expression itself, then its type against what
/// its place accepts. Where `truth` is set the operand stands for a truth
/// value, and a warning is raised if it is not boolean.
pub fn check_operand(env: &Env, ctx: &mut Context, a: &Expr, expected: Expected, truth: bool) -> (r:
    Result<Type, CompileError>)
    requires
        env.wf(),
        old(ctx).wf(),
    ensures
        operand_checked(*env, *old(ctx), *final(ctx), *a, expected, truth, r),
    decreases a, 4nat,
{
    let ghost w0 = notices(ctx.warnings@);
    let ta = match semcheck(env, ctx, a) {
        Ok(ta) => ta,
        Err(err) => {
            return Err(err);
        },
    };
    match check_type(expected, ta, a.span) {
        Ok(_) => {},
        Err(err) => {
            assert(w0.is_prefix_of(notices(ctx.warnings@)));
            return Err(err);
        },
    }
    if truth {
        let ghost w1 = notices(ctx.warnings@);
        warn_if_not_bool(ctx, ta, a.span);
        assert(notices(ctx.warnings@) =~= w0 + operand_casts(
            env.patterns@,
            env.modules_struct.values(),
            *env.heap,
            old(ctx).symbol_table@,
            old(ctx).vars_stack_top as int,
            *a,
            truth,
        ));
    }
    Ok(ta)
}

/// Checks `not a`.
fn check_not(env: &Env, ctx: &mut Context, e: &Expr) -> (r: Result<Type, CompileError>)
    requires
        env.wf(),
        old(ctx).wf(),
        e.kind is Not,
    ensures
        checked(*env, *old(ctx), *final(ctx), *e, r),
    decreases e, 0nat,
{
    match &e.kind {
        ExprKind::Not(a) => match check_operand(env, ctx, a, Expected::Scalar, true) {
            Ok(_) => Ok(Type::Bool),
            Err(err) => Err(err),
        },
        _ => Ok(Type::Unknown),
    }
}

/// Checks a pattern with the offsets at which it is looked for.
fn check_anchored(env: &Env, ctx: &mut Context, e: &Expr) -> (r: Result<Type, CompileError>)
    requires
        env.wf(),
        old(ctx).wf(),
        e.kind is PatternAt || e.kind is PatternIn,
    ensures
        checked(*env, *old(ctx), *final(ctx), *e, r),
    decreases e, 1nat,
{
    let ghost w0 = notices(ctx.warnings@);
    proof {
        assert(w0 + Seq::<Notice>::empty() =~= w0);
        assert(w0.is_prefix_of(w0));
    }
    match &e.kind {
        ExprKind::PatternAt(ident, a) => {
            if !is_declared(env.patterns, ident.as_str()) {
                return Err(CompileError::UnknownIdentifier { name: ident.clone(), span: e.span });
            }
            match check_operand(env, ctx, a, Expected::Integer, false) {
                Ok(_) => Ok(Type::Bool),
                Err(err) => Err(err),
            }
        },
        ExprKind::PatternIn(ident, a, b) => {
            if !is_declared(env.patterns, ident.as_str()) {
                return Err(CompileError::UnknownIdentifier { name: ident.clone(), span: e.span });
            }
            let r = check_operands(env, ctx, e, a, b, Expected::Integer, false);
            proof {
                let ca = casts_of(
                    env.patterns@,
                    env.modules_struct.values(),
                    *env.heap,
                    old(ctx).symbol_table@,
                    old(ctx).vars_stack_top as int,
                    **a,
                );
                let cb = casts_of(
                    env.patterns@,
                    env.modules_struct.values(),
                    *env.heap,
                    old(ctx).symbol_table@,
                    old(ctx).vars_stack_top as int,
                    **b,
                );
                assert(w0 + ca + cb =~= w0 + (ca + cb));
            }
            match r {
                Ok(_) => Ok(Type::Bool),
                Err(err) => Err(err),
            }
        },
        _ => Ok(Type::Unknown),
    }
}

/// Checks two operands, one after the other.
fn check_operands(
    env: &Env,
    ctx: &mut Context,
    e: &Expr,
    a: &Expr,
    b: &Expr,
    first: Expected,
    truth: bool,
) -> (r: Result<(Type, Type), CompileError>)
    requires
        env.wf(),
        old(ctx).wf(),
        decreases_to!(e => a),
        decreases_to!(e => b),
    ensures
        restored(*old(ctx), *final(ctx)),
        ({
            let patterns = env.patterns@;
            let root = env.modules_struct.values();
            let heap = *env.heap;
            let frames = old(ctx).symbol_table@;
            let top = old(ctx).vars_stack_top as int;
            let ra = operand_type(patterns, root, heap, frames, top, *a, first);
            match r {
                Ok((ta, tb)) => {
                    &&& ra == Ok::<Type, Failure>(ta)
                    &&& operand_type(patterns, root, heap, frames, top, *b, second(first, ta))
                        == Ok::<Type, Failure>(tb)
                    &&& notices(final(ctx).warnings@) == notices(old(ctx).warnings@)
                        + operand_casts(patterns, root, heap, frames, top, *a, truth)
                        + operand_casts(patterns, root, heap, frames, top, *b, truth)
                },
                Err(err) => {
                    &&& notices(old(ctx).warnings@).is_prefix_of(notices(final(ctx).warnings@))
                    &&& match ra {
                        Err(f) => err@ == f,
                        Ok(ta) => operand_type(
                            patterns,
                            root,
                            heap,
                            frames,
                            top,
                            *b,
                            second(first, ta),
                        ) == Err::<Type, Failure>(err@),
                    }
                },
            }
        }),
    decreases e, 0nat,
{
    let ghost w0 = notices(ctx.warnings@);
    let ta = match check_operand(env, ctx, a, first, truth) {
        Ok(ta) => ta,
        Err(err) => {
            return Err(err);
        },
    };
    let then = match first {
        Expected::Comparable => match ta {
            Type::String => Expected::String,
            _ => Expected::Numeric,
        },
        _ => first,
    };
    let ghost w1 = notices(ctx.warnings@);
    match check_operand(env, ctx, b, then, truth) {
        Ok(tb) => {
            Ok((ta, tb))
        },
        Err(err) => {
            assert(w0.is_prefix_of(w1));
            assert(w0.is_prefix_of(notices(ctx.warnings@)));
            Err(err)
        },
    }
}

/// What the second operand must be, given what the first had to be and
/// what it is: the second side of a comparison must be of the kind of the
/// first; everywhere else both sides must meet the same demand.
pub open spec fn second(first: Expected, ta: Type) -> Expected {
    if first == Expected::Comparable {
        same_kind(ta)
    } else {
        first
    }
}

/// The warnings of an expression with two operands are those of the first
/// operand followed by those of the second.
proof fn lemma_binary_casts(env: Env, ctx: Context, e: Expr)
    requires
        e.kind is And || e.kind is Or || e.kind is Compare || e.kind is Arith,
    ensures
        ({
            let patterns = env.patterns@;
            let root = env.modules_struct.values();
            let heap = *env.heap;
            let frames = ctx.symbol_table@;
            let top = ctx.vars_stack_top as int;
            let w = notices(ctx.warnings@);
            let truth = e.kind is And || e.kind is Or;
            match e.kind {
                ExprKind::And(a, b)
                | ExprKind::Or(a, b)
                | ExprKind::Compare(_, a, b)
                | ExprKind::Arith(_, a, b) => w + operand_casts(
                    patterns,
                    root,
                    heap,
                    frames,
                    top,
                    *a,
                    truth,
                ) + operand_casts(patterns, root, heap, frames, top, *b, truth) == w + casts_of(
                    patterns,
                    root,
                    heap,
                    frames,
                    top,
                    e,
                ),
                _ => true,
            }
        }),
{
    let patterns = env.patterns@;
    let root = env.modules_struct.values();
    let heap = *env.heap;
    let frames = ctx.symbol_table@;
    let top = ctx.vars_stack_top as int;
    let w = notices(ctx.warnings@);
    let truth = e.kind is And || e.kind is Or;
    match e.kind {
        ExprKind::And(a, b) | ExprKind::Or(a, b) | ExprKind::Compare(_, a, b) | ExprKind::Arith(
            _,
            a,
            b,
        ) => {
            assert(w + operand_casts(patterns, root, heap, frames, top, *a, truth) + operand_casts(
                patterns,
                root,
                heap,
                frames,
                top,
                *b,
                truth,
            ) =~= w + casts_of(patterns, root, heap, frames, top, e));
        },
        _ => {},
    }
}

/// Checks `a and b`, `a or b`, a comparison, or arithmetic.
fn check_binary(env: &Env, ctx: &mut Context, e: &Expr) -> (r: Result<Type, CompileError>)
    requires
        env.wf(),
        old(ctx).wf(),
        e.kind is And || e.kind is Or || e.kind is Compare || e.kind is Arith,
    ensures
        checked(*env, *old(ctx), *final(ctx), *e, r),
    decreases e, 1nat,
{
    proof {
        lemma_binary_casts(*env, *ctx, *e);
    }
    match &e.kind {
        ExprKind::And(a, b) | ExprKind::Or(a, b) => match check_operands(
            env,
            ctx,
            e,
            a,
            b,
            Expected::Scalar,
            true,
        ) {
            Ok(_) => Ok(Type::Bool),
            Err(err) => Err(err),
        },
        ExprKind::Compare(op, a, b) => match check_operands(
            env,
            ctx,
            e,
            a,
            b,
            if op.takes_strings() {
                Expected::String
            } else {
                Expected::Comparable
            },
            false,
        ) {
            Ok(_) => Ok(Type::Bool),
            Err(err) => Err(err),
        },
        ExprKind::Arith(op, a, b) => match check_operands(
            env,
            ctx,
            e,
            a,
            b,
            if op.takes_bits() {
                Expected::Integer
            } else {
                Expected::Numeric
            },
            false,
        ) {
            Ok((ta, tb)) => match (ta, tb) {
                (Type::Float, _) | (_, Type::Float) => Ok(Type::Float),
                _ => Ok(Type::Integer),
            },
            Err(err) => Err(err),
        },
        _ => Ok(Type::Unknown),
    }
}

/// Checks a `for` loop: its bounds, then its condition with the loop
/// variable in scope. The scope and the variable's slot are given back
/// before the function returns.
fn check_for(env: &Env, ctx: &mut Context, e: &Expr) -> (r: Result<Type, CompileError>)
    requires
        env.wf(),
        old(ctx).wf(),
        e.kind is ForIn,
    ensures
        checked(*env, *old(ctx), *final(ctx), *e, r),
    decreases e, 1nat,
{
    let ghost w0 = notices(ctx.warnings@);
    match &e.kind {
        ExprKind::ForIn { var, lower, upper, condition } => {
            match check_operands(env, ctx, e, lower, upper, Expected::Integer, false) {
                Ok(_) => {},
                Err(err) => {
                    return Err(err);
                },
            }
            let ghost w2 = notices(ctx.warnings@);
            let ghost frames = ctx.symbol_table@;
            let ghost top = ctx.vars_stack_top as int;
            proof {
                let cl = casts_of(env.patterns@, env.modules_struct.values(), *env.heap, frames, top, **lower);
                let cu = casts_of(env.patterns@, env.modules_struct.values(), *env.heap, frames, top, **upper);
                let cc = operand_casts(
                    env.patterns@,
                    env.modules_struct.values(),
                    *env.heap,
                    with_loop_var(frames, var.name@, top),
                    top + 1,
                    **condition,
                    true,
                );
                assert(w2 == w0 + cl + cu);
                assert(w0 + cl + cu + cc =~= w0 + casts_of(
                    env.patterns@,
                    env.modules_struct.values(),
                    *env.heap,
                    frames,
                    top,
                    *e,
                ));
            }
            let v = match ctx.new_var(Type::Integer) {
                Some(v) => v,
                None => {
                    assert(w0.is_prefix_of(notices(ctx.warnings@)));
                    return Err(CompileError::TooManyNestedLoops { span: e.span });
                },
            };
            ctx.symbol_table.push_new();
            ctx.symbol_table.insert(
                var.name.as_str(),
                Symbol { ty: Type::Integer, kind: SymbolKind::LoopVar(v) },
            );
            proof {
                assert(ctx.symbol_table@ =~= with_loop_var(frames, var.name@, top));
            }
            let body = check_operand(env, ctx, condition, Expected::Scalar, true);
            ctx.symbol_table.pop();
            ctx.free_vars(v);
            proof {
                assert(ctx.symbol_table@ =~= frames);
                assert(w0.is_prefix_of(w2));
                assert(w0.is_prefix_of(notices(ctx.warnings@)));
            }
            match body {
                Ok(_) => Ok(Type::Bool),
                Err(err) => Err(err),
            }
        },
        _ => Ok(Type::Unknown),
    }
}

/// Checks a call: the function, then the arguments from left to right,
/// then that an overload of the function takes arguments of their types.
#[verifier::loop_isolation(false)]
fn check_call(env: &Env, ctx: &mut Context, e: &Expr) -> (r: Result<Type, CompileError>)
    requires
        env.wf(),
        old(ctx).wf(),
        e.kind is Call,
    ensures
        checked(*env, *old(ctx), *final(ctx), *e, r),
    decreases e, 1nat,
{
    let ghost w0 = notices(ctx.warnings@);
    let ghost patterns = env.patterns@;
    let ghost root = env.modules_struct.values();
    let ghost heap = *env.heap;
    let ghost frames = ctx.symbol_table@;
    let ghost top = ctx.vars_stack_top as int;
    proof {
        assert(w0.is_prefix_of(w0));
    }
    match &e.kind {
        ExprKind::Call { callee, args } => {
            let symbol = match ctx.symbol_table.lookup(callee.name.as_str()) {
                Some(symbol) => symbol,
                None => {
                    return Err(
                        CompileError::UnknownIdentifier {
                            name: callee.name.clone(),
                            span: callee.span,
                        },
                    );
                },
            };
            let id = match symbol.kind {
                SymbolKind::Func(id) => id,
                _ => {
                    return Err(
                        CompileError::WrongType {
                            expected: Expected::Func,
                            got: symbol.ty,
                            span: callee.span,
                        },
                    );
                },
            };
            if id >= env.heap.funcs.len() {
                return Err(
                    CompileError::UnknownIdentifier {
                        name: callee.name.clone(),
                        span: callee.span,
                    },
                );
            }
            let mut types: Vec<Type> = Vec::new();
            let mut i: usize = 0;
            proof {
                assert(w0 + Seq::<Notice>::empty() =~= w0);
            }
            while i < args.len()
                invariant
                    i <= args@.len(),
                    env.wf(),
                    e.kind == (ExprKind::Call { callee: *callee, args: *args }),
                    patterns == env.patterns@,
                    root == env.modules_struct.values(),
                    heap == *env.heap,
                    frames == old(ctx).symbol_table@,
                    top == old(ctx).vars_stack_top,
                    w0 == notices(old(ctx).warnings@),
                    restored(*old(ctx), *ctx),
                    arg_types(patterns, root, heap, frames, top, *e, i as int) == Ok::<
                        Seq<Type>,
                        Failure,
                    >(types@),
                    notices(ctx.warnings@) == w0 + arg_casts(
                        patterns,
                        root,
                        heap,
                        frames,
                        top,
                        *e,
                        i as int,
                    ),
                decreases args@.len() - i,
            {
                let ghost shown = arg_casts(patterns, root, heap, frames, top, *e, i as int);
                let ghost now = notices(ctx.warnings@);
                match check_operand(env, ctx, &args[i], Expected::Scalar, false) {
                    Ok(ty) => {
                        types.push(ty);
                        proof {
                            let more = casts_of(patterns, root, heap, frames, top, args@[i as int]);
                            assert(w0 + shown + more =~= w0 + (shown + more));
                        }
                    },
                    Err(err) => {
                        proof {
                            assert(w0.is_prefix_of(now));
                            assert(w0.is_prefix_of(notices(ctx.warnings@)));
                            lemma_arg_types_fail(
                                patterns,
                                root,
                                heap,
                                frames,
                                top,
                                *e,
                                i + 1,
                                args@.len() as int,
                            );
                        }
                        return Err(err);
                    },
                }
                i += 1;
            }
            match env.heap.funcs[id].resolve(types.as_slice()) {
                Resolution::Found(_, result) => Ok(result),
                Resolution::WrongNumberOfArguments => {
                    proof {
                        assert(w0.is_prefix_of(notices(ctx.warnings@)));
                    }
                    Err(CompileError::WrongNumberOfArguments { span: e.span })
                },
                Resolution::NoMatchingOverload => {
                    proof {
                        assert(w0.is_prefix_of(notices(ctx.warnings@)));
                    }
                    Err(CompileError::NoMatchingOverload { span: e.span })
                },
            }
        },
        _ => Ok(Type::Unknown),
    }
}

/// Where an argument fails to check, the arguments up to any later place
/// fail with the same error.
proof fn lemma_arg_types_fail(
    patterns: Seq<Ident>,
    root: Seq<TypeValue>,
    heap: Heap,
    frames: Seq<Map<Seq<char>, Symbol>>,
    top: int,
    e: Expr,
    k: int,
    n: int,
)
    requires
        e.kind is Call,
        0 < k <= n <= e.kind->Call_args@.len(),
        arg_types(patterns, root, heap, frames, top, e, k) is Err,
    ensures
        arg_types(patterns, root, heap, frames, top, e, n) == arg_types(
            patterns,
            root,
            heap,
            frames,
            top,
            e,
            k,
        ),
    decreases n - k,
{
    if k < n {
        lemma_arg_types_fail(patterns, root, heap, frames, top, e, k, n - 1);
    }
}

/// Checks an expression: resolves its identifiers, finds its type, and
/// raises a warning wherever a value that is not boolean stands for a truth
/// value. The scopes and loop variables that the check opens are closed
/// again before it returns, whether it fails or not.
pub fn semcheck(env: &Env, ctx: &mut Context, e: &Expr) -> (r: Result<Type, CompileError>)
    requires
        env.wf(),
        old(ctx).wf(),
    ensures
        checked(*env, *old(ctx), *final(ctx), *e, r),
    decreases e, 3nat,
{
    let ghost w0 = notices(ctx.warnings@);
    proof {
        assert(w0 + Seq::<Notice>::empty() =~= w0);
        assert(w0.is_prefix_of(w0));
    }
    match &e.kind {
        ExprKind::True | ExprKind::False => Ok(Type::Bool),
        ExprKind::Filesize | ExprKind::LiteralInt(_) => Ok(Type::Integer),
        ExprKind::LiteralFloat(_) => Ok(Type::Float),
        ExprKind::LiteralStr(_) => Ok(Type::String),
        ExprKind::PatternMatch(ident) => {
            if is_declared(env.patterns, ident.as_str()) {
                Ok(Type::Bool)
            } else {
                Err(CompileError::UnknownIdentifier { name: ident.clone(), span: e.span })
            }
        },
        ExprKind::Of(quantifier, set) => check_quantified(env.patterns, quantifier, set, e.span),
        ExprKind::FieldAccess(idents) => match resolve_path(env, ctx, idents) {
            Ok((_, ty)) => Ok(ty),
            Err(err) => Err(err),
        },
        ExprKind::PatternAt(_, _) | ExprKind::PatternIn(_, _, _) => check_anchored(env, ctx, e),
        ExprKind::Not(_) => check_not(env, ctx, e),
        ExprKind::And(_, _) | ExprKind::Or(_, _) | ExprKind::Compare(_, _, _) | ExprKind::Arith(
            _,
            _,
            _,
        ) => check_binary(env, ctx, e),
        ExprKind::ForIn { .. } => check_for(env, ctx, e),
        ExprKind::Call { .. } => check_call(env, ctx, e),
    }
}

/// A condition whose loops are nested deeper than the free slots of the
/// stack of loop variables allow does not check.
pub proof fn lemma_deep_loops_rejected(
    patterns: Seq<Ident>,
    root: Seq<TypeValue>,
    heap: Heap,
    frames: Seq<Map<Seq<char>, Symbol>>,
    top: int,
    e: Expr,
)
    requires
        top <= MAX_VARS,
        top + e.loop_depth() > MAX_VARS,
    ensures
        type_of(patterns, root, heap, frames, top, e) is Err,
    decreases e, 1int,
{
    match e.kind {
        ExprKind::Call { callee, args } => {
            lemma_deep_args_rejected(patterns, root, heap, frames, top, e, args@.len() as int);
        },
        ExprKind::Not(a) | ExprKind::PatternAt(_, a) => {
            lemma_deep_loops_rejected(patterns, root, heap, frames, top, *a);
        },
        ExprKind::And(a, b)
        | ExprKind::Or(a, b)
        | ExprKind::Compare(_, a, b)
        | ExprKind::Arith(_, a, b)
        | ExprKind::PatternIn(_, a, b) => {
            if top + a.loop_depth() > MAX_VARS {
                lemma_deep_loops_rejected(patterns, root, heap, frames, top, *a);
            } else {
                lemma_deep_loops_rejected(patterns, root, heap, frames, top, *b);
            }
        },
        ExprKind::ForIn { var, lower, upper, condition } => {
            if top + lower.loop_depth() > MAX_VARS {
                lemma_deep_loops_rejected(patterns, root, heap, frames, top, *lower);
            } else if top + upper.loop_depth() > MAX_VARS {
                lemma_deep_loops_rejected(patterns, root, heap, frames, top, *upper);
            } else if top < MAX_VARS {
                lemma_deep_loops_rejected(
                    patterns,
                    root,
                    heap,
                    with_loop_var(frames, var.name@, top),
                    top + 1,
                    *condition,
                );
            }
        },
        _ => {},
    }
}

/// Arguments whose loops are nested too deep do not check.
pub proof fn lemma_deep_args_rejected(
    patterns: Seq<Ident>,
    root: Seq<TypeValue>,
    heap: Heap,
    frames: Seq<Map<Seq<char>, Symbol>>,
    top: int,
    e: Expr,
    n: int,
)
    requires
        e.kind is Call,
        top <= MAX_VARS,
        top + e.args_loop_depth(n) > MAX_VARS,
    ensures
        arg_types(patterns, root, heap, frames, top, e, n) is Err,
    decreases e, 0int, n,
{
    let args = e.kind->Call_args;
    if 0 < n <= args@.len() {
        if top + e.args_loop_depth(n - 1) > MAX_VARS {
            lemma_deep_args_rejected(patterns, root, heap, frames, top, e, n - 1);
        } else {
            lemma_deep_loops_rejected(patterns, root, heap, frames, top, args@[n - 1]);
        }
    }
}

/// The arguments of a call are rejected for too many nested loops only
/// where their loops are nested deeper than the free slots allow.
pub proof fn lemma_args_within_budget(
    patterns: Seq<Ident>,
    root: Seq<TypeValue>,
    heap: Heap,
    frames: Seq<Map<Seq<char>, Symbol>>,
    top: int,
    e: Expr,
    n: int,
)
    requires
        e.kind is Call,
        top + e.args_loop_depth(n) <= MAX_VARS,
    ensures
        !(arg_types(patterns, root, heap, frames, top, e, n) matches Err(
            Failure::TooManyNestedLoops { .. },
        )),
    decreases e, 0int, n,
{
    let args = e.kind->Call_args;
    if 0 < n <= args@.len() {
        lemma_args_within_budget(patterns, root, heap, frames, top, e, n - 1);
        lemma_loops_within_budget(patterns, root, heap, frames, top, args@[n - 1]);
    }
}

/// A condition is rejected for too many nested loops only where its loops
/// are nested deeper than the free slots allow: with `MAX_VARS` slots free,
/// loops nested `MAX_VARS` deep pass.
pub proof fn lemma_loops_within_budget(
    patterns: Seq<Ident>,
    root: Seq<TypeValue>,
    heap: Heap,
    frames: Seq<Map<Seq<char>, Symbol>>,
    top: int,
    e: Expr,
)
    requires
        top + e.loop_depth() <= MAX_VARS,
    ensures
        !(type_of(patterns, root, heap, frames, top, e) matches Err(
            Failure::TooManyNestedLoops { .. },
        )),
    decreases e, 1int,
{
    match e.kind {
        ExprKind::Call { callee, args } => {
            lemma_args_within_budget(patterns, root, heap, frames, top, e, args@.len() as int);
        },
        ExprKind::Of(quantifier, set) => {},
        ExprKind::FieldAccess(idents) => {
            lemma_resolve_no_loops(root, heap, frames, idents@);
        },
        ExprKind::Not(a) | ExprKind::PatternAt(_, a) => {
            lemma_loops_within_budget(patterns, root, heap, frames, top, *a);
        },
        ExprKind::And(a, b)
        | ExprKind::Or(a, b)
        | ExprKind::Compare(_, a, b)
        | ExprKind::Arith(_, a, b)
        | ExprKind::PatternIn(_, a, b) => {
            lemma_loops_within_budget(patterns, root, heap, frames, top, *a);
            lemma_loops_within_budget(patterns, root, heap, frames, top, *b);
        },
        ExprKind::ForIn { var, lower, upper, condition } => {
            lemma_loops_within_budget(patterns, root, heap, frames, top, *lower);
            lemma_loops_within_budget(patterns, root, heap, frames, top, *upper);
            lemma_loops_within_budget(
                patterns,
                root,
                heap,
                with_loop_var(frames, var.name@, top),
                top + 1,
                *condition,
            );
        },
        _ => {},
    }
}

/// Resolving a chain of field accesses never fails for too many loops.
pub proof fn lemma_resolve_no_loops(
    root: Seq<TypeValue>,
    heap: Heap,
    frames: Seq<Map<Seq<char>, Symbol>>,
    idents: Seq<Ident>,
)
    ensures
        !(resolve(root, heap, frames, idents) matches Err(Failure::TooManyNestedLoops { .. })),
{
    if idents.len() > 0 {
        match innermost(frames, idents[0].name@) {
            Some(symbol) => match symbol.kind {
                SymbolKind::FieldIndex(i) => {
                    if 0 <= i < root.len() {
                        lemma_resolve_fields_no_loops(
                            heap,
                            root[i as int],
                            idents,
                            1,
                            seq![i as usize],
                        );
                    }
                },
                _ => {},
            },
            None => {},
        }
    }
}

proof fn lemma_resolve_fields_no_loops(
    heap: Heap,
    value: TypeValue,
    idents: Seq<Ident>,
    k: int,
    path: Seq<usize>,
)
    ensures
        !(resolve_fields(heap, value, idents, k, path) matches Err(
            Failure::TooManyNestedLoops { .. },
        )),
    decreases idents.len() - k,
{
    if 1 <= k < idents.len() {
        match value {
            TypeValue::Struct(id) => {
                if id < heap.structs@.len() && heap.structs@[id as int].field_names().contains(
                    idents[k].name@,
                ) {
                    let s = heap.structs@[id as int];
                    let j = s.field_names().index_of(idents[k].name@);
                    lemma_resolve_fields_no_loops(
                        heap,
                        s.fields()[j].type_value,
                        idents,
                        k + 1,
                        path.push(j as usize),
                    );
                }
            },
            _ => {},
        }
    }
}

} // verus!
