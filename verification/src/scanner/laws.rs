//! What holds of every scan.

use crate::parser::ast::{Comparison, Expr, Namespace};
use crate::scanner::eval::{holds, reader, rule_named, run};
use crate::scanner::scan::{flags, matching, results, verdicts};
use crate::types::{Heap, TypeValue};
use crate::wasm::bytes::lemma_undefined_reads;
use vstd::prelude::*;

verus! {

/// The expression reads an integer at a fixed offset that lies before the
/// data of `len` bytes, or so that the integer would reach past their end.
pub open spec fn reads_outside(e: Expr, len: nat) -> bool {
    &&& e.kind is Call
    &&& e.kind->Call_args@.len() == 1
    &&& e.kind->Call_args@[0].kind is LiteralInt
    &&& reader(e.kind->Call_callee.name@) matches Some((size, _)) && ({
        let offset = e.kind->Call_args@[0].kind->LiteralInt_0;
        offset < 0 || offset + size > len
    })
}

/// Undefined is never fatal: a read outside the data is undefined, a
/// comparison with it is undefined whatever the other side is, and a rule
/// with that comparison as its condition does not match.
pub proof fn lemma_read_outside_is_no_match(
    data: Seq<u8>,
    heap: Heap,
    root: usize,
    known: Seq<(Seq<char>, bool)>,
    e: Expr,
)
    requires
        e.kind is Compare,
        reads_outside(*e.kind->Compare_1, data.len()),
    ensures
        run(data, heap, root, known, Seq::empty(), *e.kind->Compare_1).value is Undef,
        run(data, heap, root, known, Seq::empty(), e).value is Undef,
        !holds(data, heap, root, known, e),
{
    let a = *e.kind->Compare_1;
    let (size, big_endian) = reader(a.kind->Call_callee.name@)->0;
    let offset = a.kind->Call_args@[0].kind->LiteralInt_0;
    lemma_undefined_reads(data, offset as int, size as int, big_endian);
    let none = Seq::<(Seq<char>, i64)>::empty();
    assert(run(data, heap, root, known, none, a.kind->Call_args@[0]).value is Int);
    assert(run(data, heap, root, known, none, a).value is Undef);
}

/// The value of the field that `name` names in the structure with number
/// `s`, where there is such a structure and such a field.
pub open spec fn field_named(heap: Heap, s: usize, name: Seq<char>) -> Option<TypeValue> {
    if s < heap.structs@.len() && heap.structs@[s as int].wf()
        && heap.structs@[s as int].field_names().contains(name) {
        let st = heap.structs@[s as int];
        Some(st.fields()[st.field_names().index_of(name)].type_value)
    } else {
        None
    }
}

/// The integer that the field `field` of the module `module` holds for the
/// data of a scan, where the module has filled it.
pub open spec fn module_integer(heap: Heap, root: usize, module: Seq<char>, field: Seq<char>)
    -> Option<i64> {
    match field_named(heap, root, module) {
        Some(TypeValue::Struct(s)) => match field_named(heap, s, field) {
            Some(TypeValue::Integer(Some(v))) => Some(v),
            _ => None,
        },
        _ => None,
    }
}

/// A condition `m.f == k`, where no rule has the name of the module `m`,
/// holds exactly where the module has filled its field `f` with the
/// integer `k`. Where the field is absent, or not filled, or holds another
/// number, the condition does not hold.
pub proof fn lemma_module_field_decides(
    data: Seq<u8>,
    heap: Heap,
    root: usize,
    known: Seq<(Seq<char>, bool)>,
    e: Expr,
)
    requires
        e.kind is Compare,
        e.kind->Compare_0 == Comparison::Eq,
        e.kind->Compare_1.kind is FieldAccess,
        e.kind->Compare_1.kind->FieldAccess_0@.len() == 2,
        e.kind->Compare_2.kind is LiteralInt,
        rule_named(
            known,
            e.kind->Compare_1.kind->FieldAccess_0@[0].name@,
            known.len() as int,
        ) is None,
    ensures
        holds(data, heap, root, known, e) <==> module_integer(
            heap,
            root,
            e.kind->Compare_1.kind->FieldAccess_0@[0].name@,
            e.kind->Compare_1.kind->FieldAccess_0@[1].name@,
        ) == Some(e.kind->Compare_2.kind->LiteralInt_0),
{
    let a = *e.kind->Compare_1;
    let b = *e.kind->Compare_2;
    let idents = a.kind->FieldAccess_0@;
    let none = Seq::<(Seq<char>, i64)>::empty();
    reveal_with_fuel(crate::scanner::eval::walk_names, 4);
    assert(crate::scanner::eval::var_named(none, idents[0].name@, 0) is None);
    assert(run(data, heap, root, known, none, b).value == crate::scanner::values::Val::Int(
        b.kind->LiteralInt_0,
    ));
    assert(run(data, heap, root, known, none, a).value == crate::scanner::eval::walk_names(
        heap,
        TypeValue::Struct(root),
        idents,
        0,
    ));
}

/// The verdicts of a program with one rule: whether the condition of that
/// rule holds, with no rule known before it.
pub proof fn lemma_single_rule(data: Seq<u8>, heap: Heap, root: usize, program: Seq<Namespace>)
    requires
        program.len() == 1,
        program[0].rules@.len() == 1,
    ensures
        verdicts(data, heap, root, program, 1) == seq![
            holds(data, heap, root, Seq::empty(), program[0].rules@[0].condition),
        ],
        matching(verdicts(data, heap, root, program, 1), 1) == if holds(
            data,
            heap,
            root,
            Seq::empty(),
            program[0].rules@[0].condition,
        ) {
            seq![0i32]
        } else {
            Seq::<i32>::empty()
        },
{
    let rules = program[0].rules@;
    reveal_with_fuel(results, 3);
    reveal_with_fuel(verdicts, 3);
    reveal_with_fuel(matching, 3);
    let r = results(data, heap, root, rules, 1);
    assert(results(data, heap, root, rules, 0) =~= Seq::empty());
    assert(flags(r) =~= seq![holds(data, heap, root, Seq::empty(), rules[0].condition)]);
    let v = verdicts(data, heap, root, program, 1);
    assert(v =~= seq![holds(data, heap, root, Seq::empty(), rules[0].condition)]);
    assert(matching(v, 0) =~= Seq::<i32>::empty());
    if v[0] {
        assert(matching(v, 1) =~= seq![0i32]);
    }
}

} // verus!
