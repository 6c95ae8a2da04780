//! What conditions evaluate to.
//!
//! An expression is evaluated on the data of a scan and the structures of
//! the modules, from left to right. Of `and` and `or` the right side is
//! evaluated only where the left side does not decide. What is undefined
//! stays undefined through comparisons and arithmetic, and counts as false
//! where a rule asks whether its condition holds.
//!
//! Arithmetic and comparison of floats, the matching of patterns and the
//! functions of modules are left to the machine: here a float makes a
//! comparison or a sum undefined, no pattern matches, and only the
//! functions that read integers from the data can be called.

use crate::modules::string_equal;
use crate::parser::ast::{Arithmetic, Comparison, Expr, ExprKind, Ident, Quantifier};
use crate::parser::names::{bytes_less, bytes_lt};
use crate::scanner::values::{
    divide, modulo, of_truth, quotient, remainder, truth, Val, Value,
};
use crate::string_pool::{bytes_equal, copy_bytes};
use crate::types::{Heap, TypeValue};
use crate::wasm::bytes::{read_uint, uint_at};
use crate::wasm::strops::{contains, ends_with, equals, folded, occurs, occurs_at, starts_with};
use crate::wasm::values::MaybeUndef;
use vstd::prelude::*;

verus! {

/// A read of an integer from the scanned data.
#[derive(Clone, Copy, Debug, PartialEq, Eq, Structural)]
pub struct HostCall {
    /// How many bytes are read.
    pub size: usize,
    pub big_endian: bool,
    pub offset: i64,
}

/// What evaluating an expression gives: its value, and the reads that
/// were made on the way, in their order.
pub struct Outcome {
    pub value: Val,
    pub calls: Seq<HostCall>,
}

/// The size and byte order of the integer that a function reads.
pub open spec fn reader(name: Seq<char>) -> Option<(usize, bool)> {
    if name == "uint8"@ {
        Some((1usize, false))
    } else if name == "uint16"@ {
        Some((2usize, false))
    } else if name == "uint32"@ {
        Some((4usize, false))
    } else if name == "uint64"@ {
        Some((8usize, false))
    } else if name == "uint8be"@ {
        Some((1usize, true))
    } else if name == "uint16be"@ {
        Some((2usize, true))
    } else if name == "uint32be"@ {
        Some((4usize, true))
    } else if name == "uint64be"@ {
        Some((8usize, true))
    } else {
        None
    }
}

/// The size and byte order of the integer that a function reads.
pub fn reader_of(name: &str) -> (r: Option<(usize, bool)>)
    ensures
        r == reader(name@),
        r matches Some((size, _)) ==> 1 <= size <= 8,
{
    if string_equal(name, "uint8") {
        Some((1, false))
    } else if string_equal(name, "uint16") {
        Some((2, false))
    } else if string_equal(name, "uint32") {
        Some((4, false))
    } else if string_equal(name, "uint64") {
        Some((8, false))
    } else if string_equal(name, "uint8be") {
        Some((1, true))
    } else if string_equal(name, "uint16be") {
        Some((2, true))
    } else if string_equal(name, "uint32be") {
        Some((4, true))
    } else if string_equal(name, "uint64be") {
        Some((8, true))
    } else {
        None
    }
}

/// The value of a field that holds a truth value, a number or a string;
/// undefined where the field is not set or holds something else.
pub open spec fn scalar(heap: Heap, v: TypeValue) -> Val {
    match v {
        TypeValue::Bool(Some(b)) => Val::Bool(b),
        TypeValue::Integer(Some(i)) => Val::Int(i),
        TypeValue::Float(Some(bits)) => Val::Float(bits),
        TypeValue::String(Some(id)) => if id < heap.strings@.len() {
            Val::Str(heap.strings@[id as int]@)
        } else {
            Val::Undef
        },
        _ => Val::Undef,
    }
}

/// The value reached from `v` by the fields that `idents[k..]` name.
pub open spec fn walk_names(heap: Heap, v: TypeValue, idents: Seq<Ident>, k: int) -> Val
    decreases idents.len() - k,
{
    if k < 0 || k >= idents.len() {
        scalar(heap, v)
    } else {
        match v {
            TypeValue::Struct(id) => if id < heap.structs@.len() && heap.structs@[id as int].wf()
                && heap.structs@[id as int].field_names().contains(idents[k].name@) {
                let s = heap.structs@[id as int];
                walk_names(
                    heap,
                    s.fields()[s.field_names().index_of(idents[k].name@)].type_value,
                    idents,
                    k + 1,
                )
            } else {
                Val::Undef
            },
            _ => Val::Undef,
        }
    }
}

/// The value of the innermost of the first `n` loop variables that has
/// the name `name`.
pub open spec fn var_named(vars: Seq<(Seq<char>, i64)>, name: Seq<char>, n: int) -> Option<i64>
    decreases n,
{
    if n <= 0 || n > vars.len() {
        None
    } else if vars[n - 1].0 == name {
        Some(vars[n - 1].1)
    } else {
        var_named(vars, name, n - 1)
    }
}

/// Whether the last of the first `n` rules with the name `name` matched.
pub open spec fn rule_named(known: Seq<(Seq<char>, bool)>, name: Seq<char>, n: int) -> Option<bool>
    decreases n,
{
    if n <= 0 || n > known.len() {
        None
    } else if known[n - 1].0 == name {
        Some(known[n - 1].1)
    } else {
        rule_named(known, name, n - 1)
    }
}

/// The value that a chain of identifiers names: a loop variable, a rule,
/// or a field reached from the structure of the modules.
pub open spec fn named(
    heap: Heap,
    root: usize,
    known: Seq<(Seq<char>, bool)>,
    vars: Seq<(Seq<char>, i64)>,
    idents: Seq<Ident>,
) -> Val {
    if idents.len() == 0 {
        Val::Undef
    } else {
        match var_named(vars, idents[0].name@, vars.len() as int) {
            Some(v) => if idents.len() == 1 {
                Val::Int(v)
            } else {
                Val::Undef
            },
            None => match rule_named(known, idents[0].name@, known.len() as int) {
                Some(matched) => if idents.len() == 1 {
                    Val::Bool(matched)
                } else {
                    Val::Undef
                },
                None => walk_names(heap, TypeValue::Struct(root), idents, 0),
            },
        }
    }
}

/// The result of a comparison. Integers compare by their value, strings
/// by their bytes; anything else does not compare.
pub open spec fn compared(op: Comparison, a: Val, b: Val) -> Val {
    match (a, b) {
        (Val::Int(x), Val::Int(y)) => match op {
            Comparison::Eq => Val::Bool(x == y),
            Comparison::Ne => Val::Bool(x != y),
            Comparison::Lt => Val::Bool(x < y),
            Comparison::Le => Val::Bool(x <= y),
            Comparison::Gt => Val::Bool(x > y),
            Comparison::Ge => Val::Bool(x >= y),
            _ => Val::Undef,
        },
        (Val::Str(x), Val::Str(y)) => Val::Bool(
            match op {
                Comparison::Eq => x == y,
                Comparison::Ne => x != y,
                Comparison::Lt => bytes_lt(x, y),
                Comparison::Le => !bytes_lt(y, x),
                Comparison::Gt => bytes_lt(y, x),
                Comparison::Ge => !bytes_lt(x, y),
                Comparison::Contains => occurs(x, y),
                Comparison::StartsWith => occurs_at(x, y, 0),
                Comparison::EndsWith => occurs_at(x, y, x.len() - y.len()),
                Comparison::IEquals => folded(x, true) == folded(y, true),
                Comparison::IContains => occurs(folded(x, true), folded(y, true)),
                Comparison::IStartsWith => occurs_at(folded(x, true), folded(y, true), 0),
                Comparison::IEndsWith => occurs_at(
                    folded(x, true),
                    folded(y, true),
                    x.len() - y.len(),
                ),
            },
        ),
        _ => Val::Undef,
    }
}

/// The bits of an integer moved by a number of places, to the left or to
/// the right; the places that become free hold zeros. Moving by a negative
/// number is undefined; moving by 64 places or more leaves zero.
pub open spec fn shifted(x: i64, by: i64, left: bool) -> Val {
    if by < 0 {
        Val::Undef
    } else if by >= 64 {
        Val::Int(0)
    } else if left {
        Val::Int(((x as u64) << (by as u64)) as i64)
    } else {
        Val::Int(((x as u64) >> (by as u64)) as i64)
    }
}

/// The result of arithmetic on integers, which wraps around; a division
/// by zero is undefined. The operators on bits work on the 64 bits of an
/// integer.
pub open spec fn computed(op: Arithmetic, a: Val, b: Val) -> Val {
    match (a, b) {
        (Val::Int(x), Val::Int(y)) => match op {
            Arithmetic::Add => Val::Int(x.wrapping_add(y)),
            Arithmetic::Sub => Val::Int(x.wrapping_sub(y)),
            Arithmetic::Mul => Val::Int(x.wrapping_mul(y)),
            Arithmetic::Div => match quotient(x, y) {
                Some(q) => Val::Int(q),
                None => Val::Undef,
            },
            Arithmetic::Mod => match remainder(x, y) {
                Some(r) => Val::Int(r),
                None => Val::Undef,
            },
            Arithmetic::BitAnd => Val::Int(x & y),
            Arithmetic::BitOr => Val::Int(x | y),
            Arithmetic::BitXor => Val::Int(x ^ y),
            Arithmetic::Shl => shifted(x, y, true),
            Arithmetic::Shr => shifted(x, y, false),
        },
        _ => Val::Undef,
    }
}

/// Whether a pattern matches at an offset, or between two: no pattern
/// matches, so where the offsets are integers the answer is no, and where
/// one of them is not it is undefined.
pub open spec fn anchored(a: Val, b: Val) -> Val {
    match (a, b) {
        (Val::Int(_), Val::Int(_)) => Val::Bool(false),
        _ => Val::Undef,
    }
}

/// The result of `and`, given the truth of the left side and, where the
/// right side was looked at, its truth.
pub open spec fn conjunction(a: Option<bool>, b: Option<bool>) -> Val {
    match (a, b) {
        (Some(false), _) => Val::Bool(false),
        (_, Some(false)) => Val::Bool(false),
        (Some(true), Some(true)) => Val::Bool(true),
        _ => Val::Undef,
    }
}

/// The result of `or`, given the truth of the left side and, where the
/// right side was looked at, its truth.
pub open spec fn disjunction(a: Option<bool>, b: Option<bool>) -> Val {
    match (a, b) {
        (Some(true), _) => Val::Bool(true),
        (_, Some(true)) => Val::Bool(true),
        (Some(false), Some(false)) => Val::Bool(false),
        _ => Val::Undef,
    }
}

/// The result of `<quantifier> of <patterns>` where no pattern matches.
pub open spec fn quantified(q: Quantifier) -> Val {
    match q {
        Quantifier::Any | Quantifier::All => Val::Bool(false),
        Quantifier::Count(n) => Val::Bool(n <= 0),
        Quantifier::Percent(p) => Val::Bool(p <= 0),
    }
}

/// What evaluating `e` gives, on the data `data` and the structures of
/// `heap` under `root`, where `known` says which of the rules before
/// matched and `vars` holds the loop variables.
pub open spec fn run(
    data: Seq<u8>,
    heap: Heap,
    root: usize,
    known: Seq<(Seq<char>, bool)>,
    vars: Seq<(Seq<char>, i64)>,
    e: Expr,
) -> Outcome
    decreases e, 1int, 0int,
{
    let none = Seq::<HostCall>::empty();
    match e.kind {
        ExprKind::True => Outcome { value: Val::Bool(true), calls: none },
        ExprKind::False => Outcome { value: Val::Bool(false), calls: none },
        ExprKind::Filesize => Outcome { value: Val::Int(data.len() as i64), calls: none },
        ExprKind::LiteralInt(v) => Outcome { value: Val::Int(v), calls: none },
        ExprKind::LiteralFloat(bits) => Outcome { value: Val::Float(bits), calls: none },
        ExprKind::LiteralStr(s) => Outcome { value: Val::Str(s@), calls: none },
        ExprKind::PatternMatch(_) => Outcome { value: Val::Bool(false), calls: none },
        ExprKind::PatternAt(_, a) => {
            let oa = run(data, heap, root, known, vars, *a);
            Outcome { value: anchored(oa.value, oa.value), calls: oa.calls }
        },
        ExprKind::PatternIn(_, a, b) => {
            let oa = run(data, heap, root, known, vars, *a);
            let ob = run(data, heap, root, known, vars, *b);
            Outcome { value: anchored(oa.value, ob.value), calls: oa.calls + ob.calls }
        },
        ExprKind::Of(q, _) => Outcome { value: quantified(q), calls: none },
        ExprKind::FieldAccess(idents) => Outcome {
            value: named(heap, root, known, vars, idents@),
            calls: none,
        },
        ExprKind::Not(a) => {
            let oa = run(data, heap, root, known, vars, *a);
            Outcome {
                value: of_truth(
                    match truth(oa.value) {
                        Some(b) => Some(!b),
                        None => None,
                    },
                ),
                calls: oa.calls,
            }
        },
        ExprKind::And(a, b) => {
            let oa = run(data, heap, root, known, vars, *a);
            if truth(oa.value) == Some(false) {
                Outcome { value: Val::Bool(false), calls: oa.calls }
            } else {
                let ob = run(data, heap, root, known, vars, *b);
                Outcome {
                    value: conjunction(truth(oa.value), truth(ob.value)),
                    calls: oa.calls + ob.calls,
                }
            }
        },
        ExprKind::Or(a, b) => {
            let oa = run(data, heap, root, known, vars, *a);
            if truth(oa.value) == Some(true) {
                Outcome { value: Val::Bool(true), calls: oa.calls }
            } else {
                let ob = run(data, heap, root, known, vars, *b);
                Outcome {
                    value: disjunction(truth(oa.value), truth(ob.value)),
                    calls: oa.calls + ob.calls,
                }
            }
        },
        ExprKind::Compare(op, a, b) => {
            let oa = run(data, heap, root, known, vars, *a);
            let ob = run(data, heap, root, known, vars, *b);
            Outcome { value: compared(op, oa.value, ob.value), calls: oa.calls + ob.calls }
        },
        ExprKind::Arith(op, a, b) => {
            let oa = run(data, heap, root, known, vars, *a);
            let ob = run(data, heap, root, known, vars, *b);
            Outcome { value: computed(op, oa.value, ob.value), calls: oa.calls + ob.calls }
        },
        ExprKind::ForIn { var, lower, upper, condition } => {
            let ol = run(data, heap, root, known, vars, *lower);
            let ou = run(data, heap, root, known, vars, *upper);
            match (ol.value, ou.value) {
                (Val::Int(lo), Val::Int(hi)) => {
                    let rest = any_in(data, heap, root, known, vars, e, lo as int, hi as int);
                    Outcome { value: Val::Bool(rest.0), calls: ol.calls + ou.calls + rest.1 }
                },
                _ => Outcome { value: Val::Undef, calls: ol.calls + ou.calls },
            }
        },
        ExprKind::Call { callee, args } => match reader(callee.name@) {
            Some((size, big_endian)) => if args@.len() == 1 {
                let oa = run(data, heap, root, known, vars, args@[0]);
                match oa.value {
                    Val::Int(offset) => Outcome {
                        value: match uint_at(data, offset as int, size as int, big_endian) {
                            Some(v) => Val::Int(v),
                            None => Val::Undef,
                        },
                        calls: oa.calls.push(HostCall { size, big_endian, offset }),
                    },
                    _ => Outcome { value: Val::Undef, calls: oa.calls },
                }
            } else {
                Outcome { value: Val::Undef, calls: none }
            },
            None => Outcome { value: Val::Undef, calls: none },
        },
    }
}

/// Whether the condition of the loop `e` holds for some value of its
/// variable from `i` to `hi`, and the reads made until that is known: the
/// values are tried in ascending order up to the first for which the
/// condition holds.
pub open spec fn any_in(
    data: Seq<u8>,
    heap: Heap,
    root: usize,
    known: Seq<(Seq<char>, bool)>,
    vars: Seq<(Seq<char>, i64)>,
    e: Expr,
    i: int,
    hi: int,
) -> (bool, Seq<HostCall>)
    decreases e, 0int, hi - i + 1,
{
    match e.kind {
        ExprKind::ForIn { var, condition, .. } => if i > hi {
            (false, Seq::empty())
        } else {
            let o = run(data, heap, root, known, vars.push((var.name@, i as i64)), *condition);
            if truth(o.value) == Some(true) {
                (true, o.calls)
            } else {
                let rest = any_in(data, heap, root, known, vars, e, i + 1, hi);
                (rest.0, o.calls + rest.1)
            }
        },
        _ => (false, Seq::empty()),
    }
}

/// Whether a condition holds: whether it evaluates to what stands for
/// true. What is undefined does not hold.
pub open spec fn holds(
    data: Seq<u8>,
    heap: Heap,
    root: usize,
    known: Seq<(Seq<char>, bool)>,
    e: Expr,
) -> bool {
    truth(run(data, heap, root, known, Seq::empty(), e).value) == Some(true)
}

/// Where the left side of `and` is false the right side is not looked at:
/// the reads are those of the left side, whatever the right side is.
pub proof fn lemma_and_short_circuit(
    data: Seq<u8>,
    heap: Heap,
    root: usize,
    known: Seq<(Seq<char>, bool)>,
    vars: Seq<(Seq<char>, i64)>,
    e: Expr,
)
    requires
        e.kind is And,
        truth(run(data, heap, root, known, vars, *e.kind->And_0).value) == Some(false),
    ensures
        run(data, heap, root, known, vars, e).value == Val::Bool(false),
        run(data, heap, root, known, vars, e).calls == run(
            data,
            heap,
            root,
            known,
            vars,
            *e.kind->And_0,
        ).calls,
{
}

/// Where the left side of `or` is true the right side is not looked at.
pub proof fn lemma_or_short_circuit(
    data: Seq<u8>,
    heap: Heap,
    root: usize,
    known: Seq<(Seq<char>, bool)>,
    vars: Seq<(Seq<char>, i64)>,
    e: Expr,
)
    requires
        e.kind is Or,
        truth(run(data, heap, root, known, vars, *e.kind->Or_0).value) == Some(true),
    ensures
        run(data, heap, root, known, vars, e).value == Val::Bool(true),
        run(data, heap, root, known, vars, e).calls == run(
            data,
            heap,
            root,
            known,
            vars,
            *e.kind->Or_0,
        ).calls,
{
}

/// What conditions are evaluated on: the scanned data, the structures of
/// the modules, and which of the rules before matched.
pub struct Machine<'a> {
    pub data: &'a [u8],
    pub heap: &'a Heap,
    /// Number of the structure with one field for each module.
    pub root: usize,
    /// The rules of the namespace that were evaluated before, each with
    /// whether it matched.
    pub known: &'a Vec<(String, bool)>,
}

/// What changes while a condition is evaluated: the loop variables in
/// scope, and the reads that were made.
pub struct Trace {
    pub vars: Vec<(String, i64)>,
    pub calls: Vec<HostCall>,
}

/// Loop variables as plain values.
pub open spec fn var_models(vars: Seq<(String, i64)>) -> Seq<(Seq<char>, i64)> {
    Seq::new(vars.len(), |i: int| (vars[i].0@, vars[i].1))
}

/// Rules and whether they matched, as plain values.
pub open spec fn known_models(known: Seq<(String, bool)>) -> Seq<(Seq<char>, bool)> {
    Seq::new(known.len(), |i: int| (known[i].0@, known[i].1))
}

impl<'a> Machine<'a> {
    /// What the expression `e` gives on this machine with the loop
    /// variables `vars`.
    pub open spec fn outcome(&self, vars: Seq<(String, i64)>, e: Expr) -> Outcome {
        run(self.data@, *self.heap, self.root, known_models(self.known@), var_models(vars), e)
    }

    /// What `eval` promises: the value is that of the expression, the reads
    /// were added to the trace, and the loop variables are as before.
    pub open spec fn evaluated(&self, before: Trace, after: Trace, e: Expr, v: Value) -> bool {
        &&& v@ == self.outcome(before.vars@, e).value
        &&& after.calls@ == before.calls@ + self.outcome(before.vars@, e).calls
        &&& var_models(after.vars@) == var_models(before.vars@)
    }

    /// The value of a field that holds a truth value, a number or a string.
    pub fn scalar_value(&self, v: TypeValue) -> (r: Value)
        ensures
            r@ == scalar(*self.heap, v),
    {
        match v {
            TypeValue::Bool(Some(b)) => Value::Bool(b),
            TypeValue::Integer(Some(i)) => Value::Integer(i),
            TypeValue::Float(Some(bits)) => Value::Float(bits),
            TypeValue::String(Some(id)) => if id < self.heap.strings.len() {
                Value::String(copy_bytes(self.heap.strings[id].as_slice()))
            } else {
                Value::Undef
            },
            _ => Value::Undef,
        }
    }

    /// The value that a chain of identifiers names.
    #[verifier::loop_isolation(false)]
    pub fn eval_named(&self, vars: &Vec<(String, i64)>, idents: &Vec<Ident>) -> (r: Value)
        requires
            self.heap.wf(),
        ensures
            r@ == named(
                *self.heap,
                self.root,
                known_models(self.known@),
                var_models(vars@),
                idents@,
            ),
    {
        if idents.len() == 0 {
            return Value::Undef;
        }
        let name = idents[0].name.as_str();
        let ghost vm = var_models(vars@);
        let ghost km = known_models(self.known@);
        let mut n = vars.len();
        while n > 0
            invariant
                n <= vars@.len(),
                var_named(vm, name@, vm.len() as int) == var_named(vm, name@, n as int),
            decreases n,
        {
            n -= 1;
            if string_equal(vars[n].0.as_str(), name) {
                return if idents.len() == 1 {
                    Value::Integer(vars[n].1)
                } else {
                    Value::Undef
                };
            }
        }
        let mut n = self.known.len();
        while n > 0
            invariant
                n <= self.known@.len(),
                rule_named(km, name@, km.len() as int) == rule_named(km, name@, n as int),
            decreases n,
        {
            n -= 1;
            if string_equal(self.known[n].0.as_str(), name) {
                return if idents.len() == 1 {
                    Value::Bool(self.known[n].1)
                } else {
                    Value::Undef
                };
            }
        }
        let mut value = TypeValue::Struct(self.root);
        let mut k: usize = 0;
        while k < idents.len()
            invariant
                k <= idents@.len(),
                walk_names(*self.heap, TypeValue::Struct(self.root), idents@, 0) == walk_names(
                    *self.heap,
                    value,
                    idents@,
                    k as int,
                ),
            decreases idents@.len() - k,
        {
            let id = match value {
                TypeValue::Struct(id) => id,
                _ => {
                    return Value::Undef;
                },
            };
            if id >= self.heap.structs.len() {
                return Value::Undef;
            }
            let s = &self.heap.structs[id];
            let j = match s.index_of(idents[k].name.as_str()) {
                Some(j) => j,
                None => {
                    return Value::Undef;
                },
            };
            proof {
                let j0 = s.field_names().index_of(idents@[k as int].name@);
                assert(s.field_names()[j as int] == idents@[k as int].name@);
                s.lemma_names_distinct(j as int, j0);
            }
            value = s.fields_ref()[j].type_value;
            k += 1;
        }
        self.scalar_value(value)
    }
}

/// Tells whether a pattern matches at an offset, or between two.
pub fn anchor(a: &Value, b: &Value) -> (r: Value)
    ensures
        r@ == anchored(a@, b@),
{
    match (a, b) {
        (Value::Integer(_), Value::Integer(_)) => Value::Bool(false),
        _ => Value::Undef,
    }
}

/// Compares two values.
pub fn compare(op: Comparison, a: &Value, b: &Value) -> (r: Value)
    ensures
        r@ == compared(op, a@, b@),
{
    match (a, b) {
        (Value::Integer(x), Value::Integer(y)) => match op {
            Comparison::Eq => Value::Bool(*x == *y),
            Comparison::Ne => Value::Bool(*x != *y),
            Comparison::Lt => Value::Bool(*x < *y),
            Comparison::Le => Value::Bool(*x <= *y),
            Comparison::Gt => Value::Bool(*x > *y),
            Comparison::Ge => Value::Bool(*x >= *y),
            _ => Value::Undef,
        },
        (Value::String(x), Value::String(y)) => {
            let (x, y) = (x.as_slice(), y.as_slice());
            Value::Bool(
                match op {
                    Comparison::Eq => bytes_equal(x, y),
                    Comparison::Ne => !bytes_equal(x, y),
                    Comparison::Lt => bytes_less(x, y),
                    Comparison::Le => !bytes_less(y, x),
                    Comparison::Gt => bytes_less(y, x),
                    Comparison::Ge => !bytes_less(x, y),
                    Comparison::Contains => contains(x, y, false),
                    Comparison::StartsWith => starts_with(x, y, false),
                    Comparison::EndsWith => ends_with(x, y, false),
                    Comparison::IEquals => equals(x, y, true),
                    Comparison::IContains => contains(x, y, true),
                    Comparison::IStartsWith => starts_with(x, y, true),
                    Comparison::IEndsWith => ends_with(x, y, true),
                },
            )
        },
        _ => Value::Undef,
    }
}

/// Moves the bits of an integer.
pub fn shift(x: i64, by: i64, left: bool) -> (r: Value)
    ensures
        r@ == shifted(x, by, left),
{
    if by < 0 {
        Value::Undef
    } else if by >= 64 {
        Value::Integer(0)
    } else if left {
        Value::Integer(((x as u64) << (by as u64)) as i64)
    } else {
        Value::Integer(((x as u64) >> (by as u64)) as i64)
    }
}

/// Does arithmetic on two values.
pub fn compute(op: Arithmetic, a: &Value, b: &Value) -> (r: Value)
    ensures
        r@ == computed(op, a@, b@),
{
    match (a, b) {
        (Value::Integer(x), Value::Integer(y)) => match op {
            Arithmetic::Add => Value::Integer(x.wrapping_add(*y)),
            Arithmetic::Sub => Value::Integer(x.wrapping_sub(*y)),
            Arithmetic::Mul => Value::Integer(x.wrapping_mul(*y)),
            Arithmetic::Div => match divide(*x, *y) {
                Some(q) => Value::Integer(q),
                None => Value::Undef,
            },
            Arithmetic::Mod => match modulo(*x, *y) {
                Some(r) => Value::Integer(r),
                None => Value::Undef,
            },
            Arithmetic::BitAnd => Value::Integer(*x & *y),
            Arithmetic::BitOr => Value::Integer(*x | *y),
            Arithmetic::BitXor => Value::Integer(*x ^ *y),
            Arithmetic::Shl => shift(*x, *y, true),
            Arithmetic::Shr => shift(*x, *y, false),
        },
        _ => Value::Undef,
    }
}

/// The result of `<quantifier> of <patterns>` where no pattern matches.
pub fn quantify(q: &Quantifier) -> (r: Value)
    ensures
        r@ == quantified(*q),
{
    match q {
        Quantifier::Any | Quantifier::All => Value::Bool(false),
        Quantifier::Count(n) => Value::Bool(*n <= 0),
        Quantifier::Percent(p) => Value::Bool(*p <= 0),
    }
}

impl<'a> Machine<'a> {
    /// Evaluates an expression. The reads it makes are added to the
    /// trace.
    pub fn eval(&self, trace: &mut Trace, e: &Expr) -> (v: Value)
        requires
            self.heap.wf(),
        ensures
            self.evaluated(*old(trace), *final(trace), *e, v),
        decreases e, 2nat,
    {
        let ghost calls0 = trace.calls@;
        proof {
            assert(calls0 + Seq::<HostCall>::empty() =~= calls0);
        }
        match &e.kind {
            ExprKind::True => Value::Bool(true),
            ExprKind::False => Value::Bool(false),
            ExprKind::Filesize => Value::Integer(#[verifier::truncate] (self.data.len() as i64)),
            ExprKind::LiteralInt(v) => Value::Integer(*v),
            ExprKind::LiteralFloat(bits) => Value::Float(*bits),
            ExprKind::LiteralStr(s) => Value::String(copy_bytes(s.as_slice())),
            ExprKind::PatternMatch(_) => Value::Bool(false),
            ExprKind::PatternAt(_, a) => {
                let va = self.eval(trace, a);
                anchor(&va, &va)
            },
            ExprKind::PatternIn(_, a, b) => {
                let va = self.eval(trace, a);
                let vb = self.eval(trace, b);
                proof {
                    let oa = self.outcome(old(trace).vars@, **a);
                    let ob = self.outcome(old(trace).vars@, **b);
                    assert(calls0 + oa.calls + ob.calls =~= calls0 + (oa.calls + ob.calls));
                }
                anchor(&va, &vb)
            },
            ExprKind::Of(q, _) => quantify(q),
            ExprKind::FieldAccess(idents) => self.eval_named(&trace.vars, idents),
            ExprKind::Not(a) => {
                let va = self.eval(trace, a);
                Value::from_bool(
                    match va.to_bool() {
                        Some(b) => Some(!b),
                        None => None,
                    },
                )
            },
            ExprKind::And(a, b) => {
                let ta = self.eval(trace, a).to_bool();
                match ta {
                    Some(false) => Value::Bool(false),
                    _ => {
                        let ghost calls1 = trace.calls@;
                        let tb = self.eval(trace, b).to_bool();
                        proof {
                            let oa = self.outcome(old(trace).vars@, **a);
                            let ob = self.outcome(old(trace).vars@, **b);
                            assert(calls0 + oa.calls + ob.calls =~= calls0 + (oa.calls + ob.calls));
                        }
                        match (ta, tb) {
                            (_, Some(false)) => Value::Bool(false),
                            (Some(true), Some(true)) => Value::Bool(true),
                            _ => Value::Undef,
                        }
                    },
                }
            },
            ExprKind::Or(a, b) => {
                let ta = self.eval(trace, a).to_bool();
                match ta {
                    Some(true) => Value::Bool(true),
                    _ => {
                        let tb = self.eval(trace, b).to_bool();
                        proof {
                            let oa = self.outcome(old(trace).vars@, **a);
                            let ob = self.outcome(old(trace).vars@, **b);
                            assert(calls0 + oa.calls + ob.calls =~= calls0 + (oa.calls + ob.calls));
                        }
                        match (ta, tb) {
                            (_, Some(true)) => Value::Bool(true),
                            (Some(false), Some(false)) => Value::Bool(false),
                            _ => Value::Undef,
                        }
                    },
                }
            },
            ExprKind::Compare(op, a, b) => {
                let va = self.eval(trace, a);
                let vb = self.eval(trace, b);
                proof {
                    let oa = self.outcome(old(trace).vars@, **a);
                    let ob = self.outcome(old(trace).vars@, **b);
                    assert(calls0 + oa.calls + ob.calls =~= calls0 + (oa.calls + ob.calls));
                }
                compare(*op, &va, &vb)
            },
            ExprKind::Arith(op, a, b) => {
                let va = self.eval(trace, a);
                let vb = self.eval(trace, b);
                proof {
                    let oa = self.outcome(old(trace).vars@, **a);
                    let ob = self.outcome(old(trace).vars@, **b);
                    assert(calls0 + oa.calls + ob.calls =~= calls0 + (oa.calls + ob.calls));
                }
                compute(*op, &va, &vb)
            },
            ExprKind::ForIn { .. } => self.eval_for(trace, e),
            ExprKind::Call { .. } => self.eval_call(trace, e),
        }
    }

    /// Evaluates a call. Only the functions that read an integer from the
    /// data can be called; any other call is undefined.
    fn eval_call(&self, trace: &mut Trace, e: &Expr) -> (v: Value)
        requires
            self.heap.wf(),
            e.kind is Call,
        ensures
            self.evaluated(*old(trace), *final(trace), *e, v),
        decreases e, 1nat,
    {
        let ghost calls0 = trace.calls@;
        proof {
            assert(calls0 + Seq::<HostCall>::empty() =~= calls0);
        }
        match &e.kind {
            ExprKind::Call { callee, args } => match reader_of(callee.name.as_str()) {
                Some((size, big_endian)) => {
                    if args.len() != 1 {
                        return Value::Undef;
                    }
                    match self.eval(trace, &args[0]) {
                        Value::Integer(offset) => {
                            let ghost calls1 = trace.calls@;
                            trace.calls.push(HostCall { size, big_endian, offset });
                            proof {
                                let oa = self.outcome(old(trace).vars@, args@[0]);
                                assert(trace.calls@ =~= calls0 + oa.calls.push(
                                    HostCall { size, big_endian, offset },
                                ));
                            }
                            match read_uint(self.data, offset, size, big_endian) {
                                MaybeUndef::Defined(v) => Value::Integer(v),
                                MaybeUndef::Undef => Value::Undef,
                            }
                        },
                        _ => Value::Undef,
                    }
                },
                None => Value::Undef,
            },
            _ => Value::Undef,
        }
    }

    /// Evaluates a loop: tries the values of the range in ascending order
    /// until the condition holds for one.
    fn eval_for(&self, trace: &mut Trace, e: &Expr) -> (v: Value)
        requires
            self.heap.wf(),
            e.kind is ForIn,
        ensures
            self.evaluated(*old(trace), *final(trace), *e, v),
        decreases e, 1nat,
    {
        let ghost calls0 = trace.calls@;
        let ghost vars0 = trace.vars@;
        let ghost data = self.data@;
        let ghost heap = *self.heap;
        let ghost known = known_models(self.known@);
        let ghost vm = var_models(vars0);
        match &e.kind {
            ExprKind::ForIn { var, lower, upper, condition } => {
                let vl = self.eval(trace, lower);
                let vu = self.eval(trace, upper);
                let ghost ol = self.outcome(vars0, **lower);
                let ghost ou = self.outcome(vars0, **upper);
                let ghost calls1 = trace.calls@;
                proof {
                    assert(calls1 == calls0 + ol.calls + ou.calls);
                    assert(calls0 + ol.calls + ou.calls =~= calls0 + (ol.calls + ou.calls));
                }
                let (lo, hi) = match (vl, vu) {
                    (Value::Integer(lo), Value::Integer(hi)) => (lo, hi),
                    _ => {
                        return Value::Undef;
                    },
                };
                let ghost goal = any_in(data, heap, self.root, known, vm, *e, lo as int, hi as int);
                proof {
                    assert(calls0 + (ol.calls + ou.calls + goal.1) =~= calls1 + goal.1);
                }
                if lo > hi {
                    assert(calls1 + goal.1 =~= calls1);
                    return Value::Bool(false);
                }
                let mut i = lo;
                let ghost mut done: Seq<HostCall> = Seq::empty();
                let mut found = false;
                proof {
                    assert(calls1 + done =~= calls1);
                    assert(done + goal.1 =~= goal.1);
                }
                loop
                    invariant_except_break
                        lo <= i <= hi,
                        !found,
                        goal.0 == any_in(data, heap, self.root, known, vm, *e, i as int, hi as int).0,
                        goal.1 == done + any_in(
                            data,
                            heap,
                            self.root,
                            known,
                            vm,
                            *e,
                            i as int,
                            hi as int,
                        ).1,
                        trace.calls@ == calls1 + done,
                        var_models(trace.vars@) == vm,
                    invariant
                        self.heap.wf(),
                        e.kind == (ExprKind::ForIn {
                            var: *var,
                            lower: *lower,
                            upper: *upper,
                            condition: *condition,
                        }),
                        data == self.data@,
                        heap == *self.heap,
                        known == known_models(self.known@),
                        goal == any_in(data, heap, self.root, known, vm, *e, lo as int, hi as int),
                    ensures
                        found == goal.0,
                        trace.calls@ == calls1 + goal.1,
                        var_models(trace.vars@) == vm,
                    decreases hi - i,
                {
                    let ghost held = trace.vars@;
                    trace.vars.push((var.name.clone(), i));
                    proof {
                        assert(var_models(trace.vars@) =~= vm.push((var.name@, i)));
                    }
                    let ghost bound = trace.vars@;
                    let v = self.eval(trace, condition);
                    let ghost o = self.outcome(bound, **condition);
                    let ghost after = trace.vars@;
                    trace.vars.pop();
                    proof {
                        assert(var_models(trace.vars@) =~= var_models(after).drop_last());
                        assert(var_models(trace.vars@) =~= vm);
                        assert(calls1 + done + o.calls =~= calls1 + (done + o.calls));
                    }
                    let ghost rest = any_in(
                        data,
                        heap,
                        self.root,
                        known,
                        vm,
                        *e,
                        i + 1,
                        hi as int,
                    );
                    match v.to_bool() {
                        Some(true) => {
                            found = true;
                            break;
                        },
                        _ => {},
                    }
                    proof {
                        assert(done + (o.calls + rest.1) =~= done + o.calls + rest.1);
                    }
                    if i == hi {
                        proof {
                            assert(rest.1 =~= Seq::<HostCall>::empty());
                            assert(done + o.calls + rest.1 =~= done + o.calls);
                        }
                        break;
                    }
                    proof {
                        done = done + o.calls;
                    }
                    i += 1;
                }
                Value::Bool(found)
            },
            _ => Value::Undef,
        }
    }

    /// Tells whether a condition holds. What is undefined does not hold.
    pub fn matches(&self, trace: &mut Trace, condition: &Expr) -> (m: bool)
        requires
            self.heap.wf(),
        ensures
            m == (truth(self.outcome(old(trace).vars@, *condition).value) == Some(true)),
            final(trace).calls@ == old(trace).calls@ + self.outcome(
                old(trace).vars@,
                *condition,
            ).calls,
            var_models(final(trace).vars@) == var_models(old(trace).vars@),
    {
        match self.eval(trace, condition).to_bool() {
            Some(true) => true,
            _ => false,
        }
    }
}

} // verus!
