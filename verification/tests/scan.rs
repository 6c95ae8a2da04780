use yara_x::parser::ast::{
    Arithmetic, Comparison, Expr, ExprKind, Ident, Namespace, PatternSet, Quantifier, Rule,
    RuleModifiers, SourceFile,
};
use yara_x::parser::span::Span;
use yara_x::scanner::eval::{compare, compute, reader_of, shift, HostCall, Machine, Trace};
use yara_x::scanner::scan::scan;
use yara_x::scanner::values::{abs, divide, modulo, Value};
use yara_x::scanner::ScanContext;
use yara_x::types::{Heap, Struct, TypeValue};
use yara_x::wasm::bitmap::rule_is_marked;

fn e(kind: ExprKind) -> Expr {
    Expr { kind, span: Span::new(0, 0) }
}

fn b(kind: ExprKind) -> Box<Expr> {
    Box::new(e(kind))
}

fn ident(name: &str) -> Ident {
    Ident { name: name.to_string(), span: Span::new(0, 0) }
}

fn num(v: i64) -> Box<Expr> {
    b(ExprKind::LiteralInt(v))
}

fn uint32(offset: i64) -> ExprKind {
    ExprKind::Call { callee: ident("uint32"), args: vec![e(ExprKind::LiteralInt(offset))] }
}

fn rule(name: &str, condition: Expr) -> Rule {
    Rule {
        modifiers: RuleModifiers { private: false, global: false },
        identifier: ident(name),
        tags: vec![],
        meta: vec![],
        patterns: vec![],
        definitions: vec![],
        condition,
    }
}

fn source(rules: Vec<Rule>) -> SourceFile {
    SourceFile { namespaces: vec![Namespace { imports: vec![], rules }] }
}

/// A scan of `data` with the module `m`, whose field `num` is 42.
fn context(data: &[u8]) -> ScanContext {
    let mut heap = Heap::new();
    heap.strings.push(b"text".to_vec());
    let mut inner = Struct::new();
    inner.add_field("name", TypeValue::String(Some(0)));
    inner.add_field("unset", TypeValue::Integer(None));
    let inner = heap.add_struct(inner);
    let mut m = Struct::new();
    m.add_field("num", TypeValue::Integer(Some(42)));
    m.add_field("inner", TypeValue::Struct(inner));
    m.add_field("flag", TypeValue::Bool(Some(true)));
    let m = heap.add_struct(m);
    let mut root = Struct::new();
    root.add_field("m", TypeValue::Struct(m));
    let root = heap.add_struct(root);
    ScanContext::new(data.to_vec(), heap, root)
}

/// The rules that matched, by number, and the reads that were made.
fn run(src: &SourceFile, data: &[u8]) -> (Vec<i32>, Vec<HostCall>, Vec<u8>) {
    let mut ctx = context(data);
    let mut memory = vec![0u8; 2048 + 16];
    let calls = scan(src, &mut ctx, &mut memory);
    (ctx.rules_matching, calls, memory)
}

fn eval(data: &[u8], expr: &Expr) -> (Value, Vec<HostCall>) {
    let ctx = context(data);
    let known = vec![("yes".to_string(), true), ("no".to_string(), false)];
    let machine =
        Machine { data: ctx.scanned_data(), heap: &ctx.heap, root: ctx.root_struct, known: &known };
    let mut trace = Trace { vars: vec![], calls: vec![] };
    let v = machine.eval(&mut trace, expr);
    assert!(trace.vars.is_empty());
    (v, trace.calls)
}

fn value(data: &[u8], kind: ExprKind) -> Value {
    eval(data, &e(kind)).0
}

fn compare_ints(op: Comparison, a: i64, b: i64) -> Value {
    compare(op, &Value::Integer(a), &Value::Integer(b))
}

#[test]
fn trivial_match() {
    let src = source(vec![rule("r", e(ExprKind::True))]);
    for data in [&b""[..], b"anything", &[0u8; 100]] {
        let (matched, calls, memory) = run(&src, data);
        assert_eq!(matched, vec![0]);
        assert!(calls.is_empty());
        assert!(rule_is_marked(&memory, 0));
    }
}

#[test]
fn filesize() {
    let src =
        source(vec![rule("r", e(ExprKind::Compare(Comparison::Eq, b(ExprKind::Filesize), num(5))))]);
    assert_eq!(run(&src, b"hello").0, vec![0]);
    assert_eq!(run(&src, b"hi").0, Vec::<i32>::new());
    assert!(!rule_is_marked(&run(&src, b"hi").2, 0));
}

#[test]
fn undef_propagation() {
    let src = source(vec![rule(
        "r",
        e(ExprKind::Compare(Comparison::Eq, b(uint32(100)), num(0))),
    )]);
    let (matched, calls, memory) = run(&src, &[0, 0, 0, 0]);
    assert!(matched.is_empty());
    assert!(!rule_is_marked(&memory, 0));
    assert_eq!(calls, vec![HostCall { size: 4, big_endian: false, offset: 100 }]);
    // The same read inside the data is defined.
    let src =
        source(vec![rule("r", e(ExprKind::Compare(Comparison::Eq, b(uint32(0)), num(0))))]);
    assert_eq!(run(&src, &[0, 0, 0, 0]).0, vec![0]);
}

#[test]
fn short_circuit() {
    let src = source(vec![rule(
        "r",
        e(ExprKind::And(
            b(ExprKind::False),
            b(ExprKind::Compare(Comparison::Eq, b(uint32(100)), num(0))),
        )),
    )]);
    let (matched, calls, _) = run(&src, &[0, 0, 0, 0]);
    assert!(matched.is_empty());
    // The call is not made.
    assert!(calls.is_empty());

    let or = e(ExprKind::Or(
        b(ExprKind::True),
        b(ExprKind::Compare(Comparison::Eq, b(uint32(0)), num(0))),
    ));
    let (v, calls) = eval(&[0, 0, 0, 0], &or);
    assert!(matches!(v, Value::Bool(true)));
    assert!(calls.is_empty());

    // Where the left side does not decide, the right side is looked at.
    let and = e(ExprKind::And(
        b(ExprKind::True),
        b(ExprKind::Compare(Comparison::Eq, b(uint32(0)), num(0))),
    ));
    let (v, calls) = eval(&[0, 0, 0, 0], &and);
    assert!(matches!(v, Value::Bool(true)));
    assert_eq!(calls.len(), 1);
}

#[test]
fn undefined_in_and_and_or() {
    let undef = || b(ExprKind::Compare(Comparison::Eq, b(uint32(100)), num(0)));
    let data = [0u8; 4];
    // Undefined and false is false; undefined and true is undefined.
    assert!(matches!(value(&data, ExprKind::And(undef(), b(ExprKind::False))), Value::Bool(false)));
    assert!(matches!(value(&data, ExprKind::And(undef(), b(ExprKind::True))), Value::Undef));
    assert!(matches!(value(&data, ExprKind::And(b(ExprKind::True), undef())), Value::Undef));
    assert!(matches!(value(&data, ExprKind::And(undef(), undef())), Value::Undef));
    // Undefined or true is true; undefined or false is undefined.
    assert!(matches!(value(&data, ExprKind::Or(undef(), b(ExprKind::True))), Value::Bool(true)));
    assert!(matches!(value(&data, ExprKind::Or(undef(), b(ExprKind::False))), Value::Undef));
    assert!(matches!(value(&data, ExprKind::Or(b(ExprKind::False), undef())), Value::Undef));
    assert!(matches!(value(&data, ExprKind::Not(undef())), Value::Undef));
    assert!(matches!(value(&data, ExprKind::Not(b(ExprKind::False))), Value::Bool(true)));
    // Both sides are looked at, left first.
    let (_, calls) = eval(&data, &e(ExprKind::And(undef(), undef())));
    assert_eq!(calls.len(), 2);
}

#[test]
fn module_fields_are_read_by_name() {
    let field = ExprKind::FieldAccess(vec![ident("m"), ident("num")]);
    let src = source(vec![rule("r", e(ExprKind::Compare(Comparison::Eq, b(field), num(42))))]);
    assert_eq!(run(&src, b"").0, vec![0]);
    let data = b"";
    assert!(matches!(
        value(data, ExprKind::FieldAccess(vec![ident("m"), ident("num")])),
        Value::Integer(42)
    ));
    assert!(matches!(
        value(data, ExprKind::FieldAccess(vec![ident("m"), ident("flag")])),
        Value::Bool(true)
    ));
    match value(data, ExprKind::FieldAccess(vec![ident("m"), ident("inner"), ident("name")])) {
        Value::String(s) => assert_eq!(s, b"text"),
        other => panic!("unexpected value {:?}", other),
    }
    for path in [
        vec!["m", "inner", "unset"],
        vec!["m", "nothing"],
        vec!["m", "inner"],
        vec!["m"],
        vec!["m", "num", "x"],
        vec!["nothing"],
        vec![],
    ] {
        let idents = path.iter().map(|n| ident(n)).collect();
        assert!(matches!(value(data, ExprKind::FieldAccess(idents)), Value::Undef));
    }
}

#[test]
fn rules_see_the_rules_before_them() {
    assert!(matches!(value(b"", ExprKind::FieldAccess(vec![ident("yes")])), Value::Bool(true)));
    assert!(matches!(value(b"", ExprKind::FieldAccess(vec![ident("no")])), Value::Bool(false)));
    assert!(matches!(
        value(b"", ExprKind::FieldAccess(vec![ident("yes"), ident("x")])),
        Value::Undef
    ));
    let src = source(vec![
        rule("a", e(ExprKind::Compare(Comparison::Gt, b(ExprKind::Filesize), num(3)))),
        rule("b", e(ExprKind::Not(b(ExprKind::FieldAccess(vec![ident("a")]))))),
        rule("c", e(ExprKind::FieldAccess(vec![ident("c")]))),
        rule(
            "d",
            e(ExprKind::Or(
                b(ExprKind::FieldAccess(vec![ident("a")])),
                b(ExprKind::FieldAccess(vec![ident("b")])),
            )),
        ),
    ]);
    let (matched, _, memory) = run(&src, b"12345");
    assert_eq!(matched, vec![0, 3]);
    assert_eq!(memory[2048], 0b0000_1001);
    let (matched, _, memory) = run(&src, b"1");
    assert_eq!(matched, vec![1, 3]);
    assert_eq!(memory[2048], 0b0000_1010);
}

#[test]
fn rule_numbers_run_on_across_namespaces() {
    let src = SourceFile {
        namespaces: vec![
            Namespace {
                imports: vec![],
                rules: vec![rule("a", e(ExprKind::False)), rule("b", e(ExprKind::True))],
            },
            Namespace { imports: vec![], rules: vec![] },
            Namespace {
                imports: vec![],
                rules: vec![
                    // The rules of another namespace are not seen.
                    rule("c", e(ExprKind::FieldAccess(vec![ident("b")]))),
                    rule("b", e(ExprKind::LiteralInt(7))),
                    rule("d", e(ExprKind::FieldAccess(vec![ident("b")]))),
                ],
            },
        ],
    };
    let (matched, _, memory) = run(&src, b"");
    assert_eq!(matched, vec![1, 3, 4]);
    for (id, expected) in [(0, false), (1, true), (2, false), (3, true), (4, true), (5, false)] {
        assert_eq!(rule_is_marked(&memory, id), expected);
    }
}

#[test]
fn a_scan_leaves_the_marks_that_were_there() {
    let src = source(vec![rule("a", e(ExprKind::False)), rule("b", e(ExprKind::True))]);
    let mut ctx = context(b"");
    let mut memory = vec![0u8; 2048 + 1];
    memory[2048] = 0b0000_0101;
    ctx.rules_matching.push(9);
    scan(&src, &mut ctx, &mut memory);
    assert_eq!(memory[2048], 0b0000_0111);
    assert_eq!(ctx.rules_matching, vec![9, 1]);
    // An empty source needs no bitmap at all.
    let mut none: Vec<u8> = vec![];
    scan(&SourceFile { namespaces: vec![] }, &mut ctx, &mut none);
}

#[test]
fn values_cast_to_truth() {
    assert_eq!(Value::Undef.to_bool(), None);
    assert_eq!(Value::Bool(false).to_bool(), Some(false));
    assert_eq!(Value::Integer(0).to_bool(), Some(false));
    assert_eq!(Value::Integer(-3).to_bool(), Some(true));
    assert_eq!(Value::Float(0.0_f64.to_bits()).to_bool(), Some(false));
    assert_eq!(Value::Float((-0.0_f64).to_bits()).to_bool(), Some(false));
    assert_eq!(Value::Float(0.5_f64.to_bits()).to_bool(), Some(true));
    assert_eq!(Value::Float(f64::NAN.to_bits()).to_bool(), Some(true));
    assert_eq!(Value::String(vec![]).to_bool(), Some(false));
    assert_eq!(Value::String(vec![0]).to_bool(), Some(true));
    let src = source(vec![
        rule("int", e(ExprKind::LiteralInt(2))),
        rule("zero", e(ExprKind::LiteralInt(0))),
        rule("text", e(ExprKind::LiteralStr(b"x".to_vec()))),
        rule("empty", e(ExprKind::LiteralStr(vec![]))),
        rule("float", e(ExprKind::LiteralFloat(1.5_f64.to_bits()))),
    ]);
    assert_eq!(run(&src, b"").0, vec![0, 2, 4]);
}

#[test]
fn comparisons() {
    for (op, results) in [
        (Comparison::Eq, [false, true, false]),
        (Comparison::Ne, [true, false, true]),
        (Comparison::Lt, [true, false, false]),
        (Comparison::Le, [true, true, false]),
        (Comparison::Gt, [false, false, true]),
        (Comparison::Ge, [false, true, true]),
    ] {
        for ((a, b), expected) in [(1, 2), (2, 2), (3, 2)].into_iter().zip(results) {
            match compare_ints(op, a, b) {
                Value::Bool(r) => assert_eq!(r, expected),
                _ => panic!("not a truth value"),
            }
            let x = Value::String(vec![b'a' + a as u8]);
            let y = Value::String(vec![b'a' + b as u8]);
            match compare(op, &x, &y) {
                Value::Bool(r) => assert_eq!(r, expected),
                _ => panic!("not a truth value"),
            }
        }
    }
    assert!(matches!(compare_ints(Comparison::Lt, -1, 0), Value::Bool(true)));
    assert!(matches!(compare(Comparison::Eq, &Value::Integer(1), &Value::Undef), Value::Undef));
    assert!(matches!(
        compare(Comparison::Eq, &Value::Integer(1), &Value::String(vec![])),
        Value::Undef
    ));
    assert!(matches!(
        compare(Comparison::Eq, &Value::Float(0), &Value::Float(0)),
        Value::Undef
    ));
}

#[test]
fn arithmetic() {
    let whole = |v: Value| match v {
        Value::Integer(i) => Some(i),
        Value::Undef => None,
        _ => panic!("unexpected value"),
    };
    let on = |op, a, b| whole(compute(op, &Value::Integer(a), &Value::Integer(b)));
    assert_eq!(on(Arithmetic::Add, 2, 3), Some(5));
    assert_eq!(on(Arithmetic::Add, i64::MAX, 1), Some(i64::MIN));
    assert_eq!(on(Arithmetic::Sub, 2, 3), Some(-1));
    assert_eq!(on(Arithmetic::Sub, i64::MIN, 1), Some(i64::MAX));
    assert_eq!(on(Arithmetic::Mul, -4, 3), Some(-12));
    assert_eq!(on(Arithmetic::Mul, i64::MAX, 2), Some(-2));
    assert_eq!(on(Arithmetic::Div, 7, 2), Some(3));
    assert_eq!(on(Arithmetic::Div, -7, 2), Some(-3));
    assert_eq!(on(Arithmetic::Div, 7, -2), Some(-3));
    assert_eq!(on(Arithmetic::Div, -7, -2), Some(3));
    assert_eq!(on(Arithmetic::Div, 7, 0), None);
    assert_eq!(on(Arithmetic::Div, i64::MIN, -1), None);
    assert_eq!(on(Arithmetic::Div, i64::MIN, 1), Some(i64::MIN));
    assert_eq!(on(Arithmetic::Div, i64::MIN, 2), Some(i64::MIN / 2));
    assert_eq!(on(Arithmetic::Mod, 7, 3), Some(1));
    assert_eq!(on(Arithmetic::Mod, -7, 3), Some(-1));
    assert_eq!(on(Arithmetic::Mod, 7, -3), Some(1));
    assert_eq!(on(Arithmetic::Mod, 7, 0), None);
    assert_eq!(on(Arithmetic::Mod, i64::MIN, -1), Some(0));
    assert_eq!(divide(9, 3), Some(3));
    assert_eq!(modulo(9, 4), Some(1));
    assert_eq!(abs(i64::MIN), 1 << 63);
    assert_eq!(abs(-5), 5);
    assert!(matches!(
        compute(Arithmetic::Add, &Value::Integer(1), &Value::Float(0)),
        Value::Undef
    ));
    assert!(matches!(compute(Arithmetic::Add, &Value::Undef, &Value::Integer(1)), Value::Undef));
}

#[test]
fn bits_and_shifts() {
    let whole = |v: Value| match v {
        Value::Integer(i) => Some(i),
        Value::Undef => None,
        _ => panic!("unexpected value"),
    };
    let on = |op, a, b| whole(compute(op, &Value::Integer(a), &Value::Integer(b)));
    assert_eq!(on(Arithmetic::BitAnd, 0b1100, 0b1010), Some(0b1000));
    assert_eq!(on(Arithmetic::BitOr, 0b1100, 0b1010), Some(0b1110));
    assert_eq!(on(Arithmetic::BitXor, 0b1100, 0b1010), Some(0b0110));
    assert_eq!(on(Arithmetic::BitAnd, -1, i64::MIN), Some(i64::MIN));
    assert_eq!(on(Arithmetic::Shl, 1, 0), Some(1));
    assert_eq!(on(Arithmetic::Shl, 1, 63), Some(i64::MIN));
    assert_eq!(on(Arithmetic::Shl, 1, 64), Some(0));
    assert_eq!(on(Arithmetic::Shl, -1, 1), Some(-2));
    assert_eq!(on(Arithmetic::Shl, 1, -1), None);
    assert_eq!(on(Arithmetic::Shl, 1, i64::MIN), None);
    assert_eq!(on(Arithmetic::Shl, 1, i64::MAX), Some(0));
    assert_eq!(on(Arithmetic::Shr, 16, 4), Some(1));
    assert_eq!(on(Arithmetic::Shr, -1, 1), Some(i64::MAX));
    assert_eq!(on(Arithmetic::Shr, i64::MIN, 63), Some(1));
    assert_eq!(on(Arithmetic::Shr, -1, 64), Some(0));
    assert_eq!(on(Arithmetic::Shr, 1, -1), None);
    assert_eq!(whole(shift(5, 2, true)), Some(20));
    assert_eq!(whole(shift(5, 2, false)), Some(1));
    assert!(matches!(
        compute(Arithmetic::BitAnd, &Value::Integer(1), &Value::String(vec![])),
        Value::Undef
    ));
}

#[test]
fn comparisons_of_what_strings_hold() {
    let on = |op, a: &[u8], b: &[u8]| match compare(op, &Value::String(a.to_vec()), &Value::String(b.to_vec())) {
        Value::Bool(r) => r,
        _ => panic!("not a truth value"),
    };
    assert!(on(Comparison::Contains, b"abcd", b"bc"));
    assert!(on(Comparison::Contains, b"abcd", b""));
    assert!(on(Comparison::Contains, b"", b""));
    assert!(!on(Comparison::Contains, b"abcd", b"bd"));
    assert!(!on(Comparison::Contains, b"abcd", b"BC"));
    assert!(on(Comparison::IContains, b"abcd", b"BC"));
    assert!(!on(Comparison::Contains, b"ab", b"abc"));
    assert!(on(Comparison::StartsWith, b"abcd", b"ab"));
    assert!(!on(Comparison::StartsWith, b"abcd", b"bc"));
    assert!(on(Comparison::IStartsWith, b"ABcd", b"abC"));
    assert!(on(Comparison::EndsWith, b"abcd", b"cd"));
    assert!(on(Comparison::EndsWith, b"abcd", b""));
    assert!(!on(Comparison::EndsWith, b"cd", b"abcd"));
    assert!(on(Comparison::IEndsWith, b"abCD", b"Bcd"));
    assert!(on(Comparison::IEquals, b"AbC", b"aBc"));
    assert!(!on(Comparison::IEquals, b"AbC", b"aBcd"));
    // Only the letters of ASCII have a case.
    assert!(!on(Comparison::IEquals, &[0xc9], &[0xe9]));
    assert!(on(Comparison::IEquals, b"[", b"["));
    assert!(!on(Comparison::IEquals, b"[", b"{"));
    assert!(!on(Comparison::IEquals, b"@", b"`"));
    for op in [Comparison::Contains, Comparison::IEquals, Comparison::StartsWith] {
        assert!(matches!(compare(op, &Value::Integer(1), &Value::Integer(1)), Value::Undef));
        assert!(matches!(compare(op, &Value::String(vec![]), &Value::Undef), Value::Undef));
    }
}

#[test]
fn loops_try_the_range_in_ascending_order() {
    let reads_at_i = |lower: i64, upper: i64, wanted: i64| {
        e(ExprKind::ForIn {
            var: ident("i"),
            lower: num(lower),
            upper: num(upper),
            condition: b(ExprKind::Compare(
                Comparison::Eq,
                b(ExprKind::Call {
                    callee: ident("uint8"),
                    args: vec![e(ExprKind::FieldAccess(vec![ident("i")]))],
                }),
                num(wanted),
            )),
        })
    };
    let data = [10u8, 20, 30, 40];
    let (v, calls) = eval(&data, &reads_at_i(0, 3, 30));
    assert!(matches!(v, Value::Bool(true)));
    let offsets: Vec<i64> = calls.iter().map(|c| c.offset).collect();
    assert_eq!(offsets, vec![0, 1, 2]);
    // No value of the range: every value is tried, also past the data.
    let (v, calls) = eval(&data, &reads_at_i(2, 5, 99));
    assert!(matches!(v, Value::Bool(false)));
    assert_eq!(calls.iter().map(|c| c.offset).collect::<Vec<i64>>(), vec![2, 3, 4, 5]);
    // An empty range.
    let (v, calls) = eval(&data, &reads_at_i(3, 2, 10));
    assert!(matches!(v, Value::Bool(false)));
    assert!(calls.is_empty());
    // The end of the integers is reached without overflow.
    let (v, calls) = eval(&data, &reads_at_i(i64::MAX - 1, i64::MAX, 10));
    assert!(matches!(v, Value::Bool(false)));
    assert_eq!(calls.len(), 2);
    // A bound that is undefined makes the loop undefined.
    let undefined_bound = e(ExprKind::ForIn {
        var: ident("i"),
        lower: num(0),
        upper: b(uint32(100)),
        condition: b(ExprKind::True),
    });
    assert!(matches!(eval(&data, &undefined_bound).0, Value::Undef));
}

#[test]
fn inner_loop_variables_hide_outer_ones() {
    let inner = e(ExprKind::ForIn {
        var: ident("i"),
        lower: num(5),
        upper: num(5),
        condition: b(ExprKind::Compare(
            Comparison::Eq,
            b(ExprKind::FieldAccess(vec![ident("i")])),
            num(5),
        )),
    });
    let outer = e(ExprKind::ForIn {
        var: ident("i"),
        lower: num(1),
        upper: num(1),
        condition: b(ExprKind::And(
            Box::new(inner),
            b(ExprKind::Compare(
                Comparison::Eq,
                b(ExprKind::FieldAccess(vec![ident("i")])),
                num(1),
            )),
        )),
    });
    assert!(matches!(eval(b"", &outer).0, Value::Bool(true)));
    // A loop variable hides a rule and a module of its name.
    let hides = e(ExprKind::ForIn {
        var: ident("yes"),
        lower: num(0),
        upper: num(0),
        condition: b(ExprKind::FieldAccess(vec![ident("yes")])),
    });
    assert!(matches!(eval(b"", &hides).0, Value::Bool(false)));
}

#[test]
fn patterns_do_not_match_here() {
    assert!(matches!(value(b"", ExprKind::PatternMatch("$a".to_string())), Value::Bool(false)));
    let of = |q| value(b"", ExprKind::Of(q, PatternSet::Them));
    assert!(matches!(of(Quantifier::Any), Value::Bool(false)));
    assert!(matches!(of(Quantifier::All), Value::Bool(false)));
    assert!(matches!(of(Quantifier::Count(0)), Value::Bool(true)));
    assert!(matches!(of(Quantifier::Count(1)), Value::Bool(false)));
    assert!(matches!(of(Quantifier::Percent(50)), Value::Bool(false)));
}

#[test]
fn only_readers_can_be_called() {
    assert_eq!(reader_of("uint8"), Some((1, false)));
    assert_eq!(reader_of("uint16"), Some((2, false)));
    assert_eq!(reader_of("uint32"), Some((4, false)));
    assert_eq!(reader_of("uint64"), Some((8, false)));
    assert_eq!(reader_of("uint8be"), Some((1, true)));
    assert_eq!(reader_of("uint16be"), Some((2, true)));
    assert_eq!(reader_of("uint32be"), Some((4, true)));
    assert_eq!(reader_of("uint64be"), Some((8, true)));
    assert_eq!(reader_of("uint128"), None);
    let data = [1u8, 2, 3, 4];
    let read = |name: &str, args: Vec<Expr>| {
        eval(&data, &e(ExprKind::Call { callee: ident(name), args }))
    };
    assert!(matches!(read("uint16be", vec![e(ExprKind::LiteralInt(1))]).0, Value::Integer(0x0203)));
    assert!(matches!(read("uint16", vec![e(ExprKind::LiteralInt(1))]).0, Value::Integer(0x0302)));
    assert!(matches!(read("other", vec![e(ExprKind::LiteralInt(1))]).0, Value::Undef));
    assert!(read("other", vec![e(uint32(0))]).1.is_empty());
    assert!(matches!(read("uint8", vec![]).0, Value::Undef));
    let two = read("uint8", vec![e(uint32(0)), e(uint32(0))]);
    assert!(matches!(two.0, Value::Undef));
    assert!(two.1.is_empty());
    // An offset that is undefined or no integer makes no read.
    let (v, calls) = read("uint8", vec![e(uint32(100))]);
    assert!(matches!(v, Value::Undef));
    assert_eq!(calls.len(), 1);
    let (v, calls) = read("uint8", vec![e(ExprKind::True)]);
    assert!(matches!(v, Value::Undef));
    assert!(calls.is_empty());
}
