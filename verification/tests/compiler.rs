use yara_x::compiler::compile::Compiler;
use yara_x::compiler::errors::{CompileError, Error, Expected, Warning};
use yara_x::compiler::ids::IdentId;
use yara_x::compiler::semcheck::{resolve_path, semcheck, Env};
use yara_x::compiler::context::Context;
use yara_x::modules::ModuleRegistry;
use yara_x::parser::ast::{
    Arithmetic, Comparison, Expr, ExprKind, Ident, Import, Namespace, PatternBody, PatternDef,
    PatternModifiers, PatternSet, Quantifier, Rule, RuleModifiers, SourceFile,
};
use yara_x::parser::errors::Error as ParseError;
use yara_x::parser::span::Span;
use yara_x::symbols::{Symbol, SymbolKind, Var};
use yara_x::types::signature::{parse_signature, type_of_code, Resolution};
use yara_x::types::{Heap, Struct, Type, TypeValue};
use yara_x::wasm::exports::WasmExport;

fn sp(start: usize, end: usize) -> Span {
    Span::new(start, end)
}

fn ident(name: &str, start: usize) -> Ident {
    Ident { name: name.to_string(), span: sp(start, start + name.len()) }
}

fn e(kind: ExprKind) -> Expr {
    Expr { kind, span: sp(100, 110) }
}

fn at(kind: ExprKind, start: usize, end: usize) -> Expr {
    Expr { kind, span: sp(start, end) }
}

fn no_modifiers() -> PatternModifiers {
    PatternModifiers {
        ascii: false,
        wide: false,
        nocase: false,
        fullword: false,
        private: false,
        xor: false,
        base64: false,
        base64wide: false,
    }
}

fn rule(name: &str, start: usize, patterns: Vec<Ident>, condition: Expr) -> Rule {
    let definitions = patterns
        .iter()
        .map(|_| PatternDef { body: PatternBody::Text(b"x".to_vec()), modifiers: no_modifiers() })
        .collect();
    Rule {
        modifiers: RuleModifiers { private: false, global: false },
        identifier: ident(name, start),
        tags: vec![],
        meta: vec![],
        patterns,
        definitions,
        condition,
    }
}

fn source(rules: Vec<Rule>) -> SourceFile {
    SourceFile { namespaces: vec![Namespace { imports: vec![], rules }] }
}

fn export(name: &str, mangled: &str, public: bool, path: &str) -> WasmExport {
    WasmExport {
        name: name.to_string(),
        mangled_name: mangled.to_string(),
        public,
        rust_module_path: path.to_string(),
    }
}

fn builtins() -> Vec<WasmExport> {
    vec![
        export("uint8", "uint8@i@iu", true, "yara_x::wasm"),
        export("uint32", "uint32@i@iu", true, "yara_x::wasm"),
        export("rule_match", "rule_match@i@", false, "yara_x::wasm"),
        export("concat", "concat@ss@s", true, "yara_x::wasm"),
        export("concat", "concat@si@s", true, "yara_x::wasm"),
    ]
}

/// A registry whose built-in `twice` takes an integer or a string.
fn overloaded() -> ModuleRegistry {
    let mut registry = ModuleRegistry::new();
    registry.add_builtins(&[export("uint32", "uint32@i@iu", true, "yara_x::wasm")]);
    let mut root = Struct::new();
    root.add_field("num", TypeValue::Integer(None));
    let all = vec![
        export("twice", "twice@i@i", true, "yara_x::modules::m"),
        export("twice", "twice@s@s", true, "yara_x::modules::m"),
        export("broken", "broken", true, "yara_x::modules::m"),
    ];
    registry.add_module("m", "m.M", Some("m"), false, root, &all);
    registry
}

fn call(name: &str, args: Vec<Expr>) -> Expr {
    at(ExprKind::Call { callee: ident(name, 40), args }, 40, 60)
}

fn check(registry: &ModuleRegistry, condition: Expr) -> Result<usize, Error> {
    let src = source(vec![rule("r", 5, vec![], condition)]);
    let compiler = Compiler::new(registry).add_ast(src)?;
    Ok(compiler.rules.len())
}

#[test]
fn calls_of_built_in_functions() {
    let registry = registry();
    let ok = e(ExprKind::Compare(
        Comparison::Eq,
        Box::new(call("uint32", vec![e(ExprKind::LiteralInt(100))])),
        Box::new(e(ExprKind::LiteralInt(0))),
    ));
    assert_eq!(check(&registry, ok).unwrap(), 1);

    match check(&registry, call("uint32", vec![])) {
        Err(Error::CompileError(CompileError::WrongNumberOfArguments { span })) => {
            assert_eq!(span, sp(40, 60));
        }
        _ => panic!("unexpected result"),
    }
    match check(
        &registry,
        call("uint32", vec![e(ExprKind::LiteralInt(1)), e(ExprKind::LiteralInt(2))]),
    ) {
        Err(Error::CompileError(CompileError::WrongNumberOfArguments { .. })) => {}
        _ => panic!("unexpected result"),
    }
    match check(&registry, call("uint32", vec![e(ExprKind::LiteralStr(b"x".to_vec()))])) {
        Err(Error::CompileError(CompileError::NoMatchingOverload { span })) => {
            assert_eq!(span, sp(40, 60));
        }
        _ => panic!("unexpected result"),
    }
    // No type is converted to another: a truth value is no integer.
    match check(&registry, call("uint32", vec![e(ExprKind::True)])) {
        Err(Error::CompileError(CompileError::NoMatchingOverload { .. })) => {}
        _ => panic!("unexpected result"),
    }
    match check(&registry, call("nothing", vec![])) {
        Err(Error::CompileError(CompileError::UnknownIdentifier { name, span })) => {
            assert_eq!(name, "nothing");
            assert_eq!(span, sp(40, 47));
        }
        _ => panic!("unexpected result"),
    }
}

#[test]
fn the_later_of_two_built_ins_with_one_name_is_called() {
    let registry = registry();
    let with_integer = call(
        "concat",
        vec![e(ExprKind::LiteralStr(b"a".to_vec())), e(ExprKind::LiteralInt(1))],
    );
    assert_eq!(check(&registry, with_integer).unwrap(), 1);
    let with_string = call(
        "concat",
        vec![e(ExprKind::LiteralStr(b"a".to_vec())), e(ExprKind::LiteralStr(b"b".to_vec()))],
    );
    assert!(matches!(
        check(&registry, with_string),
        Err(Error::CompileError(CompileError::NoMatchingOverload { .. }))
    ));
}

#[test]
fn what_is_no_function_cannot_be_called() {
    let src = source(vec![
        rule("a", 5, vec![], e(ExprKind::True)),
        rule("b", 25, vec![], call("a", vec![])),
    ]);
    let registry = registry();
    match Compiler::new(&registry).add_ast(src) {
        Err(Error::CompileError(CompileError::WrongType { expected, got, span })) => {
            assert_eq!(expected, Expected::Func);
            assert_eq!(got, Type::Bool);
            assert_eq!(span, sp(40, 41));
        }
        _ => panic!("unexpected result"),
    }
}

#[test]
fn arguments_are_checked_from_left_to_right() {
    let registry = registry();
    let bad = call(
        "uint32",
        vec![
            at(ExprKind::FieldAccess(vec![ident("x", 45)]), 45, 46),
            at(ExprKind::FieldAccess(vec![ident("y", 48)]), 48, 49),
        ],
    );
    match check(&registry, bad) {
        Err(Error::CompileError(CompileError::UnknownIdentifier { name, .. })) => {
            assert_eq!(name, "x");
        }
        _ => panic!("unexpected result"),
    }
}

#[test]
fn overloads_are_chosen_by_the_types_of_the_arguments() {
    let registry = overloaded();
    let module = registry.get("m").unwrap();
    let heap = registry.structures();
    let twice = match heap.structs[module.root_struct].field_by_name("twice").unwrap().type_value {
        TypeValue::Func(id) => &heap.funcs[id],
        _ => panic!("not a function"),
    };
    assert_eq!(twice.resolve(&[Type::Integer]), Resolution::Found(0, Type::Integer));
    assert_eq!(twice.resolve(&[Type::String]), Resolution::Found(1, Type::String));
    assert_eq!(twice.resolve(&[Type::Float]), Resolution::NoMatchingOverload);
    assert_eq!(twice.resolve(&[]), Resolution::WrongNumberOfArguments);
    assert_eq!(twice.resolve(&[Type::Integer, Type::Integer]), Resolution::WrongNumberOfArguments);
    // A name that is not well formed takes nothing.
    let broken = match heap.structs[module.root_struct].field_by_name("broken").unwrap().type_value {
        TypeValue::Func(id) => &heap.funcs[id],
        _ => panic!("not a function"),
    };
    assert_eq!(broken.resolve(&[]), Resolution::WrongNumberOfArguments);
}

#[test]
fn mangled_names() {
    assert_eq!(parse_signature("uint8@i@iu"), Some((vec![Type::Integer], Type::Integer)));
    assert_eq!(parse_signature("add@ii@i"), Some((vec![Type::Integer, Type::Integer], Type::Integer)));
    assert_eq!(
        parse_signature("my_module.my_struct.my_func@sfb@s"),
        Some((vec![Type::String, Type::Float, Type::Bool], Type::String))
    );
    assert_eq!(parse_signature("rule_match@i@"), Some((vec![Type::Integer], Type::Unknown)));
    assert_eq!(parse_signature("f@@b"), Some((vec![], Type::Bool)));
    assert_eq!(parse_signature("f@@bu"), Some((vec![], Type::Bool)));
    assert_eq!(parse_signature("f@@"), Some((vec![], Type::Unknown)));
    assert_eq!(parse_signature("f"), None);
    assert_eq!(parse_signature("f@i"), None);
    assert_eq!(parse_signature("f@i@i@i"), None);
    assert_eq!(parse_signature("f@x@i"), None);
    assert_eq!(parse_signature("f@i@x"), None);
    assert_eq!(parse_signature("f@i@ii"), None);
    assert_eq!(parse_signature("f@i@iuu"), None);
    assert_eq!(parse_signature("f@i@u"), None);
    assert_eq!(parse_signature(""), None);
    assert_eq!(type_of_code(b'i'), Some(Type::Integer));
    assert_eq!(type_of_code(b'u'), None);
}

/// A registry with the module `m`, whose structure has the integer `num`
/// and the structure `inner` with the string `text`.
fn registry() -> ModuleRegistry {
    let mut registry = ModuleRegistry::new();
    registry.add_builtins(&builtins());
    let mut inner = Struct::new();
    inner.add_field("text", TypeValue::String(None));
    inner.add_field("deep", TypeValue::Float(None));
    let inner_id = registry.add_struct(inner);
    let mut root = Struct::new();
    root.add_field("num", TypeValue::Integer(None));
    root.add_field("inner", TypeValue::Struct(inner_id));
    root.add_field("flag", TypeValue::Bool(None));
    assert_eq!(registry.add_module("m", "m.M", None, false, root, &[]), Some(0));
    let other = Struct::new();
    assert_eq!(registry.add_module("other", "o.O", None, true, other, &[]), Some(1));
    registry
}

fn compile(src: SourceFile) -> Result<(usize, Vec<Warning>), Error> {
    let registry = registry();
    let compiler = Compiler::new(&registry).add_ast(src)?;
    let warnings: Vec<Warning> = Vec::new();
    let mut collected = warnings;
    for w in compiler.warnings() {
        collected.push(match w {
            Warning::NonBooleanCondition { got, span } => {
                Warning::NonBooleanCondition { got: *got, span: *span }
            }
            Warning::UnusedString { ident, span } => {
                Warning::UnusedString { ident: ident.clone(), span: *span }
            }
            Warning::DuplicateImport { module, new_span, existing_span } => {
                Warning::DuplicateImport {
                    module: module.clone(),
                    new_span: *new_span,
                    existing_span: *existing_span,
                }
            }
        });
    }
    let rules = compiler.build()?;
    Ok((rules.rules().len(), collected))
}

#[test]
fn trivial_rule_compiles() {
    let src = source(vec![rule("r", 5, vec![], e(ExprKind::True))]);
    let (n, warnings) = compile(src).unwrap();
    assert_eq!(n, 1);
    assert!(warnings.is_empty());
}

#[test]
fn every_rule_is_compiled() {
    let src = SourceFile {
        namespaces: vec![
            Namespace {
                imports: vec![],
                rules: vec![
                    rule("a", 5, vec![], e(ExprKind::True)),
                    rule("b", 25, vec![], e(ExprKind::False)),
                ],
            },
            Namespace { imports: vec![], rules: vec![] },
            Namespace { imports: vec![], rules: vec![rule("a", 45, vec![], e(ExprKind::True))] },
        ],
    };
    let (n, _) = compile(src).unwrap();
    assert_eq!(n, 3);
}

#[test]
fn filesize_compares_with_an_integer() {
    let condition = e(ExprKind::Compare(
        Comparison::Eq,
        Box::new(e(ExprKind::Filesize)),
        Box::new(e(ExprKind::LiteralInt(5))),
    ));
    let (n, warnings) = compile(source(vec![rule("r", 5, vec![], condition)])).unwrap();
    assert_eq!(n, 1);
    assert!(warnings.is_empty());
}

#[test]
fn unused_string_warning() {
    let src = source(vec![rule("r", 5, vec![ident("$a", 18)], e(ExprKind::True))]);
    let (n, warnings) = compile(src).unwrap();
    assert_eq!(n, 1);
    assert_eq!(warnings.len(), 1);
    match &warnings[0] {
        Warning::UnusedString { ident, span } => {
            assert_eq!(ident, "$a");
            assert_eq!(*span, sp(18, 20));
        }
        other => panic!("unexpected warning {:?}", other),
    }
}

#[test]
fn each_unused_string_is_warned_of_once() {
    let condition = e(ExprKind::Or(
        Box::new(e(ExprKind::PatternMatch("$b".to_string()))),
        Box::new(e(ExprKind::Of(Quantifier::Any, PatternSet::Named(vec![ident("$d", 70)])))),
    ));
    let patterns = vec![ident("$a", 10), ident("$b", 20), ident("$c", 30), ident("$d", 40)];
    let (_, warnings) = compile(source(vec![rule("r", 5, patterns, condition)])).unwrap();
    let unused: Vec<&str> = warnings
        .iter()
        .map(|w| match w {
            Warning::UnusedString { ident, .. } => ident.as_str(),
            _ => "",
        })
        .collect();
    assert_eq!(unused, vec!["$a", "$c"]);
}

#[test]
fn them_uses_every_string() {
    let condition = e(ExprKind::Of(Quantifier::All, PatternSet::Them));
    let patterns = vec![ident("$a", 10), ident("$b", 20)];
    let (_, warnings) = compile(source(vec![rule("r", 5, patterns, condition)])).unwrap();
    assert!(warnings.is_empty());
}

#[test]
fn duplicate_rule_error() {
    let src = source(vec![
        rule("r", 5, vec![], e(ExprKind::True)),
        rule("r", 30, vec![], e(ExprKind::False)),
    ]);
    match compile(src) {
        Err(Error::ParseError(ParseError::DuplicateRule {
            rule_ident,
            new_rule_name_span,
            existing_rule_name_span,
            detailed_report,
        })) => {
            assert_eq!(rule_ident, "r");
            assert_eq!(new_rule_name_span, sp(30, 31));
            assert_eq!(existing_rule_name_span, sp(5, 6));
            assert_eq!(detailed_report, "duplicate rule `r`");
        }
        other => panic!("unexpected result {:?}", other.map(|r| r.0)),
    }
}

#[test]
fn same_rule_name_in_two_namespaces_is_fine() {
    let src = SourceFile {
        namespaces: vec![
            Namespace { imports: vec![], rules: vec![rule("r", 5, vec![], e(ExprKind::True))] },
            Namespace { imports: vec![], rules: vec![rule("r", 35, vec![], e(ExprKind::True))] },
        ],
    };
    assert_eq!(compile(src).unwrap().0, 2);
}

#[test]
fn duplicate_string_error() {
    let patterns = vec![ident("$a", 10), ident("$b", 20), ident("$a", 30)];
    let src = source(vec![rule("r", 5, patterns, e(ExprKind::Of(Quantifier::Any, PatternSet::Them)))]);
    match compile(src) {
        Err(Error::ParseError(ParseError::DuplicateString {
            string_ident,
            new_string_span,
            existing_string_span,
            ..
        })) => {
            assert_eq!(string_ident, "$a");
            assert_eq!(new_string_span, sp(30, 32));
            assert_eq!(existing_string_span, sp(10, 12));
        }
        other => panic!("unexpected result {:?}", other.map(|r| r.0)),
    }
}

#[test]
fn duplicate_tag_error() {
    let mut r = rule("r", 5, vec![], e(ExprKind::True));
    r.tags = vec![ident("tag1", 9), ident("tag2", 14), ident("tag1", 19)];
    match compile(source(vec![r])) {
        Err(Error::ParseError(ParseError::DuplicateTag { tag, tag_span, existing_tag_span, .. })) => {
            assert_eq!(tag, "tag1");
            assert_eq!(tag_span, sp(19, 23));
            assert_eq!(existing_tag_span, sp(9, 13));
        }
        other => panic!("unexpected result {:?}", other.map(|r| r.0)),
    }
}

#[test]
fn non_boolean_condition_is_cast_with_a_warning() {
    for (kind, ty) in [
        (ExprKind::LiteralInt(3), Type::Integer),
        (ExprKind::LiteralFloat(1.5_f64.to_bits()), Type::Float),
        (ExprKind::LiteralStr(b"x".to_vec()), Type::String),
    ] {
        let registry = registry();
        let src = source(vec![rule("r", 5, vec![], at(kind, 40, 43))]);
        let compiler = Compiler::new(&registry).add_ast(src).unwrap();
        assert_eq!(compiler.warnings().len(), 1);
        match &compiler.warnings()[0] {
            Warning::NonBooleanCondition { got, span } => {
                assert_eq!(*got, ty);
                assert_eq!(*span, sp(40, 43));
            }
            other => panic!("unexpected warning {:?}", other),
        }
        let rules = compiler.build().unwrap();
        assert_eq!(rules.rules()[0].cast, Some(ty));
    }
}

#[test]
fn boolean_condition_needs_no_cast() {
    let registry = registry();
    let src = source(vec![rule("r", 5, vec![], e(ExprKind::True))]);
    let compiler = Compiler::new(&registry).add_ast(src).unwrap();
    assert!(compiler.warnings().is_empty());
    assert_eq!(compiler.build().unwrap().rules()[0].cast, None);
}

#[test]
fn operands_of_and_are_cast_with_warnings() {
    let condition = e(ExprKind::And(
        Box::new(at(ExprKind::LiteralInt(1), 40, 41)),
        Box::new(at(
            ExprKind::Not(Box::new(at(ExprKind::LiteralStr(b"s".to_vec()), 50, 53))),
            46,
            53,
        )),
    ));
    let (_, warnings) = compile(source(vec![rule("r", 5, vec![], condition)])).unwrap();
    let got: Vec<(Type, Span)> = warnings
        .iter()
        .map(|w| match w {
            Warning::NonBooleanCondition { got, span } => (*got, *span),
            _ => panic!("unexpected warning"),
        })
        .collect();
    assert_eq!(got, vec![(Type::Integer, sp(40, 41)), (Type::String, sp(50, 53))]);
}

fn nested_loops(depth: usize) -> Expr {
    let mut body = e(ExprKind::True);
    for i in 0..depth {
        body = at(
            ExprKind::ForIn {
                var: ident("i", 0),
                lower: Box::new(e(ExprKind::LiteralInt(0))),
                upper: Box::new(e(ExprKind::LiteralInt(1))),
                condition: Box::new(body),
            },
            1000 + i,
            2000 + i,
        );
    }
    body
}

#[test]
fn loops_nested_128_deep_compile() {
    let (n, warnings) = compile(source(vec![rule("r", 5, vec![], nested_loops(128))])).unwrap();
    assert_eq!(n, 1);
    assert!(warnings.is_empty());
}

#[test]
fn loops_nested_129_deep_are_rejected() {
    match compile(source(vec![rule("r", 5, vec![], nested_loops(129))])) {
        Err(Error::CompileError(e)) => {
            assert_eq!(e.title(), "too many nested loops");
            // The innermost loop is the one that finds no slot.
            assert_eq!(e.span(), sp(1000, 2000));
        }
        other => panic!("unexpected result {:?}", other.map(|r| r.0)),
    }
}

#[test]
fn loop_variable_is_an_integer_in_scope_of_the_body_only() {
    let body = e(ExprKind::Compare(
        Comparison::Lt,
        Box::new(e(ExprKind::FieldAccess(vec![ident("i", 60)]))),
        Box::new(e(ExprKind::LiteralInt(3))),
    ));
    let condition = e(ExprKind::ForIn {
        var: ident("i", 50),
        lower: Box::new(e(ExprKind::LiteralInt(0))),
        upper: Box::new(e(ExprKind::Filesize)),
        condition: Box::new(body),
    });
    assert_eq!(compile(source(vec![rule("r", 5, vec![], condition)])).unwrap().0, 1);

    let outside = e(ExprKind::And(
        Box::new(e(ExprKind::ForIn {
            var: ident("i", 50),
            lower: Box::new(e(ExprKind::LiteralInt(0))),
            upper: Box::new(e(ExprKind::LiteralInt(1))),
            condition: Box::new(e(ExprKind::True)),
        })),
        Box::new(e(ExprKind::FieldAccess(vec![ident("i", 90)]))),
    ));
    match compile(source(vec![rule("r", 5, vec![], outside)])) {
        Err(Error::CompileError(CompileError::UnknownIdentifier { name, span })) => {
            assert_eq!(name, "i");
            assert_eq!(span, sp(90, 91));
        }
        other => panic!("unexpected result {:?}", other.map(|r| r.0)),
    }
}

fn importing(module: &str, condition: Expr) -> SourceFile {
    SourceFile {
        namespaces: vec![Namespace {
            imports: vec![Import { module_name: module.to_string(), span: sp(0, 10) }],
            rules: vec![rule("r", 20, vec![], condition)],
        }],
    }
}

#[test]
fn dotted_field_access() {
    let condition = e(ExprKind::Compare(
        Comparison::Eq,
        Box::new(e(ExprKind::FieldAccess(vec![ident("m", 40), ident("num", 42)]))),
        Box::new(e(ExprKind::LiteralInt(42))),
    ));
    assert_eq!(compile(importing("m", condition)).unwrap().0, 1);
}

#[test]
fn unknown_module() {
    match compile(importing("nope", e(ExprKind::True))) {
        Err(Error::CompileError(CompileError::UnknownModule { name, span })) => {
            assert_eq!(name, "nope");
            assert_eq!(span, sp(0, 10));
        }
        other => panic!("unexpected result {:?}", other.map(|r| r.0)),
    }
}

#[test]
fn module_must_be_imported() {
    let condition = e(ExprKind::FieldAccess(vec![ident("m", 40), ident("flag", 42)]));
    match compile(source(vec![rule("r", 5, vec![], condition)])) {
        Err(Error::CompileError(CompileError::UnknownIdentifier { name, span })) => {
            assert_eq!(name, "m");
            assert_eq!(span, sp(40, 41));
        }
        other => panic!("unexpected result {:?}", other.map(|r| r.0)),
    }
}

#[test]
fn unknown_field() {
    let condition = e(ExprKind::FieldAccess(vec![ident("m", 40), ident("nothing", 42)]));
    match compile(importing("m", condition)) {
        Err(Error::CompileError(CompileError::UnknownIdentifier { name, span })) => {
            assert_eq!(name, "nothing");
            assert_eq!(span, sp(42, 49));
        }
        other => panic!("unexpected result {:?}", other.map(|r| r.0)),
    }
}

#[test]
fn field_of_what_is_no_structure() {
    let condition =
        e(ExprKind::FieldAccess(vec![ident("m", 40), ident("num", 42), ident("x", 46)]));
    match compile(importing("m", condition)) {
        Err(Error::CompileError(CompileError::WrongType { expected, got, span })) => {
            assert_eq!(expected, Expected::Struct);
            assert_eq!(got, Type::Integer);
            assert_eq!(span, sp(42, 45));
        }
        other => panic!("unexpected result {:?}", other.map(|r| r.0)),
    }
}

#[test]
fn a_structure_is_no_condition() {
    let condition = at(ExprKind::FieldAccess(vec![ident("m", 40), ident("inner", 42)]), 40, 47);
    match compile(importing("m", condition)) {
        Err(Error::CompileError(CompileError::WrongType { expected, got, span })) => {
            assert_eq!(expected, Expected::Scalar);
            assert_eq!(got, Type::Struct);
            assert_eq!(span, sp(40, 47));
        }
        other => panic!("unexpected result {:?}", other.map(|r| r.0)),
    }
}

#[test]
fn duplicate_import_warns_and_is_ignored() {
    let src = SourceFile {
        namespaces: vec![Namespace {
            imports: vec![
                Import { module_name: "m".to_string(), span: sp(0, 10) },
                Import { module_name: "other".to_string(), span: sp(11, 25) },
                Import { module_name: "m".to_string(), span: sp(26, 36) },
            ],
            rules: vec![rule("r", 40, vec![], e(ExprKind::True))],
        }],
    };
    let registry = registry();
    let compiler = Compiler::new(&registry).add_ast(src).unwrap();
    assert_eq!(compiler.warnings().len(), 1);
    match &compiler.warnings()[0] {
        Warning::DuplicateImport { module, new_span, existing_span } => {
            assert_eq!(module, "m");
            assert_eq!(*new_span, sp(26, 36));
            assert_eq!(*existing_span, sp(0, 10));
        }
        other => panic!("unexpected warning {:?}", other),
    }
    assert_eq!(compiler.imported_modules, vec![IdentId(0), IdentId(1)]);
    assert_eq!(compiler.modules_struct.len(), 2);
    let rules = compiler.build().unwrap();
    let mut imports = rules.imports();
    assert_eq!(imports.next(), Some("m"));
    assert_eq!(imports.next(), Some("other"));
    assert_eq!(imports.next(), None);
    assert_eq!(imports.next(), None);
}

#[test]
fn rules_and_patterns_are_numbered_in_order() {
    let src = source(vec![
        rule(
            "first",
            5,
            vec![ident("$a", 10), ident("$b", 20)],
            e(ExprKind::Of(Quantifier::Any, PatternSet::Them)),
        ),
        rule("second", 50, vec![ident("$a", 60)], e(ExprKind::PatternMatch("$a".to_string()))),
    ]);
    let registry = registry();
    let compiler = Compiler::new(&registry).add_ast(src).unwrap();
    assert_eq!(compiler.resolve_ident(IdentId(0)), "$a");
    assert_eq!(compiler.resolve_ident(IdentId(1)), "$b");
    assert_eq!(compiler.resolve_ident(IdentId(2)), "first");
    assert_eq!(compiler.resolve_ident(IdentId(3)), "second");
    assert_eq!(compiler.get_pattern_from_current_rule(&compiler.rules[0], "$b"), 1);
    assert_eq!(compiler.get_pattern_from_current_rule(&compiler.rules[1], "$a"), 2);
    let rules = compiler.build().unwrap();
    assert_eq!(rules.rules().len(), 2);
    assert_eq!(rules.patterns().len(), 3);
    assert_eq!(rules.rules()[0].ident, IdentId(2));
    assert_eq!(rules.rules()[0].patterns, vec![(IdentId(0), 0), (IdentId(1), 1)]);
    assert_eq!(rules.rules()[1].ident, IdentId(3));
    assert_eq!(rules.rules()[1].patterns, vec![(IdentId(0), 2)]);
    assert_eq!(rules.ident_pool().get(IdentId(3)), Some("second"));
    assert_eq!(rules.lit_pool().len(), 0);
}

#[test]
fn a_rule_can_refer_to_an_earlier_rule() {
    let src = source(vec![
        rule("a", 5, vec![], e(ExprKind::True)),
        rule(
            "b",
            25,
            vec![],
            e(ExprKind::And(
                Box::new(e(ExprKind::FieldAccess(vec![ident("a", 40)]))),
                Box::new(e(ExprKind::Not(Box::new(e(ExprKind::FieldAccess(vec![ident("b", 50)])))))),
            )),
        ),
    ]);
    let (n, warnings) = compile(src).unwrap();
    assert_eq!(n, 2);
    assert!(warnings.is_empty());
}

#[test]
fn unknown_pattern_in_condition() {
    let condition = at(ExprKind::PatternMatch("$z".to_string()), 40, 42);
    match compile(source(vec![rule("r", 5, vec![ident("$a", 10)], condition)])) {
        Err(Error::CompileError(CompileError::UnknownIdentifier { name, span })) => {
            assert_eq!(name, "$z");
            assert_eq!(span, sp(40, 42));
        }
        other => panic!("unexpected result {:?}", other.map(|r| r.0)),
    }
}

#[test]
fn percentage_must_be_between_1_and_100() {
    for (p, ok) in [(0, false), (1, true), (100, true), (101, false), (-5, false)] {
        let condition = at(ExprKind::Of(Quantifier::Percent(p), PatternSet::Them), 40, 50);
        let result = compile(source(vec![rule("r", 5, vec![ident("$a", 10)], condition)]));
        match result {
            Ok(_) => assert!(ok),
            Err(Error::CompileError(CompileError::InvalidPercentage { value, span })) => {
                assert!(!ok);
                assert_eq!(value, p);
                assert_eq!(span, sp(40, 50));
            }
            Err(_) => panic!("unexpected error"),
        }
    }
}

#[test]
fn them_needs_patterns() {
    let condition = at(ExprKind::Of(Quantifier::Any, PatternSet::Them), 40, 51);
    match compile(source(vec![rule("r", 5, vec![], condition)])) {
        Err(Error::CompileError(CompileError::EmptyPatternSet { span })) => {
            assert_eq!(span, sp(40, 51));
        }
        other => panic!("unexpected result {:?}", other.map(|r| r.0)),
    }
}

#[test]
fn comparison_needs_operands_of_one_kind() {
    let condition = e(ExprKind::Compare(
        Comparison::Eq,
        Box::new(e(ExprKind::LiteralStr(b"a".to_vec()))),
        Box::new(at(ExprKind::LiteralInt(1), 60, 61)),
    ));
    match compile(source(vec![rule("r", 5, vec![], condition)])) {
        Err(Error::CompileError(CompileError::WrongType { expected, got, span })) => {
            assert_eq!(expected, Expected::String);
            assert_eq!(got, Type::Integer);
            assert_eq!(span, sp(60, 61));
        }
        other => panic!("unexpected result {:?}", other.map(|r| r.0)),
    }
    let mixed = e(ExprKind::Compare(
        Comparison::Ge,
        Box::new(e(ExprKind::LiteralInt(1))),
        Box::new(e(ExprKind::LiteralFloat(2.0_f64.to_bits()))),
    ));
    assert!(compile(source(vec![rule("r", 5, vec![], mixed)])).is_ok());
}

#[test]
fn arithmetic_types() {
    let registry = registry();
    let heap = Heap::new();
    let root = Struct::new();
    let patterns: Vec<Ident> = vec![];
    let env = Env { patterns: &patterns, modules_struct: &root, heap: &heap };
    let _ = registry;
    let mut ctx = Context::new();
    let int_int = e(ExprKind::Arith(
        Arithmetic::Add,
        Box::new(e(ExprKind::LiteralInt(1))),
        Box::new(e(ExprKind::Filesize)),
    ));
    assert_eq!(semcheck(&env, &mut ctx, &int_int).unwrap(), Type::Integer);
    let int_float = e(ExprKind::Arith(
        Arithmetic::Mul,
        Box::new(e(ExprKind::LiteralInt(1))),
        Box::new(e(ExprKind::LiteralFloat(0))),
    ));
    assert_eq!(semcheck(&env, &mut ctx, &int_float).unwrap(), Type::Float);
    let bad = e(ExprKind::Arith(
        Arithmetic::Div,
        Box::new(at(ExprKind::True, 7, 11)),
        Box::new(e(ExprKind::LiteralInt(0))),
    ));
    match semcheck(&env, &mut ctx, &bad) {
        Err(CompileError::WrongType { expected, got, span }) => {
            assert_eq!(expected, Expected::Numeric);
            assert_eq!(got, Type::Bool);
            assert_eq!(span, sp(7, 11));
        }
        other => panic!("unexpected result {:?}", other),
    }
    assert_eq!(ctx.vars_stack_top, 0);
    assert_eq!(ctx.symbol_table.depth(), 0);
    assert!(ctx.warnings.is_empty());
}

#[test]
fn path_has_one_index_for_each_identifier() {
    let mut heap = Heap::new();
    let mut innermost = Struct::new();
    innermost.add_field("a", TypeValue::Bool(None));
    innermost.add_field("z", TypeValue::Integer(None));
    let innermost_id = heap.add_struct(innermost);
    let mut middle = Struct::new();
    middle.add_field("x", TypeValue::Integer(None));
    middle.add_field("y", TypeValue::Integer(None));
    middle.add_field("c", TypeValue::Struct(innermost_id));
    let middle_id = heap.add_struct(middle);
    let mut module = Struct::new();
    module.add_field("b", TypeValue::Struct(middle_id));
    let module_id = heap.add_struct(module);
    let mut root = Struct::new();
    root.add_field("first", TypeValue::Integer(None));
    root.add_field("a", TypeValue::Struct(module_id));

    let patterns: Vec<Ident> = vec![];
    let env = Env { patterns: &patterns, modules_struct: &root, heap: &heap };
    let mut ctx = Context::new();
    ctx.symbol_table.push_new();
    ctx.symbol_table
        .insert("a", Symbol { ty: Type::Struct, kind: SymbolKind::FieldIndex(1) });
    ctx.symbol_table.insert(
        "v",
        Symbol { ty: Type::Integer, kind: SymbolKind::LoopVar(Var { ty: Type::Integer, index: 0 }) },
    );

    let chain = vec![ident("a", 0), ident("b", 2), ident("c", 4), ident("z", 6)];
    let (path, ty) = resolve_path(&env, &ctx, &chain).unwrap();
    assert_eq!(path, vec![1, 0, 2, 1]);
    assert_eq!(ty, Type::Integer);

    let (path, ty) = resolve_path(&env, &ctx, &vec![ident("a", 0)]).unwrap();
    assert_eq!(path, vec![1]);
    assert_eq!(ty, Type::Struct);

    let (path, ty) = resolve_path(&env, &ctx, &vec![ident("v", 0)]).unwrap();
    assert!(path.is_empty());
    assert_eq!(ty, Type::Integer);
}

#[test]
fn builtin_functions_are_in_scope() {
    let registry = registry();
    let compiler = Compiler::new(&registry);
    let builtins = registry.builtin_functions();
    assert_eq!(builtins.len(), 4);
    assert_eq!(builtins[0].name, "uint8");
    assert_eq!(builtins[1].name, "uint32");
    let funcs = &registry.structures().funcs;
    assert_eq!(funcs[builtins[0].func].signature(0), "uint8@i@iu");
    assert_eq!(funcs[builtins[1].func].signature(0), "uint32@i@iu");
    assert_eq!(
        compiler.ctx.symbol_table.lookup("uint32"),
        Some(Symbol { ty: Type::Func, kind: SymbolKind::Func(builtins[1].func) })
    );
    // Of two functions with one name the later one is in scope.
    assert_eq!(
        compiler.ctx.symbol_table.lookup("concat"),
        Some(Symbol { ty: Type::Func, kind: SymbolKind::Func(builtins[3].func) })
    );
    assert_eq!(compiler.ctx.symbol_table.lookup("rule_match"), None);
    let compiler = compiler.colorize_errors(true);
    assert!(compiler.colorize);
}

#[test]
fn context_has_128_slots() {
    let mut ctx = Context::new();
    let mut first = None;
    for i in 0..128 {
        let var = ctx.new_var(Type::Integer).unwrap();
        assert_eq!(var.index, i);
        if i == 3 {
            first = Some(var);
        }
    }
    assert_eq!(ctx.new_var(Type::Integer), None);
    assert_eq!(ctx.vars_stack_top, 128);
    ctx.free_vars(first.unwrap());
    assert_eq!(ctx.vars_stack_top, 3);
    assert_eq!(ctx.new_var(Type::Bool), Some(Var { ty: Type::Bool, index: 3 }));
}

#[test]
fn compile_error_titles() {
    let e = CompileError::UnknownModule { name: "foo".to_string(), span: sp(1, 2) };
    assert_eq!(e.title(), "unknown module `foo`");
    assert_eq!(e.span(), sp(1, 2));
    let e = CompileError::UnknownIdentifier { name: "x".to_string(), span: sp(1, 2) };
    assert_eq!(e.title(), "unknown identifier `x`");
    let e = CompileError::WrongType { expected: Expected::Integer, got: Type::Bool, span: sp(3, 4) };
    assert_eq!(e.title(), "wrong type");
    assert_eq!(e.span(), sp(3, 4));
    assert!(Expected::Scalar.accepts(Type::String));
    assert!(!Expected::Scalar.accepts(Type::Struct));
    assert!(Expected::Comparable.accepts(Type::Float));
    assert!(!Expected::Comparable.accepts(Type::Bool));
    assert!(!Expected::Numeric.accepts(Type::String));
}
