use yara_x::compiler::compile::Compiler;
use yara_x::compiler::errors::{CompileError, Error, Warning};
use yara_x::modules::ModuleRegistry;
use yara_x::parser::errors::Error as ParseError;
use yara_x::parser::span::Span;
use yara_x::scanner::eval::HostCall;
use yara_x::scanner::scan::scan_rules;
use yara_x::scanner::ScanContext;
use yara_x::types::{Heap, Struct, Type, TypeValue};
use yara_x::wasm::bitmap::rule_is_marked;
use yara_x::wasm::exports::WasmExport;

fn export(name: &str, mangled: &str) -> WasmExport {
    WasmExport {
        name: name.to_string(),
        mangled_name: mangled.to_string(),
        public: true,
        rust_module_path: "yara_x::wasm".to_string(),
    }
}

/// A registry with the functions that read integers, and the module `m`
/// with the integer `num`.
fn registry() -> ModuleRegistry {
    let mut registry = ModuleRegistry::new();
    let mut builtins = Vec::new();
    for name in
        ["uint8", "uint16", "uint32", "uint64", "uint8be", "uint16be", "uint32be", "uint64be"]
    {
        builtins.push(export(name, &format!("{}@i@iu", name)));
    }
    registry.add_builtins(&builtins);
    let mut root = Struct::new();
    root.add_field("num", TypeValue::Integer(None));
    root.add_field("name", TypeValue::String(None));
    registry.add_module("m", "m.M", Some("m"), false, root, &[]);
    registry
}

/// A scan of `data` in which the module `m` says that `num` is 42.
fn context(data: &[u8]) -> ScanContext {
    let mut heap = Heap::new();
    heap.strings.push(b"text".to_vec());
    let mut m = Struct::new();
    m.add_field("num", TypeValue::Integer(Some(42)));
    m.add_field("name", TypeValue::String(Some(0)));
    let m = heap.add_struct(m);
    let mut root = Struct::new();
    root.add_field("m", TypeValue::Struct(m));
    let root = heap.add_struct(root);
    ScanContext::new(data.to_vec(), heap, root)
}

struct Scanned {
    rules: usize,
    matching: Vec<String>,
    calls: Vec<HostCall>,
    warnings: Vec<String>,
}

/// Compiles a source and scans `data` with it.
fn run(text: &str, data: &[u8]) -> Result<Scanned, Error> {
    let registry = registry();
    let compiler = Compiler::new(&registry);
    assert!(compiler.has_room(text.len() + 1));
    let compiler = compiler.add_source(text.as_bytes())?;
    let warnings = compiler
        .warnings()
        .iter()
        .map(|w| match w {
            Warning::NonBooleanCondition { got, .. } => format!("non-boolean {:?}", got),
            Warning::UnusedString { ident, .. } => format!("unused {}", ident),
            Warning::DuplicateImport { module, .. } => format!("duplicate import {}", module),
        })
        .collect();
    let rules = compiler.build()?;
    let count = rules.rules().len();
    assert_eq!(rules.program().namespaces.len(), 1);
    assert_eq!(rules.program().namespaces[0].rules.len(), count);
    let mut ctx = context(data);
    let mut memory = vec![0u8; 2048 + (count + 7) / 8];
    // Without a bit for each rule nothing is scanned.
    if count > 0 {
        let mut short = vec![0u8; 2048];
        assert!(scan_rules(&rules, &mut ctx, &mut short).is_none());
        assert!(ctx.rules_matching.is_empty());
    }
    let calls = scan_rules(&rules, &mut ctx, &mut memory).unwrap();
    let mut matching = Vec::new();
    for id in 0..count {
        let marked = rule_is_marked(&memory, id as i32);
        assert_eq!(marked, ctx.rules_matching.contains(&(id as i32)));
        if marked {
            let ident = rules.rules()[id].ident;
            matching.push(rules.ident_pool().get(ident).unwrap().to_string());
        }
    }
    Ok(Scanned { rules: count, matching, calls, warnings })
}

fn matching(text: &str, data: &[u8]) -> Vec<String> {
    run(text, data).unwrap().matching
}

fn error(text: &str) -> Error {
    match run(text, b"") {
        Ok(_) => panic!("`{}` compiles", text),
        Err(e) => e,
    }
}

#[test]
fn trivial_match_from_source() {
    for data in [&b""[..], b"x", &[0u8; 64]] {
        let scanned = run("rule r { condition: true }", data).unwrap();
        assert_eq!(scanned.rules, 1);
        assert_eq!(scanned.matching, vec!["r"]);
        assert!(scanned.warnings.is_empty());
    }
}

#[test]
fn filesize_from_source() {
    let text = "rule r { condition: filesize == 5 }";
    assert_eq!(matching(text, b"hello"), vec!["r"]);
    assert!(matching(text, b"hi").is_empty());
}

#[test]
fn undef_propagation_from_source() {
    let scanned = run("rule r { condition: uint32(100) == 0 }", &[0, 0, 0, 0]).unwrap();
    assert_eq!(scanned.rules, 1);
    assert!(scanned.matching.is_empty());
    assert_eq!(scanned.calls, vec![HostCall { size: 4, big_endian: false, offset: 100 }]);
    assert_eq!(matching("rule r { condition: uint32(0) == 0 }", &[0, 0, 0, 0]), vec!["r"]);
    assert!(matching("rule r { condition: not (uint32(100) == 0) }", &[0, 0, 0, 0]).is_empty());
    assert!(matching("rule r { condition: uint8(0 - 1) == 0 }", &[0]).is_empty());
}

#[test]
fn short_circuit_from_source() {
    let scanned = run("rule r { condition: false and uint32(100) == 0 }", &[0, 0, 0, 0]).unwrap();
    assert!(scanned.matching.is_empty());
    assert!(scanned.calls.is_empty());
    let scanned = run("rule r { condition: true or uint32(100) == 0 }", &[0, 0, 0, 0]).unwrap();
    assert_eq!(scanned.matching, vec!["r"]);
    assert!(scanned.calls.is_empty());
    let scanned = run("rule r { condition: true and uint32(0) == 0 }", &[0, 0, 0, 0]).unwrap();
    assert_eq!(scanned.matching, vec!["r"]);
    assert_eq!(scanned.calls.len(), 1);
}

#[test]
fn dotted_field_access_from_source() {
    assert_eq!(matching("import \"m\" rule r { condition: m.num == 42 }", b""), vec!["r"]);
    assert!(matching("import \"m\" rule r { condition: m.num == 43 }", b"").is_empty());
    assert_eq!(matching("import \"m\" rule r { condition: m.name == \"text\" }", b""), vec!["r"]);
    assert_eq!(matching("import \"m\" rule r { condition: m.num \\ 2 - 1 == 20 }", b""), vec!["r"]);
}

#[test]
fn unused_string_warning_from_source() {
    let scanned = run("rule r { strings: $a = \"x\" condition: true }", b"").unwrap();
    assert_eq!(scanned.rules, 1);
    assert_eq!(scanned.warnings, vec!["unused $a"]);
    let scanned =
        run("rule r { strings: $a = \"x\" $b = \"y\" $c = \"z\" condition: $b }", b"").unwrap();
    assert_eq!(scanned.warnings, vec!["unused $a", "unused $c"]);
    let scanned = run("rule r { strings: $a = \"x\" $b = \"y\" condition: any of them }", b"").unwrap();
    assert!(scanned.warnings.is_empty());
    let scanned = run("rule r { strings: $a = \"x\" $b = \"y\" condition: all of ($b) }", b"").unwrap();
    assert_eq!(scanned.warnings, vec!["unused $a"]);
}

#[test]
fn duplicate_rule_error_from_source() {
    match error("rule r {condition: true} rule r {condition: false}") {
        Error::ParseError(ParseError::DuplicateRule {
            rule_ident,
            new_rule_name_span,
            existing_rule_name_span,
            ..
        }) => {
            assert_eq!(rule_ident, "r");
            assert_eq!(new_rule_name_span, Span::new(30, 31));
            assert_eq!(existing_rule_name_span, Span::new(5, 6));
        }
        _ => panic!("unexpected error"),
    }
    match error("rule r : a b a {condition: true}") {
        Error::ParseError(ParseError::DuplicateTag { tag, tag_span, existing_tag_span, .. }) => {
            assert_eq!(tag, "a");
            assert_eq!(tag_span, Span::new(13, 14));
            assert_eq!(existing_tag_span, Span::new(9, 10));
        }
        _ => panic!("unexpected error"),
    }
    match error("rule r { strings: $a = \"x\" $a = \"y\" condition: $a }") {
        Error::ParseError(ParseError::DuplicateString {
            string_ident,
            new_string_span,
            existing_string_span,
            ..
        }) => {
            assert_eq!(string_ident, "$a");
            assert_eq!(new_string_span, Span::new(27, 29));
            assert_eq!(existing_string_span, Span::new(18, 20));
        }
        _ => panic!("unexpected error"),
    }
}

#[test]
fn errors_point_into_the_source() {
    let within = |text: &str, start: usize, end: usize| {
        assert!(start <= end && end <= text.len());
        text[start..end].to_string()
    };
    let text = "rule r { condition: nothing == 1 }";
    match error(text) {
        Error::CompileError(CompileError::UnknownIdentifier { name, span }) => {
            assert_eq!(name, "nothing");
            assert_eq!(within(text, span.start, span.end), "nothing");
        }
        _ => panic!("unexpected error"),
    }
    let text = "import \"nothing\" rule r { condition: true }";
    match error(text) {
        Error::CompileError(CompileError::UnknownModule { name, span }) => {
            assert_eq!(name, "nothing");
            assert_eq!(within(text, span.start, span.end), "import \"nothing\"");
        }
        _ => panic!("unexpected error"),
    }
    let text = "rule r { condition: 1 + \"a\" == 2 }";
    match error(text) {
        Error::CompileError(CompileError::WrongType { got, span, .. }) => {
            assert_eq!(got, Type::String);
            assert_eq!(within(text, span.start, span.end), "\"a\"");
        }
        _ => panic!("unexpected error"),
    }
    let text = "rule r { condition: uint32(1, 2) == 2 }";
    match error(text) {
        Error::CompileError(CompileError::WrongNumberOfArguments { span }) => {
            assert_eq!(within(text, span.start, span.end), "uint32(1, 2)");
        }
        _ => panic!("unexpected error"),
    }
    let text = "rule r { condition: uint32(\"x\") == 2 }";
    match error(text) {
        Error::CompileError(CompileError::NoMatchingOverload { span }) => {
            assert_eq!(within(text, span.start, span.end), "uint32(\"x\")");
        }
        _ => panic!("unexpected error"),
    }
    let text = "rule r { condition: 50% of them }";
    match error(text) {
        Error::CompileError(CompileError::EmptyPatternSet { span }) => {
            assert_eq!(within(text, span.start, span.end), "50% of them");
        }
        _ => panic!("unexpected error"),
    }
    let text = "rule r { strings: $a = \"x\" condition: 101% of them }";
    match error(text) {
        Error::CompileError(CompileError::InvalidPercentage { span, .. }) => {
            assert_eq!(within(text, span.start, span.end), "101% of them");
        }
        _ => panic!("unexpected error"),
    }
    let text = "rule r { condition: ";
    match error(text) {
        Error::ParseError(ParseError::SyntaxError { error_msg, error_span, .. }) => {
            assert_eq!(error_msg, "unexpected end of file; expected boolean expression");
            assert_eq!(error_span, Span::new(20, 20));
        }
        _ => panic!("unexpected error"),
    }
}

#[test]
fn non_boolean_conditions_are_cast() {
    let scanned = run(
        "rule a { condition: 2 } rule b { condition: 0 } rule c { condition: \"x\" } \
         rule d { condition: \"\" } rule e { condition: filesize }",
        b"123",
    )
    .unwrap();
    assert_eq!(scanned.rules, 5);
    assert_eq!(scanned.matching, vec!["a", "c", "e"]);
    assert_eq!(
        scanned.warnings,
        vec![
            "non-boolean Integer",
            "non-boolean Integer",
            "non-boolean String",
            "non-boolean String",
            "non-boolean Integer"
        ]
    );
}

#[test]
fn rules_loops_and_arithmetic_from_source() {
    let text = "rule big { condition: filesize > 3 }\n\
                rule small { condition: not big }\n\
                rule mz { condition: uint16(0) == 0x5A4D }\n\
                rule be { condition: uint16be(0) == 0x4D5A }\n\
                rule found { condition: for any i in (0..filesize - 1) : (uint8(i) == 0x78) }\n\
                rule sums { condition: 1 + 2 * 3 == 7 and 7 \\ 2 == 3 and 7 % 3 == 1 and -7 \\ 2 == -3 }\n\
                rule zero { condition: 1 \\ 0 == 0 or 1 % 0 == 0 }\n\
                rule either { condition: big or small }";
    assert_eq!(matching(text, b"MZ..x"), vec!["big", "mz", "be", "found", "sums", "either"]);
    assert_eq!(matching(text, b"MZ"), vec!["small", "mz", "be", "sums", "either"]);
    assert_eq!(matching(text, b""), vec!["small", "sums", "either"]);
}

#[test]
fn string_operators_from_source() {
    let holds = |condition: &str| {
        let text = format!("import \"m\" rule r {{ condition: {} }}", condition);
        !matching(&text, b"").is_empty()
    };
    assert!(holds(r#""hello world" contains "lo w""#));
    assert!(holds(r#""hello" contains """#));
    assert!(!holds(r#""hello" contains "LO""#));
    assert!(holds(r#""hello" icontains "LO""#));
    assert!(!holds(r#""hello" icontains "lol""#));
    assert!(holds(r#""hello" startswith "he""#));
    assert!(!holds(r#""hello" startswith "el""#));
    assert!(!holds(r#""hello" startswith "HE""#));
    assert!(holds(r#""hello" istartswith "HE""#));
    assert!(holds(r#""hello" endswith "llo""#));
    assert!(!holds(r#""hello" endswith "hell""#));
    assert!(!holds(r#""lo" endswith "hello""#));
    assert!(holds(r#""hello" iendswith "LLO""#));
    assert!(holds(r#""Hello" iequals "hELLO""#));
    assert!(!holds(r#""Hello" iequals "hELL""#));
    assert!(!holds(r#""Hello" == "hello""#));
    assert!(holds(r#""a\xc9" iequals "A\xc9""#));
    assert!(!holds(r#""a\xc9" iequals "a\xe9""#));
    assert!(holds(r#"m.name contains "ex""#));
    assert!(holds(r#"m.name iequals "TEXT" and not m.name startswith "x""#));
    for condition in [r#"1 contains 2"#, r#""a" contains 2"#, r#"m.num icontains "a""#] {
        let text = format!("import \"m\" rule r {{ condition: {} }}", condition);
        match error(&text) {
            Error::CompileError(CompileError::WrongType { got, .. }) => {
                assert_eq!(got, Type::Integer)
            }
            _ => panic!("unexpected error"),
        }
    }
}

#[test]
fn bit_operators_from_source() {
    let holds = |condition: &str| {
        let text = format!("import \"m\" rule r {{ condition: {} }}", condition);
        !matching(&text, b"abc").is_empty()
    };
    assert!(holds("0xf0 & 0x3c == 0x30"));
    assert!(holds("0xf0 | 0x0f == 0xff"));
    assert!(holds("0xff ^ 0x0f == 0xf0"));
    assert!(holds("1 << 4 == 16"));
    assert!(holds("256 >> 4 == 16"));
    assert!(holds("1 << 63 == -9223372036854775807 - 1"));
    assert!(holds("1 << 64 == 0"));
    assert!(holds("1 >> 64 == 0"));
    assert!(holds("3 << 63 == 1 << 63"));
    // The places that become free hold zeros.
    assert!(holds("-1 >> 1 == 9223372036854775807"));
    assert!(holds("-1 >> 63 == 1"));
    assert!(holds("-1 & 0xff == 255"));
    assert!(holds("m.num & 2 == 2 and filesize | 4 == 7"));
    // A negative number of places is undefined.
    assert!(!holds("1 << -1 == 0"));
    assert!(!holds("not (1 << -1 == 0)"));
    assert!(!holds("1 >> 0 - 1 == 0"));
    for (condition, got) in [
        ("1 & \"a\" == 1", Type::String),
        ("\"a\" | 1 == 1", Type::String),
        ("true ^ 1 == 1", Type::Bool),
        ("1 << true == 1", Type::Bool),
    ] {
        let text = format!("rule r {{ condition: {} }}", condition);
        match error(&text) {
            Error::CompileError(CompileError::WrongType { got: found, .. }) => {
                assert_eq!(found, got)
            }
            _ => panic!("unexpected error"),
        }
    }
}

#[test]
fn patterns_at_offsets_from_source() {
    // No pattern matches, so a pattern matches at no offset either.
    let text = "rule r { strings: $a = { 4D 5A } $b = /x/ condition: $a at 0 or $b in (0..filesize) }";
    let scanned = run(text, b"MZ").unwrap();
    assert_eq!(scanned.rules, 1);
    assert!(scanned.matching.is_empty());
    // A pattern that is looked for at an offset is used.
    assert!(scanned.warnings.is_empty());
    let scanned = run("rule r { strings: $a = \"x\" condition: not $a at 0 }", b"").unwrap();
    assert_eq!(scanned.matching, vec!["r"]);
    // The offsets are evaluated, and an undefined offset makes the answer undefined.
    let scanned =
        run("rule r { strings: $a = \"x\" condition: not $a at uint8(5) }", b"abc").unwrap();
    assert!(scanned.matching.is_empty());
    assert_eq!(scanned.calls, vec![HostCall { size: 1, big_endian: false, offset: 5 }]);
    let scanned = run(
        "rule r { strings: $a = \"x\" condition: not $a in (uint8(0)..uint8(1)) }",
        b"ab",
    )
    .unwrap();
    assert_eq!(scanned.matching, vec!["r"]);
    assert_eq!(scanned.calls.len(), 2);
    match error("rule r { condition: $a at 0 }") {
        Error::CompileError(CompileError::UnknownIdentifier { name, span }) => {
            assert_eq!(name, "$a");
            assert_eq!(span, Span::new(20, 27));
        }
        _ => panic!("unexpected error"),
    }
    for text in [
        "rule r { strings: $a = \"x\" condition: $a at \"y\" }",
        "rule r { strings: $a = \"x\" condition: $a in (0..\"y\") }",
        "rule r { strings: $a = \"x\" condition: $a in (\"y\"..1) }",
    ] {
        match error(text) {
            Error::CompileError(CompileError::WrongType { got, span, .. }) => {
                assert_eq!(got, Type::String);
                assert_eq!(&text[span.start..span.end], "\"y\"");
            }
            _ => panic!("unexpected error"),
        }
    }
    match error("rule r { strings: $a = \"x\" condition: $a at true }") {
        Error::CompileError(CompileError::WrongType { got, .. }) => assert_eq!(got, Type::Bool),
        _ => panic!("unexpected error"),
    }
}

#[test]
fn hex_patterns_and_regular_expressions_from_source() {
    let text = "rule r {\n  meta: n = 1\n  strings:\n    $h = { 4D 5A [2-4] ( 00 | ?? ) }\n    $r = /ab+c/i nocase\n  condition: any of them or filesize > 0\n}";
    let scanned = run(text, b"x").unwrap();
    assert_eq!(scanned.matching, vec!["r"]);
    assert!(scanned.warnings.is_empty());
    match error("rule r { strings: $h = { 4D 5 } condition: $h }") {
        Error::ParseError(ParseError::InvalidHexString { string_ident, error_span, .. }) => {
            assert_eq!(string_ident, "$h");
            assert_eq!(error_span, Span::new(28, 29));
        }
        _ => panic!("unexpected error"),
    }
}

#[test]
fn a_compiler_takes_more_than_one_source() {
    let registry = registry();
    let compiler = Compiler::new(&registry)
        .add_source(b"rule a { condition: true }")
        .unwrap()
        .add_source(b"import \"m\" rule a { condition: m.num == 1 } rule b { condition: a }")
        .unwrap();
    let rules = compiler.build().unwrap();
    assert_eq!(rules.rules().len(), 3);
    let mut imports = rules.imports();
    assert_eq!(imports.next(), Some("m"));
    assert_eq!(imports.next(), None);
    // A source that does not compile leaves nothing behind.
    let compiler = Compiler::new(&registry);
    assert!(compiler.has_room(1 << 20));
    assert!(!compiler.has_room(i32::MAX as usize));
    assert!(compiler.add_source(b"rule a { condition: true } rule").is_err());
}
