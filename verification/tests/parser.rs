use yara_x::parser::ast::{
    Arithmetic, Comparison, Expr, ExprKind, MetaValue, PatternBody, PatternModifiers, PatternSet,
    Quantifier, Rule, SourceFile,
};
use yara_x::parser::hex::{find_hex_flaw, find_jump_end};
use yara_x::parser::errors::Error;
use yara_x::parser::failure::{Expected, Failure, Flaw};
use yara_x::parser::grammar::GrammarRule;
use yara_x::parser::lexer::{keyword_of, run, skip_trivia, split, tokenize, Class, Token};
use yara_x::parser::literals::{read_number, unescape};
use yara_x::parser::source::parse;
use yara_x::parser::span::Span;

fn sp(start: usize, end: usize) -> Span {
    Span::new(start, end)
}

fn token(rule: GrammarRule, start: usize, end: usize) -> Token {
    Token { rule, span: sp(start, end) }
}

fn rules_of(text: &str) -> Vec<GrammarRule> {
    tokenize(text.as_bytes()).unwrap().iter().map(|t| t.rule).collect()
}

fn fails(text: &str) -> Failure {
    match parse(text.as_bytes()) {
        Ok(_) => panic!("`{}` parses", text),
        Err(f) => f,
    }
}

fn unexpected(found: GrammarRule, expected: Expected, start: usize, end: usize) -> Failure {
    Failure { flaw: Flaw::Unexpected { found, expected }, span: sp(start, end) }
}

fn file(text: &str) -> SourceFile {
    parse(text.as_bytes()).unwrap()
}

/// The condition of the only rule of a source.
fn condition(text: &str) -> Expr {
    let source = format!("rule r {{ condition: {} }}", text);
    let mut parsed = file(&source);
    assert_eq!(parsed.namespaces.len(), 1);
    let mut namespace = parsed.namespaces.pop().unwrap();
    assert_eq!(namespace.rules.len(), 1);
    namespace.rules.pop().unwrap().condition
}

/// An expression in brackets, as a Lisp would write it.
fn show(e: &Expr) -> String {
    match &e.kind {
        ExprKind::True => "true".to_string(),
        ExprKind::False => "false".to_string(),
        ExprKind::Filesize => "filesize".to_string(),
        ExprKind::LiteralInt(v) => v.to_string(),
        ExprKind::LiteralFloat(bits) => format!("float:{}", bits),
        ExprKind::LiteralStr(bytes) => format!("{:?}", String::from_utf8_lossy(bytes)),
        ExprKind::PatternMatch(name) => name.clone(),
        ExprKind::PatternAt(name, a) => format!("(at {} {})", name, show(a)),
        ExprKind::PatternIn(name, a, b) => format!("(in {} {} {})", name, show(a), show(b)),
        ExprKind::Of(q, set) => {
            let q = match q {
                Quantifier::Any => "any".to_string(),
                Quantifier::All => "all".to_string(),
                Quantifier::Count(n) => n.to_string(),
                Quantifier::Percent(n) => format!("{}%", n),
            };
            let set = match set {
                PatternSet::Them => "them".to_string(),
                PatternSet::Named(idents) => {
                    idents.iter().map(|i| i.name.clone()).collect::<Vec<_>>().join(" ")
                }
            };
            format!("(of {} {})", q, set)
        }
        ExprKind::FieldAccess(idents) => {
            idents.iter().map(|i| i.name.clone()).collect::<Vec<_>>().join(".")
        }
        ExprKind::Not(a) => format!("(not {})", show(a)),
        ExprKind::And(a, b) => format!("(and {} {})", show(a), show(b)),
        ExprKind::Or(a, b) => format!("(or {} {})", show(a), show(b)),
        ExprKind::Compare(op, a, b) => {
            let op = match op {
                Comparison::Eq => "==",
                Comparison::Ne => "!=",
                Comparison::Lt => "<",
                Comparison::Le => "<=",
                Comparison::Gt => ">",
                Comparison::Ge => ">=",
                Comparison::Contains => "contains",
                Comparison::StartsWith => "startswith",
                Comparison::EndsWith => "endswith",
                Comparison::IEquals => "iequals",
                Comparison::IContains => "icontains",
                Comparison::IStartsWith => "istartswith",
                Comparison::IEndsWith => "iendswith",
            };
            format!("({} {} {})", op, show(a), show(b))
        }
        ExprKind::Arith(op, a, b) => {
            let op = match op {
                Arithmetic::Add => "+",
                Arithmetic::Sub => "-",
                Arithmetic::Mul => "*",
                Arithmetic::Div => "\\",
                Arithmetic::Mod => "%",
                Arithmetic::BitAnd => "&",
                Arithmetic::BitOr => "|",
                Arithmetic::BitXor => "^",
                Arithmetic::Shl => "<<",
                Arithmetic::Shr => ">>",
            };
            format!("({} {} {})", op, show(a), show(b))
        }
        ExprKind::ForIn { var, lower, upper, condition } => {
            format!("(for {} {} {} {})", var.name, show(lower), show(upper), show(condition))
        }
        ExprKind::Call { callee, args } => {
            let args: Vec<String> = args.iter().map(show).collect();
            format!("({}{}{})", callee.name, if args.is_empty() { "" } else { " " }, args.join(" "))
        }
    }
}

fn shown(text: &str) -> String {
    show(&condition(text))
}

#[test]
fn tokens_of_a_rule() {
    assert_eq!(
        tokenize(b"rule r { condition: true }").unwrap(),
        vec![
            token(GrammarRule::k_RULE, 0, 4),
            token(GrammarRule::ident, 5, 6),
            token(GrammarRule::LBRACE, 7, 8),
            token(GrammarRule::k_CONDITION, 9, 18),
            token(GrammarRule::COLON, 18, 19),
            token(GrammarRule::k_TRUE, 20, 24),
            token(GrammarRule::RBRACE, 25, 26),
            token(GrammarRule::EOI, 26, 26),
        ]
    );
    assert_eq!(tokenize(b"").unwrap(), vec![token(GrammarRule::EOI, 0, 0)]);
    assert_eq!(tokenize(b" \t\r\n").unwrap(), vec![token(GrammarRule::EOI, 4, 4)]);
}

#[test]
fn comments_and_white_space_are_no_tokens() {
    assert_eq!(
        tokenize(b"// x\nrule /* y\n */ r// end").unwrap(),
        vec![
            token(GrammarRule::k_RULE, 5, 9),
            token(GrammarRule::ident, 19, 20),
            token(GrammarRule::EOI, 26, 26),
        ]
    );
    assert_eq!(skip_trivia(b"  /**/ //\n x", 0), Some(11));
    assert_eq!(skip_trivia(b"x", 0), Some(0));
    assert_eq!(skip_trivia(b"/ /", 0), Some(0));
    assert_eq!(skip_trivia(b"/* *", 0), None);
    assert_eq!(skip_trivia(b"/*/", 0), None);
    assert_eq!(skip_trivia(b"// /*", 0), Some(5));
    assert_eq!(
        tokenize(b"rule /* x"),
        Err(Failure { flaw: Flaw::Unfinished(GrammarRule::COMMENT), span: sp(4, 9) })
    );
}

#[test]
fn words_are_keywords_or_identifiers() {
    for (word, rule) in [
        ("all", GrammarRule::k_ALL),
        ("and", GrammarRule::k_AND),
        ("any", GrammarRule::k_ANY),
        ("ascii", GrammarRule::k_ASCII),
        ("at", GrammarRule::k_AT),
        ("base64", GrammarRule::k_BASE64),
        ("base64wide", GrammarRule::k_BASE64WIDE),
        ("condition", GrammarRule::k_CONDITION),
        ("contains", GrammarRule::k_CONTAINS),
        ("endswith", GrammarRule::k_ENDSWITH),
        ("false", GrammarRule::k_FALSE),
        ("filesize", GrammarRule::k_FILESIZE),
        ("for", GrammarRule::k_FOR),
        ("fullword", GrammarRule::k_FULLWORD),
        ("global", GrammarRule::k_GLOBAL),
        ("icontains", GrammarRule::k_ICONTAINS),
        ("iendswith", GrammarRule::k_IENDSWITH),
        ("iequals", GrammarRule::k_IEQUALS),
        ("import", GrammarRule::k_IMPORT),
        ("in", GrammarRule::k_IN),
        ("istartswith", GrammarRule::k_ISTARTSWITH),
        ("matches", GrammarRule::k_MATCHES),
        ("meta", GrammarRule::k_META),
        ("nocase", GrammarRule::k_NOCASE),
        ("not", GrammarRule::k_NOT),
        ("of", GrammarRule::k_OF),
        ("or", GrammarRule::k_OR),
        ("private", GrammarRule::k_PRIVATE),
        ("rule", GrammarRule::k_RULE),
        ("startswith", GrammarRule::k_STARTSWITH),
        ("strings", GrammarRule::k_STRINGS),
        ("them", GrammarRule::k_THEM),
        ("true", GrammarRule::k_TRUE),
        ("wide", GrammarRule::k_WIDE),
        ("xor", GrammarRule::k_XOR),
    ] {
        assert_eq!(keyword_of(word), Some(rule));
        assert_eq!(rules_of(word), vec![rule, GrammarRule::EOI]);
    }
    for word in ["rules", "Rule", "true_", "_", "a1", "uint32", "TRUE", "r"] {
        assert_eq!(keyword_of(word), None);
        assert_eq!(rules_of(word), vec![GrammarRule::ident, GrammarRule::EOI]);
    }
    assert_eq!(
        tokenize(b"$a $ $_1x").unwrap(),
        vec![
            token(GrammarRule::string_ident, 0, 2),
            token(GrammarRule::string_ident, 3, 4),
            token(GrammarRule::string_ident, 5, 9),
            token(GrammarRule::EOI, 9, 9),
        ]
    );
    assert_eq!(run(b"ab_1-x", 0, Class::Word), 4);
    assert_eq!(run(b"ab_1-x", 4, Class::Word), 4);
    assert_eq!(run(b"12a", 0, Class::Digit), 2);
    assert_eq!(run(b"12aFg", 0, Class::HexDigit), 4);
    assert_eq!(run(b"12", 2, Class::Digit), 2);
}

#[test]
fn numbers_and_strings_are_tokens() {
    assert_eq!(
        tokenize(b"0x1F 12ab 0x 0xg").unwrap(),
        vec![
            token(GrammarRule::integer_lit, 0, 4),
            token(GrammarRule::integer_lit, 5, 7),
            token(GrammarRule::ident, 7, 9),
            token(GrammarRule::integer_lit, 10, 11),
            token(GrammarRule::ident, 11, 12),
            token(GrammarRule::integer_lit, 13, 14),
            token(GrammarRule::ident, 14, 16),
            token(GrammarRule::EOI, 16, 16),
        ]
    );
    assert_eq!(
        tokenize(br#""a" "" "\"" "\\" x"#).unwrap(),
        vec![
            token(GrammarRule::string_lit, 0, 3),
            token(GrammarRule::string_lit, 4, 6),
            token(GrammarRule::string_lit, 7, 11),
            token(GrammarRule::string_lit, 12, 16),
            token(GrammarRule::ident, 17, 18),
            token(GrammarRule::EOI, 18, 18),
        ]
    );
    let unfinished = |start: usize| {
        Err(Failure { flaw: Flaw::Unfinished(GrammarRule::string_lit), span: sp(start, start + 1) })
    };
    assert_eq!(tokenize(b"x \"abc"), unfinished(2));
    assert_eq!(tokenize(b"\"a\nb\""), unfinished(0));
    assert_eq!(tokenize(b"\"a\\"), unfinished(0));
    assert_eq!(tokenize(b"\"a\\\""), unfinished(0));
    assert_eq!(tokenize(b"\""), unfinished(0));
}

#[test]
fn punctuation() {
    assert_eq!(
        rules_of("== != <= >= << >> = < > ( ) { } [ ] : , . + - * \\ % & | ^"),
        vec![
            GrammarRule::EQ,
            GrammarRule::NEQ,
            GrammarRule::LE,
            GrammarRule::GE,
            GrammarRule::SHL,
            GrammarRule::SHR,
            GrammarRule::EQUAL,
            GrammarRule::LT,
            GrammarRule::GT,
            GrammarRule::LPAREN,
            GrammarRule::RPAREN,
            GrammarRule::LBRACE,
            GrammarRule::RBRACE,
            GrammarRule::LBRACKET,
            GrammarRule::RBRACKET,
            GrammarRule::COLON,
            GrammarRule::COMMA,
            GrammarRule::DOT,
            GrammarRule::ADD,
            GrammarRule::MINUS,
            GrammarRule::MUL,
            GrammarRule::DIV,
            GrammarRule::PERCENT,
            GrammarRule::BITWISE_AND,
            GrammarRule::BITWISE_OR,
            GrammarRule::BITWISE_XOR,
            GrammarRule::EOI,
        ]
    );
    // The longest punctuation that fits is taken.
    assert_eq!(
        rules_of("===<<="),
        vec![GrammarRule::EQ, GrammarRule::EQUAL, GrammarRule::SHL, GrammarRule::EQUAL, GrammarRule::EOI]
    );
    assert_eq!(rules_of("a..b"), vec![
        GrammarRule::ident,
        GrammarRule::DOT,
        GrammarRule::DOT,
        GrammarRule::ident,
        GrammarRule::EOI
    ]);
    for text in ["#", "rule !", "@", "~", "\u{e9}", "'", ";", "?"] {
        let at = text.len() - text.chars().last().unwrap().len_utf8();
        assert_eq!(
            tokenize(text.as_bytes()),
            Err(Failure { flaw: Flaw::UnknownCharacter, span: sp(at, at + 1) })
        );
    }
}

#[test]
fn values_of_numbers() {
    assert_eq!(read_number(b"", 10), Some(0));
    assert_eq!(read_number(b"0", 10), Some(0));
    assert_eq!(read_number(b"123", 10), Some(123));
    assert_eq!(read_number(b"00123", 10), Some(123));
    assert_eq!(read_number(b"9223372036854775807", 10), Some(i64::MAX));
    assert_eq!(read_number(b"9223372036854775808", 10), None);
    assert_eq!(read_number(b"92233720368547758070", 10), None);
    assert_eq!(read_number(b"99999999999999999999999999", 10), None);
    assert_eq!(read_number(b"ff", 16), Some(255));
    assert_eq!(read_number(b"FF", 16), Some(255));
    assert_eq!(read_number(b"4d5A", 16), Some(0x4d5a));
    assert_eq!(read_number(b"7fffffffffffffff", 16), Some(i64::MAX));
    assert_eq!(read_number(b"8000000000000000", 16), None);
    assert_eq!(read_number(b"101", 2), Some(5));
    assert_eq!(shown("0x10"), "16");
    assert_eq!(shown("0x4D5A"), "19802");
    assert_eq!(shown("007"), "7");
    assert_eq!(shown("9223372036854775807"), "9223372036854775807");
}

#[test]
fn values_of_strings() {
    assert_eq!(unescape(b"abc"), Ok(b"abc".to_vec()));
    assert_eq!(unescape(b""), Ok(vec![]));
    assert_eq!(unescape(br#"a\n\t\r\\\"b"#), Ok(b"a\n\t\r\\\"b".to_vec()));
    assert_eq!(unescape(br"\x41\x00\xff\xFf\x0a"), Ok(vec![0x41, 0x00, 0xff, 0xff, 0x0a]));
    assert_eq!(unescape(br"\x414"), Ok(b"A4".to_vec()));
    assert_eq!(unescape(b"\xc3\xa9"), Ok(vec![0xc3, 0xa9]));
    assert_eq!(unescape(br"a\q"), Err(1));
    assert_eq!(unescape(br"\x4"), Err(0));
    assert_eq!(unescape(br"\x4g"), Err(0));
    assert_eq!(unescape(br"ab\"), Err(2));
    assert_eq!(unescape(br"\n\0"), Err(2));
    assert_eq!(shown(r#""a\x41\n""#), "\"aA\\n\"");
    assert_eq!(shown(r#""""#), "\"\"");
}

#[test]
fn a_trivial_rule() {
    let parsed = file("rule r { condition: true }");
    assert_eq!(parsed.namespaces.len(), 1);
    let namespace = &parsed.namespaces[0];
    assert!(namespace.imports.is_empty());
    assert_eq!(namespace.rules.len(), 1);
    let rule = &namespace.rules[0];
    assert_eq!(rule.identifier.name, "r");
    assert_eq!(rule.identifier.span, sp(5, 6));
    assert!(rule.tags.is_empty());
    assert!(rule.patterns.is_empty());
    assert!(matches!(rule.condition.kind, ExprKind::True));
    assert_eq!(rule.condition.span, sp(20, 24));
    // A source without rules is a namespace without rules.
    let empty = file(" // nothing\n");
    assert_eq!(empty.namespaces.len(), 1);
    assert!(empty.namespaces[0].rules.is_empty());
}

#[test]
fn operators_bind_by_their_level() {
    assert_eq!(
        shown("1 + 2 * 3 == 7 and not false or true"),
        "(or (and (== (+ 1 (* 2 3)) 7) (not false)) true)"
    );
    assert_eq!(shown("a or b and c"), "(or a (and b c))");
    assert_eq!(shown("a and b or c"), "(or (and a b) c)");
    assert_eq!(shown("not a and b"), "(and (not a) b)");
    assert_eq!(shown("not not a"), "(not (not a))");
    assert_eq!(shown("not a == b"), "(not (== a b))");
    assert_eq!(shown("1 < 2 + 3"), "(< 1 (+ 2 3))");
    assert_eq!(shown("1 * 2 + 3"), "(+ (* 1 2) 3)");
    assert_eq!(shown("8 \\ 2 % 3"), "(% (\\ 8 2) 3)");
    assert_eq!(shown("(1 + 2) * 3"), "(* (+ 1 2) 3)");
    assert_eq!(shown("((true))"), "true");
    assert_eq!(shown("(a or b) and c"), "(and (or a b) c)");
    for (text, op) in [("!=", "!="), ("<", "<"), ("<=", "<="), (">", ">"), (">=", ">="), ("==", "==")]
    {
        assert_eq!(shown(&format!("filesize {} 5", text)), format!("({} filesize 5)", op));
    }
}

#[test]
fn operators_on_bits_and_on_strings() {
    assert_eq!(shown("1 | 2 ^ 3 & 4 << 5 + 6 * 7"), "(| 1 (^ 2 (& 3 (<< 4 (+ 5 (* 6 7))))))");
    assert_eq!(shown("1 * 2 + 3 >> 4 & 5 ^ 6 | 7"), "(| (^ (& (>> (+ (* 1 2) 3) 4) 5) 6) 7)");
    assert_eq!(shown("1 << 2 >> 3"), "(>> (<< 1 2) 3)");
    assert_eq!(shown("1 & 2 & 3"), "(& (& 1 2) 3)");
    assert_eq!(shown("1 | 2 == 3"), "(== (| 1 2) 3)");
    assert_eq!(shown("filesize & 0xff == 1 and true"), "(and (== (& filesize 255) 1) true)");
    assert_eq!(shown("-1 >> 1"), "(>> (- 0 1) 1)");
    for op in
        ["contains", "startswith", "endswith", "iequals", "icontains", "istartswith", "iendswith"]
    {
        assert_eq!(shown(&format!("a.b {} \"x\"", op)), format!("({} a.b \"x\")", op));
        assert_eq!(
            shown(&format!("not \"ab\" {} \"a\" or true", op)),
            format!("(or (not ({} \"ab\" \"a\")) true)", op)
        );
    }
    // The bounds of a loop take everything below a comparison.
    assert_eq!(
        shown("for any i in (1 | 2 .. 3 << 1) : (true)"),
        "(for i (| 1 2) (<< 3 1) true)"
    );
}

#[test]
fn operators_of_one_level_group_from_the_left() {
    assert_eq!(shown("10 - 4 - 3"), "(- (- 10 4) 3)");
    assert_eq!(shown("10 - 4 + 3"), "(+ (- 10 4) 3)");
    assert_eq!(shown("8 \\ 4 * 2"), "(* (\\ 8 4) 2)");
    assert_eq!(shown("a or b or c"), "(or (or a b) c)");
    assert_eq!(shown("a and b and c"), "(and (and a b) c)");
    assert_eq!(shown("1 < 2 == true"), "(== (< 1 2) true)");
}

#[test]
fn a_sign_subtracts_from_zero() {
    assert_eq!(shown("-5"), "(- 0 5)");
    assert_eq!(shown("- - 5"), "(- 0 (- 0 5))");
    assert_eq!(shown("3 - -5"), "(- 3 (- 0 5))");
    assert_eq!(shown("-a.b * 2"), "(* (- 0 a.b) 2)");
    let e = condition("-5");
    assert_eq!(e.span, sp(20, 22));
    match e.kind {
        ExprKind::Arith(Arithmetic::Sub, zero, five) => {
            assert_eq!(zero.span, sp(20, 21));
            assert_eq!(five.span, sp(21, 22));
        }
        _ => panic!("unexpected expression"),
    }
}

#[test]
fn spans_of_expressions() {
    //           rule r { condition: 1 + 22 == filesize }
    let e = condition("1 + 22 == filesize");
    assert_eq!(e.span, sp(20, 38));
    match e.kind {
        ExprKind::Compare(Comparison::Eq, sum, size) => {
            assert_eq!(sum.span, sp(20, 26));
            assert_eq!(size.span, sp(30, 38));
        }
        _ => panic!("unexpected expression"),
    }
    // Parentheses are not part of what they hold.
    assert_eq!(condition("( true )").span, sp(22, 26));
    assert_eq!(condition("not true").span, sp(20, 28));
    assert_eq!(condition("a.bc.d").span, sp(20, 26));
    assert_eq!(condition("f(1, 2)").span, sp(20, 27));
    assert_eq!(condition("f()").span, sp(20, 23));
    assert_eq!(condition("any of them").span, sp(20, 31));
    assert_eq!(condition("2 of ($a, $b)").span, sp(20, 33));
    assert_eq!(condition("for any i in (0..3) : (true)").span, sp(20, 48));
}

#[test]
fn identifiers_fields_and_calls() {
    assert_eq!(shown("a"), "a");
    assert_eq!(shown("a.b.c"), "a.b.c");
    assert_eq!(shown("uint32(100)"), "(uint32 100)");
    assert_eq!(shown("f()"), "(f)");
    assert_eq!(shown("f(1, \"x\", g(a.b), 2 + 3)"), "(f 1 \"x\" (g a.b) (+ 2 3))");
    assert_eq!(shown("uint32(100) == 0"), "(== (uint32 100) 0)");
    match condition("pe.sections").kind {
        ExprKind::FieldAccess(idents) => {
            assert_eq!(idents.len(), 2);
            assert_eq!(idents[0].span, sp(20, 22));
            assert_eq!(idents[1].span, sp(23, 31));
        }
        _ => panic!("unexpected expression"),
    }
    match condition("f(1)").kind {
        ExprKind::Call { callee, args } => {
            assert_eq!(callee.span, sp(20, 21));
            assert_eq!(args[0].span, sp(22, 23));
        }
        _ => panic!("unexpected expression"),
    }
}

#[test]
fn patterns_and_quantifiers() {
    assert_eq!(shown("$a"), "$a");
    assert_eq!(shown("$a and $"), "(and $a $)");
    assert_eq!(shown("any of them"), "(of any them)");
    assert_eq!(shown("all of them"), "(of all them)");
    assert_eq!(shown("2 of them"), "(of 2 them)");
    assert_eq!(shown("50% of them"), "(of 50% them)");
    assert_eq!(shown("50 % of them"), "(of 50% them)");
    assert_eq!(shown("any of ($a)"), "(of any $a)");
    assert_eq!(shown("all of ($a, $b, $c)"), "(of all $a $b $c)");
    assert_eq!(shown("1 of ($a, $b) or 0x10 of them"), "(or (of 1 $a $b) (of 16 them))");
    // A percent sign that `of` does not follow is the remainder.
    assert_eq!(shown("5 % 2"), "(% 5 2)");
    assert_eq!(shown("5 % 2 == 1"), "(== (% 5 2) 1)");
}

#[test]
fn patterns_at_offsets() {
    assert_eq!(shown("$a at 0"), "(at $a 0)");
    assert_eq!(shown("$a at filesize - 4"), "(at $a (- filesize 4))");
    assert_eq!(shown("$a at 1 | 2"), "(at $a (| 1 2))");
    assert_eq!(shown("$a at 0 and $b"), "(and (at $a 0) $b)");
    assert_eq!(shown("$a at 0 == true"), "(== (at $a 0) true)");
    assert_eq!(shown("not $a at uint32(0)"), "(not (at $a (uint32 0)))");
    assert_eq!(shown("$a in (0..100)"), "(in $a 0 100)");
    assert_eq!(shown("$a in (filesize - 10 .. filesize)"), "(in $a (- filesize 10) filesize)");
    assert_eq!(shown("$a in (0..1) or $ at 2"), "(or (in $a 0 1) (at $ 2))");
    assert_eq!(condition("$a at 10").span, sp(20, 28));
    assert_eq!(condition("$a in (0..10)").span, sp(20, 33));
    assert_eq!(
        fails("rule r { condition: $a at }"),
        unexpected(GrammarRule::RBRACE, Expected::Expression, 26, 27)
    );
    assert_eq!(
        fails("rule r { condition: $a in 0..1 }"),
        unexpected(GrammarRule::integer_lit, Expected::One(GrammarRule::LPAREN), 26, 27)
    );
    assert_eq!(
        fails("rule r { condition: $a in (0.1) }"),
        unexpected(GrammarRule::integer_lit, Expected::One(GrammarRule::DOT), 29, 30)
    );
    assert_eq!(
        fails("rule r { condition: $a in (0..1 }"),
        unexpected(GrammarRule::RBRACE, Expected::One(GrammarRule::RPAREN), 32, 33)
    );
}

#[test]
fn loops() {
    assert_eq!(
        shown("for any i in (0..3) : (uint8(i) == 1)"),
        "(for i 0 3 (== (uint8 i) 1))"
    );
    assert_eq!(
        shown("for any i in (a.b .. filesize - 1) : (for any j in (0..i) : (j == i))"),
        "(for i a.b (- filesize 1) (for j 0 i (== j i)))"
    );
    assert_eq!(shown("true and for any i in (1..2) : (false)"), "(and true (for i 1 2 false))");
    match condition("for any idx in (0..3) : (true)").kind {
        ExprKind::ForIn { var, .. } => {
            assert_eq!(var.name, "idx");
            assert_eq!(var.span, sp(28, 31));
        }
        _ => panic!("unexpected expression"),
    }
}

#[test]
fn imports_tags_and_sections() {
    let parsed = file(
        "import \"m\"\n\
         private global rule first : t1 t2 {\n\
           meta: author = \"me\" n = -1 big = 0x10 ok = true no = false\n\
           strings: $a = \"x\" ascii wide $b = \"y\\n\" $ = \"z\" nocase fullword private xor base64 base64wide\n\
           condition: $a or m.num == 42\n\
         }\n\
         import \"other\\x41\" rule second { strings: $s = \"\" condition: any of them } global rule third { meta: k = \"v\" condition: false }",
    );
    let namespace = &parsed.namespaces[0];
    let imports: Vec<&str> = namespace.imports.iter().map(|i| i.module_name.as_str()).collect();
    assert_eq!(imports, vec!["m", "otherA"]);
    assert_eq!(namespace.imports[0].span, sp(0, 10));
    let names: Vec<&str> = namespace.rules.iter().map(|r| r.identifier.name.as_str()).collect();
    assert_eq!(names, vec!["first", "second", "third"]);
    let first = &namespace.rules[0];
    let tags: Vec<&str> = first.tags.iter().map(|t| t.name.as_str()).collect();
    assert_eq!(tags, vec!["t1", "t2"]);
    let patterns: Vec<&str> = first.patterns.iter().map(|p| p.name.as_str()).collect();
    assert_eq!(patterns, vec!["$a", "$b", "$"]);
    assert_eq!(show(&first.condition), "(or $a (== m.num 42))");
    assert_eq!(namespace.rules[1].patterns.len(), 1);
    assert_eq!(show(&namespace.rules[1].condition), "(of any them)");
    assert!(namespace.rules[2].patterns.is_empty());
    assert!(namespace.rules[2].tags.is_empty());
}

#[test]
fn what_the_grammar_has_no_use_for() {
    let one = Expected::One;
    for (text, failure) in [
        ("foo", unexpected(GrammarRule::ident, Expected::Item, 0, 3)),
        ("rule r { condition: true } }", unexpected(GrammarRule::RBRACE, Expected::Item, 27, 28)),
        ("import m", unexpected(GrammarRule::ident, one(GrammarRule::string_lit), 7, 8)),
        ("import", unexpected(GrammarRule::EOI, one(GrammarRule::string_lit), 6, 6)),
        ("private import", unexpected(GrammarRule::k_IMPORT, Expected::RuleKeyword, 8, 14)),
        ("rule { condition: true }", unexpected(GrammarRule::LBRACE, one(GrammarRule::ident), 5, 6)),
        ("rule true { }", unexpected(GrammarRule::k_TRUE, one(GrammarRule::ident), 5, 9)),
        ("rule r condition", unexpected(GrammarRule::k_CONDITION, Expected::TagsOrBody, 7, 16)),
        ("rule r : { }", unexpected(GrammarRule::LBRACE, one(GrammarRule::ident), 9, 10)),
        ("rule r : a 1", unexpected(GrammarRule::integer_lit, Expected::TagOrBody, 11, 12)),
        ("rule r { }", unexpected(GrammarRule::RBRACE, Expected::Section, 9, 10)),
        ("rule r { meta condition", unexpected(GrammarRule::k_CONDITION, one(GrammarRule::COLON), 14, 23)),
        ("rule r { meta: condition", unexpected(GrammarRule::k_CONDITION, one(GrammarRule::ident), 15, 24)),
        ("rule r { meta: a 1", unexpected(GrammarRule::integer_lit, one(GrammarRule::EQUAL), 17, 18)),
        ("rule r { meta: a = b", unexpected(GrammarRule::ident, Expected::MetaValue, 19, 20)),
        ("rule r { meta: a = - b", unexpected(GrammarRule::ident, one(GrammarRule::integer_lit), 21, 22)),
        ("rule r { meta: a = 1 }", unexpected(GrammarRule::RBRACE, Expected::MetaOrSection, 21, 22)),
        ("rule r { strings: condition", unexpected(GrammarRule::k_CONDITION, one(GrammarRule::string_ident), 18, 27)),
        ("rule r { strings: $a \"x\"", unexpected(GrammarRule::string_lit, one(GrammarRule::EQUAL), 21, 24)),
        ("rule r { strings: $a = 1", unexpected(GrammarRule::integer_lit, Expected::PatternBody, 23, 24)),
        ("rule r { strings: $a = condition", unexpected(GrammarRule::k_CONDITION, Expected::PatternBody, 23, 32)),
        ("rule r { strings: $a = \"x\" }", unexpected(GrammarRule::RBRACE, Expected::StringOrCondition, 27, 28)),
        (
            "rule r { strings: $a = \"x\" meta: a = 1 condition: true }",
            unexpected(GrammarRule::k_META, Expected::StringOrCondition, 27, 31),
        ),
        ("rule r { condition true }", unexpected(GrammarRule::k_TRUE, one(GrammarRule::COLON), 19, 23)),
        ("rule r { condition: }", unexpected(GrammarRule::RBRACE, Expected::Expression, 20, 21)),
        ("rule r { condition: true", unexpected(GrammarRule::EOI, one(GrammarRule::RBRACE), 24, 24)),
        ("rule r { condition: true false }", unexpected(GrammarRule::k_FALSE, one(GrammarRule::RBRACE), 25, 30)),
        ("rule r { condition: 1 + }", unexpected(GrammarRule::RBRACE, Expected::Expression, 24, 25)),
        ("rule r { condition: (1 }", unexpected(GrammarRule::RBRACE, one(GrammarRule::RPAREN), 23, 24)),
        ("rule r { condition: a.b(1) }", unexpected(GrammarRule::LPAREN, one(GrammarRule::RBRACE), 23, 24)),
        ("rule r { condition: a. }", unexpected(GrammarRule::DOT, one(GrammarRule::RBRACE), 21, 22)),
        ("rule r { condition: f(1 2) }", unexpected(GrammarRule::integer_lit, Expected::CommaOrClose, 24, 25)),
        ("rule r { condition: f(1,) }", unexpected(GrammarRule::RPAREN, Expected::Expression, 24, 25)),
        ("rule r { condition: any them }", unexpected(GrammarRule::k_THEM, one(GrammarRule::k_OF), 24, 28)),
        ("rule r { condition: all of $a }", unexpected(GrammarRule::string_ident, Expected::Patterns, 27, 29)),
        ("rule r { condition: 1 of () }", unexpected(GrammarRule::RPAREN, one(GrammarRule::string_ident), 26, 27)),
        ("rule r { condition: 1 of ($a $b) }", unexpected(GrammarRule::string_ident, Expected::CommaOrClose, 29, 31)),
        ("rule r { condition: for all i in (0..1) : (true) }", unexpected(GrammarRule::k_ALL, one(GrammarRule::k_ANY), 24, 27)),
        ("rule r { condition: for any 1 in (0..1) : (true) }", unexpected(GrammarRule::integer_lit, one(GrammarRule::ident), 28, 29)),
        ("rule r { condition: for any i of (0..1) : (true) }", unexpected(GrammarRule::k_OF, one(GrammarRule::k_IN), 30, 32)),
        ("rule r { condition: for any i in 0..1 : (true) }", unexpected(GrammarRule::integer_lit, one(GrammarRule::LPAREN), 33, 34)),
        ("rule r { condition: for any i in (0.1) : (true) }", unexpected(GrammarRule::integer_lit, one(GrammarRule::DOT), 36, 37)),
        ("rule r { condition: for any i in (0,1) : (true) }", unexpected(GrammarRule::COMMA, one(GrammarRule::DOT), 35, 36)),
        ("rule r { condition: for any i in (0..1 : (true) }", unexpected(GrammarRule::COLON, one(GrammarRule::RPAREN), 39, 40)),
        ("rule r { condition: for any i in (0..1) (true) }", unexpected(GrammarRule::LPAREN, one(GrammarRule::COLON), 40, 41)),
        ("rule r { condition: for any i in (0..1) : true }", unexpected(GrammarRule::k_TRUE, one(GrammarRule::LPAREN), 42, 46)),
        ("rule r { condition: for any i in (0..1) : (true }", unexpected(GrammarRule::RBRACE, one(GrammarRule::RPAREN), 48, 49)),
        ("rule r { condition: 1 matches 2 }", unexpected(GrammarRule::k_MATCHES, one(GrammarRule::RBRACE), 22, 29)),
        ("rule r { condition: 1 & }", unexpected(GrammarRule::RBRACE, Expected::Expression, 24, 25)),
        ("rule r { condition: \"a\" contains }", unexpected(GrammarRule::RBRACE, Expected::Expression, 33, 34)),
        ("rule r { condition: 1.5 }", unexpected(GrammarRule::DOT, one(GrammarRule::RBRACE), 21, 22)),
    ] {
        assert_eq!(fails(text), failure, "{}", text);
    }
}

#[test]
fn flaws_of_literals() {
    assert_eq!(
        fails("rule r { condition: 9223372036854775808 == 1 }"),
        Failure { flaw: Flaw::InvalidInteger, span: sp(20, 39) }
    );
    assert_eq!(
        fails("rule r { condition: 3 of them and 0x8000000000000000 of them }"),
        Failure { flaw: Flaw::InvalidInteger, span: sp(34, 52) }
    );
    assert_eq!(
        fails("rule r { meta: a = 99999999999999999999 condition: true }"),
        Failure { flaw: Flaw::InvalidInteger, span: sp(19, 39) }
    );
    assert_eq!(
        fails("rule r { meta: a = -99999999999999999999 condition: true }"),
        Failure { flaw: Flaw::InvalidInteger, span: sp(20, 40) }
    );
    assert_eq!(
        fails(r#"rule r { condition: "a\q" == "b" }"#),
        Failure { flaw: Flaw::InvalidEscapeSequence, span: sp(22, 23) }
    );
    assert_eq!(
        fails(r#"import "\z""#),
        Failure { flaw: Flaw::InvalidEscapeSequence, span: sp(8, 9) }
    );
    assert_eq!(
        fails(r#"rule r { meta: a = "\x1" condition: true }"#),
        Failure { flaw: Flaw::InvalidEscapeSequence, span: sp(20, 21) }
    );
    assert_eq!(
        fails(r#"rule r { strings: $a = "ok" $b = "\0" condition: true }"#),
        Failure { flaw: Flaw::InvalidEscapeSequence, span: sp(34, 35) }
    );
    // What the scanner finds, it finds before the grammar is asked.
    assert_eq!(
        fails("rule { condition: # }"),
        Failure { flaw: Flaw::UnknownCharacter, span: sp(18, 19) }
    );
}

#[test]
fn a_modifier_of_a_string_stands_once() {
    let text = "rule r { strings: $a = \"x\" ascii wide ascii condition: $a }";
    let failure = fails(text);
    assert_eq!(failure, Failure { flaw: Flaw::DuplicateModifier(sp(27, 32)), span: sp(38, 43) });
    match failure.error(text.as_bytes()) {
        Error::DuplicateModifier { modifier_span, existing_modifier_span, .. } => {
            assert_eq!(modifier_span, sp(38, 43));
            assert_eq!(existing_modifier_span, sp(27, 32));
        }
        _ => panic!("unexpected error"),
    }
    assert_eq!(failure.error(text.as_bytes()).labels().len(), 2);
    // The same modifier on two strings is no repetition.
    file("rule r { strings: $a = \"x\" ascii $b = \"y\" ascii condition: $a and $b }");
    // The modifiers of a rule may repeat.
    file("private private global rule r { condition: true }");
}

#[test]
fn failures_become_errors() {
    let message = |text: &str| match fails(text).error(text.as_bytes()) {
        Error::SyntaxError { error_msg, error_span, .. } => (error_msg, error_span),
        _ => panic!("no syntax error"),
    };
    assert_eq!(
        message("rule { condition: true }"),
        ("unexpected opening brace `{`; expected identifier".to_string(), sp(5, 6))
    );
    assert_eq!(
        message("foo"),
        (
            "unexpected identifier; expected `import`, end of file, or rule declaration".to_string(),
            sp(0, 3)
        )
    );
    assert_eq!(
        message("rule r { condition: }"),
        ("unexpected closing brace `}`; expected boolean expression".to_string(), sp(20, 21))
    );
    assert_eq!(
        message("rule r { }"),
        (
            "unexpected closing brace `}`; expected `condition`, `meta`, or `strings`".to_string(),
            sp(9, 10)
        )
    );
    assert_eq!(
        message("rule r { condition: f(1 2) }"),
        (
            "unexpected number; expected closing parenthesis `)` or comma `,`".to_string(),
            sp(24, 25)
        )
    );
    assert_eq!(message("rule r { condition: \"x }"), ("expected string literal".to_string(), sp(20, 21)));
    assert_eq!(message("rule r /* "), ("unknown parsing error".to_string(), sp(6, 10)));
    assert_eq!(message("rule r ?"), ("unknown parsing error".to_string(), sp(7, 8)));
    match fails("rule r { condition: 99999999999999999999 }").error(b"") {
        Error::InvalidInteger { error_msg, error_span, .. } => {
            assert_eq!(error_msg, "this number is out of the valid range");
            assert_eq!(error_span, sp(20, 40));
        }
        _ => panic!("unexpected error"),
    }
    match fails(r#"rule r { condition: "\q" }"#).error(b"") {
        Error::InvalidEscapeSequence { error_msg, error_span, .. } => {
            assert_eq!(error_msg, "unknown escape sequence");
            assert_eq!(error_span, sp(21, 22));
        }
        _ => panic!("unexpected error"),
    }
    assert_eq!(fails("foo").error(b"foo").title(), "syntax error");
    for expected in [
        Expected::Item,
        Expected::RuleKeyword,
        Expected::TagsOrBody,
        Expected::TagOrBody,
        Expected::Section,
        Expected::MetaOrSection,
        Expected::MetaValue,
        Expected::StringOrCondition,
        Expected::Expression,
        Expected::Patterns,
        Expected::CommaOrClose,
        Expected::PatternBody,
        Expected::One(GrammarRule::DOT),
    ] {
        assert!(!expected.list().is_empty());
    }
    assert_eq!(Expected::One(GrammarRule::DOT).list(), vec![GrammarRule::DOT]);
    assert_eq!(Expected::Patterns.list(), vec![GrammarRule::k_THEM, GrammarRule::LPAREN]);
}

/// The only rule of a source.
fn only_rule(text: &str) -> Rule {
    let mut parsed = file(text);
    let mut namespace = parsed.namespaces.pop().unwrap();
    assert_eq!(namespace.rules.len(), 1);
    namespace.rules.pop().unwrap()
}

fn plain() -> PatternModifiers {
    PatternModifiers {
        ascii: false,
        wide: false,
        nocase: false,
        fullword: false,
        private: false,
        xor: false,
        base64: false,
        base64wide: false,
    }
}

#[test]
fn the_tree_keeps_modifiers_and_metadata() {
    let rule = only_rule(
        "private global private rule r { meta: author = \"me\\n\" n = -12 big = 0x10 yes = true no = false zero = -0 condition: true }",
    );
    assert!(rule.modifiers.private);
    assert!(rule.modifiers.global);
    let names: Vec<&str> = rule.meta.iter().map(|m| m.identifier.name.as_str()).collect();
    assert_eq!(names, vec!["author", "n", "big", "yes", "no", "zero"]);
    assert_eq!(rule.meta[0].identifier.span, sp(38, 44));
    assert!(matches!(&rule.meta[0].value, MetaValue::Str(s) if s == b"me\n"));
    assert!(matches!(rule.meta[1].value, MetaValue::Int(-12)));
    assert!(matches!(rule.meta[2].value, MetaValue::Int(16)));
    assert!(matches!(rule.meta[3].value, MetaValue::Bool(true)));
    assert!(matches!(rule.meta[4].value, MetaValue::Bool(false)));
    assert!(matches!(rule.meta[5].value, MetaValue::Int(0)));
    let rule = only_rule("rule r { condition: true }");
    assert!(!rule.modifiers.private && !rule.modifiers.global);
    assert!(rule.meta.is_empty());
    assert!(rule.definitions.is_empty());
    assert!(only_rule("global rule r { condition: true }").modifiers.global);
    assert!(!only_rule("global rule r { condition: true }").modifiers.private);
    assert!(matches!(
        only_rule("rule r { meta: m = -9223372036854775807 condition: true }").meta[0].value,
        MetaValue::Int(v) if v == i64::MIN + 1
    ));
}

#[test]
fn the_tree_keeps_what_patterns_look_for() {
    let rule = only_rule(
        "rule r { strings: $a = \"x\\x00y\" ascii wide $b = { 4D 5A ?? [2-4] ( AA | B? ) ~00 } private $c = /ab+c\\/d/is nocase $d = /x/ fullword xor base64 base64wide $e = /y/s $f = \"\" condition: any of them }",
    );
    let names: Vec<&str> = rule.patterns.iter().map(|p| p.name.as_str()).collect();
    assert_eq!(names, vec!["$a", "$b", "$c", "$d", "$e", "$f"]);
    assert_eq!(rule.definitions.len(), 6);
    assert!(matches!(&rule.definitions[0].body, PatternBody::Text(s) if s == b"x\0y"));
    assert_eq!(rule.definitions[0].modifiers, PatternModifiers { ascii: true, wide: true, ..plain() });
    assert!(matches!(
        &rule.definitions[1].body,
        PatternBody::Hex(s) if s == b" 4D 5A ?? [2-4] ( AA | B? ) ~00 "
    ));
    assert_eq!(rule.definitions[1].modifiers, PatternModifiers { private: true, ..plain() });
    match &rule.definitions[2].body {
        PatternBody::Regexp { source, case_insensitive, dot_matches_new_line } => {
            assert_eq!(source, b"ab+c\\/d");
            assert!(*case_insensitive);
            assert!(*dot_matches_new_line);
        }
        _ => panic!("no regular expression"),
    }
    assert_eq!(rule.definitions[2].modifiers, PatternModifiers { nocase: true, ..plain() });
    match &rule.definitions[3].body {
        PatternBody::Regexp { source, case_insensitive, dot_matches_new_line } => {
            assert_eq!(source, b"x");
            assert!(!*case_insensitive);
            assert!(!*dot_matches_new_line);
        }
        _ => panic!("no regular expression"),
    }
    assert_eq!(
        rule.definitions[3].modifiers,
        PatternModifiers { fullword: true, xor: true, base64: true, base64wide: true, ..plain() }
    );
    assert!(matches!(
        &rule.definitions[4].body,
        PatternBody::Regexp { case_insensitive: false, dot_matches_new_line: true, .. }
    ));
    assert!(matches!(&rule.definitions[5].body, PatternBody::Text(s) if s.is_empty()));
    assert_eq!(rule.definitions[5].modifiers, plain());
}

#[test]
fn bodies_of_patterns_are_tokens_behind_an_equal_sign() {
    assert_eq!(
        tokenize(b"$a = { 4D } $b = /x\\/y/i {").unwrap(),
        vec![
            token(GrammarRule::string_ident, 0, 2),
            token(GrammarRule::EQUAL, 3, 4),
            token(GrammarRule::hex_pattern, 5, 11),
            token(GrammarRule::string_ident, 12, 14),
            token(GrammarRule::EQUAL, 15, 16),
            token(GrammarRule::regexp, 17, 24),
            token(GrammarRule::LBRACE, 25, 26),
            token(GrammarRule::EOI, 26, 26),
        ]
    );
    // The letters behind a regular expression that are no flags are a word.
    assert_eq!(
        rules_of("$a = /x/isx"),
        vec![
            GrammarRule::string_ident,
            GrammarRule::EQUAL,
            GrammarRule::regexp,
            GrammarRule::ident,
            GrammarRule::EOI
        ]
    );
    // Where no equal sign stands before, a brace is a brace.
    assert_eq!(rules_of("{ 4D }")[0], GrammarRule::LBRACE);
    let unfinished = |rule, start: usize| {
        Err(Failure { flaw: Flaw::Unfinished(rule), span: sp(start, start + 1) })
    };
    assert_eq!(tokenize(b"$a = { 4D 5A"), unfinished(GrammarRule::hex_pattern, 5));
    assert_eq!(tokenize(b"$a = /abc"), unfinished(GrammarRule::regexp, 5));
    assert_eq!(tokenize(b"$a = /ab\nc/"), unfinished(GrammarRule::regexp, 5));
    assert_eq!(tokenize(b"$a = /ab\\/"), unfinished(GrammarRule::regexp, 5));
    // A comment is a comment also behind an equal sign.
    assert_eq!(
        rules_of("$a = // x\n\"y\""),
        vec![GrammarRule::string_ident, GrammarRule::EQUAL, GrammarRule::string_lit, GrammarRule::EOI]
    );
}

#[test]
fn flaws_of_hex_patterns() {
    for body in [
        "4D",
        " 4d 5A ",
        "??",
        "4? ?D",
        "~00 ~?F",
        "4D [4] 5A",
        "4D [2-4] 5A",
        "4D [2-] 5A",
        "4D [-] 5A",
        "4D [ 2 - 4 ] 5A",
        "4D ( AA | BB ) 5A",
        "( AA | ( BB | CC ) )",
        "4D5A\n\t90",
    ] {
        assert_eq!(find_hex_flaw(body.as_bytes()), None, "{}", body);
    }
    for (body, at) in [
        ("", 0),
        ("  ", 2),
        ("4", 0),
        ("4D 5", 3),
        ("4G", 0),
        ("G4", 0),
        ("4D ~", 3),
        ("4D ~4", 3),
        ("4D []", 3),
        ("4D [2--4]", 3),
        ("4D [2-4-6]", 3),
        ("4D [x]", 3),
        ("4D [2", 3),
        ("4D | 5A", 3),
        ("4D ) 5A", 3),
        ("( 4D", 4),
        ("( 4D | 5A ) )", 12),
        ("[2]", 3),
        ("4D \"x\"", 3),
    ] {
        assert_eq!(find_hex_flaw(body.as_bytes()), Some(at), "{}", body);
    }
    assert_eq!(find_jump_end(b"2-4] x", 0), Some(4));
    assert_eq!(find_jump_end(b"]", 0), Some(1));
    assert_eq!(find_jump_end(b"2-4", 0), None);
    assert_eq!(find_jump_end(b"-2-]", 0), None);
    let text = "rule r { strings: $ab = { 4D 5 } condition: $ab }";
    let failure = fails(text);
    assert_eq!(failure, Failure { flaw: Flaw::InvalidHexString(sp(18, 21)), span: sp(29, 30) });
    match failure.error(text.as_bytes()) {
        Error::InvalidHexString { string_ident, error_msg, error_span, note, .. } => {
            assert_eq!(string_ident, "$ab");
            assert_eq!(error_msg, "this is no byte, jump or alternative");
            assert_eq!(error_span, sp(29, 30));
            assert_eq!(note, None);
        }
        _ => panic!("unexpected error"),
    }
    assert_eq!(failure.error(text.as_bytes()).title(), "invalid hex string `$ab`");
    // A flaw that only the end shows stands at the closing brace.
    assert_eq!(
        fails("rule r { strings: $a = { ( 4D } condition: $a }"),
        Failure { flaw: Flaw::InvalidHexString(sp(18, 20)), span: sp(30, 31) }
    );
    assert_eq!(
        fails("rule r { strings: $a = {} condition: $a }"),
        Failure { flaw: Flaw::InvalidHexString(sp(18, 20)), span: sp(24, 25) }
    );
}

#[test]
fn the_pieces_of_a_source_leave_nothing_out() {
    let src = b"rule r // c\n{ /* x\n */ }";
    assert_eq!(
        split(src).unwrap(),
        vec![
            token(GrammarRule::k_RULE, 0, 4),
            token(GrammarRule::WHITESPACE, 4, 5),
            token(GrammarRule::ident, 5, 6),
            token(GrammarRule::WHITESPACE, 6, 7),
            token(GrammarRule::COMMENT, 7, 11),
            token(GrammarRule::WHITESPACE, 11, 12),
            token(GrammarRule::LBRACE, 12, 13),
            token(GrammarRule::WHITESPACE, 13, 14),
            token(GrammarRule::COMMENT, 14, 22),
            token(GrammarRule::WHITESPACE, 22, 23),
            token(GrammarRule::RBRACE, 23, 24),
            token(GrammarRule::EOI, 24, 24),
        ]
    );
    assert_eq!(split(b"").unwrap(), vec![token(GrammarRule::EOI, 0, 0)]);
    assert_eq!(
        split(b" \t\r\n").unwrap(),
        vec![token(GrammarRule::WHITESPACE, 0, 4), token(GrammarRule::EOI, 4, 4)]
    );
    assert_eq!(
        split(b"//").unwrap(),
        vec![token(GrammarRule::COMMENT, 0, 2), token(GrammarRule::EOI, 2, 2)]
    );
    assert_eq!(
        split(b"/**/x").unwrap(),
        vec![
            token(GrammarRule::COMMENT, 0, 4),
            token(GrammarRule::ident, 4, 5),
            token(GrammarRule::EOI, 5, 5)
        ]
    );
    // White space between an equal sign and the body of a pattern.
    assert_eq!(
        split(b"= /* c */ { 4D }").unwrap(),
        vec![
            token(GrammarRule::EQUAL, 0, 1),
            token(GrammarRule::WHITESPACE, 1, 2),
            token(GrammarRule::COMMENT, 2, 9),
            token(GrammarRule::WHITESPACE, 9, 10),
            token(GrammarRule::hex_pattern, 10, 16),
            token(GrammarRule::EOI, 16, 16),
        ]
    );
    assert_eq!(
        split(b"rule /* x"),
        Err(Failure { flaw: Flaw::Unfinished(GrammarRule::COMMENT), span: sp(5, 6) })
    );
    assert_eq!(
        split(b"rule #"),
        Err(Failure { flaw: Flaw::UnknownCharacter, span: sp(5, 6) })
    );
    for text in [
        "rule r { condition: true }",
        "import \"m\"\n// one\nrule r : t /* two */ {\n  strings: $a = /x/i $b = { 4D }\n  condition: $a // three\n}\n",
        "",
        "   ",
        "a/**/b//c",
    ] {
        let all = split(text.as_bytes()).unwrap();
        // Each piece begins where the one before it ends.
        let mut at = 0;
        for piece in &all {
            assert_eq!(piece.span.start, at);
            at = piece.span.end;
        }
        assert_eq!(at, text.len());
        let kept: Vec<Token> = all
            .into_iter()
            .filter(|p| p.rule != GrammarRule::WHITESPACE && p.rule != GrammarRule::COMMENT)
            .collect();
        assert_eq!(kept, tokenize(text.as_bytes()).unwrap());
    }
}
