use yara_x::parser::errors::{Error, LabelStyle};
use yara_x::parser::grammar::GrammarRule;
use yara_x::parser::names::{bytes_less, insert_sorted, str_less};
use yara_x::parser::span::Span;

fn message(expected: &[GrammarRule], unexpected: &[GrammarRule]) -> String {
    Error::syntax_error_message(expected, unexpected, Error::printable_string)
}

#[test]
fn unexpected_and_expected() {
    assert_eq!(
        message(&[GrammarRule::ident, GrammarRule::COMMENT], &[GrammarRule::k_AND]),
        "unexpected operator; expected identifier"
    );
}

#[test]
fn expected_only() {
    assert_eq!(
        message(&[GrammarRule::WHITESPACE, GrammarRule::ident], &[GrammarRule::COMMENT]),
        "expected identifier"
    );
}

#[test]
fn unexpected_only() {
    assert_eq!(message(&[], &[GrammarRule::EOI]), "unexpected end of file");
}

#[test]
fn nothing_but_trivia_is_unknown() {
    assert_eq!(
        message(&[GrammarRule::COMMENT], &[GrammarRule::WHITESPACE]),
        "unknown parsing error"
    );
    assert_eq!(message(&[], &[]), "unknown parsing error");
}

#[test]
fn two_names_are_joined_by_or() {
    assert_eq!(
        message(&[GrammarRule::string_lit, GrammarRule::ident], &[]),
        "expected identifier or string literal"
    );
}

#[test]
fn three_names_are_enumerated_in_order() {
    assert_eq!(
        message(&[GrammarRule::string_lit, GrammarRule::LBRACE, GrammarRule::ident], &[]),
        "expected identifier, opening brace `{`, or string literal"
    );
}

#[test]
fn four_names() {
    assert_eq!(
        message(
            &[GrammarRule::k_RULE, GrammarRule::k_IMPORT, GrammarRule::k_GLOBAL, GrammarRule::EOI],
            &[]
        ),
        "expected `global`, `import`, `rule`, or end of file"
    );
}

#[test]
fn equal_names_appear_once() {
    assert_eq!(message(&[GrammarRule::integer_lit, GrammarRule::float_lit], &[]), "expected number");
    assert_eq!(
        message(
            &[GrammarRule::ADD, GrammarRule::SUB, GrammarRule::ident, GrammarRule::MUL],
            &[GrammarRule::k_OR, GrammarRule::EQ]
        ),
        "unexpected operator; expected identifier or operator"
    );
}

#[test]
fn names_are_ordered_by_their_bytes() {
    // A backtick comes before every small letter.
    assert_eq!(
        message(&[GrammarRule::hex_byte, GrammarRule::k_ALL], &[]),
        "expected `all` or byte"
    );
    // A capital letter comes before a backtick.
    assert_eq!(
        message(&[GrammarRule::k_ALL, GrammarRule::source_file], &[]),
        "expected YARA rules or `all`"
    );
}

#[test]
fn enumerate_with_a_naming_of_ones_own() {
    let a = GrammarRule::ident;
    let b = GrammarRule::DOT;
    let c = GrammarRule::EOI;
    let rules = [&a, &b, &c, &a];
    let mut name = greek;
    assert_eq!(Error::enumerate_grammar_rules(&rules, &mut name), "alpha, mu, or zeta");
}

fn greek(rule: &GrammarRule) -> &str {
    match rule {
        GrammarRule::ident => "zeta",
        GrammarRule::DOT => "alpha",
        _ => "mu",
    }
}

#[test]
fn enumerate_one_rule() {
    let a = GrammarRule::regexp;
    let mut f = Error::printable_string;
    assert_eq!(Error::enumerate_grammar_rules(&[&a], &mut f), "regular expression");
}

#[test]
fn printable_strings() {
    assert_eq!(Error::printable_string(&GrammarRule::k_ALL), "`all`");
    assert_eq!(Error::printable_string(&GrammarRule::k_BASE64WIDE), "`base64wide`");
    assert_eq!(Error::printable_string(&GrammarRule::boolean_term), "boolean expression");
    assert_eq!(Error::printable_string(&GrammarRule::primary_expr), "expression");
    assert_eq!(Error::printable_string(&GrammarRule::hex_pattern), "bytes");
    assert_eq!(Error::printable_string(&GrammarRule::float_lit), "number");
    assert_eq!(Error::printable_string(&GrammarRule::PERCENT), "percent `%`");
    assert_eq!(Error::printable_string(&GrammarRule::MINUS), "`-`");
    assert_eq!(Error::printable_string(&GrammarRule::k_MATCHES), "operator");
    assert_eq!(Error::printable_string(&GrammarRule::SHL), "operator");
    assert_eq!(Error::printable_string(&GrammarRule::PIPE), "pipe `|`");
    assert_eq!(Error::printable_string(&GrammarRule::EQUAL), "equal `=` ");
    assert_eq!(Error::printable_string(&GrammarRule::RBRACKET), "closing bracket `]`");
    assert_eq!(Error::printable_string(&GrammarRule::LPAREN), "opening parenthesis `(`");
    assert_eq!(Error::printable_string(&GrammarRule::string_mods), "string modifiers");
}

#[test]
fn trivia() {
    assert!(GrammarRule::COMMENT.trivia());
    assert!(GrammarRule::WHITESPACE.trivia());
    assert!(!GrammarRule::ident.trivia());
}

#[test]
fn order_of_strings() {
    assert!(str_less("a", "b"));
    assert!(!str_less("b", "a"));
    assert!(!str_less("a", "a"));
    assert!(str_less("", "a"));
    assert!(str_less("ab", "abc"));
    assert!(!str_less("abc", "ab"));
    assert!(str_less("Z", "a"));
    assert!(str_less("z", "é"));
    assert!(bytes_less(&[1, 2], &[1, 3]));
    assert!(!bytes_less(&[], &[]));
    assert_eq!(str_less("operator", "identifier"), "operator" < "identifier");
}

#[test]
fn insert_keeps_order_and_drops_repeats() {
    let mut names: Vec<&str> = Vec::new();
    for name in ["pear", "apple", "fig", "apple", "zebra", "fig", "aardvark"] {
        insert_sorted(&mut names, name);
    }
    assert_eq!(names, vec!["aardvark", "apple", "fig", "pear", "zebra"]);
}

fn span(start: usize, end: usize) -> Span {
    Span::new(start, end)
}

#[test]
fn duplicate_rule_has_both_spans() {
    let e = Error::DuplicateRule {
        detailed_report: String::new(),
        rule_ident: "r".to_string(),
        new_rule_name_span: span(30, 31),
        existing_rule_name_span: span(5, 6),
    };
    assert_eq!(e.title(), "duplicate rule `r`");
    let labels = e.labels();
    assert_eq!(labels.len(), 2);
    assert_eq!(labels[0].text, "duplicate declaration of `r`");
    assert_eq!(labels[0].span, span(30, 31));
    assert_eq!(labels[0].style, LabelStyle::Error);
    assert_eq!(labels[1].text, "`r` declared here for the first time");
    assert_eq!(labels[1].span, span(5, 6));
    assert_eq!(labels[1].style, LabelStyle::Note);
    assert_eq!(e.note(), None);
}

#[test]
fn duplicate_tag_string_and_modifier_have_both_spans() {
    let tag = Error::DuplicateTag {
        detailed_report: String::new(),
        tag: "tag1".to_string(),
        tag_span: span(17, 21),
        existing_tag_span: span(12, 16),
    };
    assert_eq!(tag.title(), "duplicate tag `tag1`");
    let labels = tag.labels();
    assert_eq!(labels.len(), 2);
    assert_eq!(labels[0].text, "duplicate tag");
    assert_eq!((labels[0].span, labels[1].span), (span(17, 21), span(12, 16)));

    let string = Error::DuplicateString {
        detailed_report: String::new(),
        string_ident: "$a".to_string(),
        new_string_span: span(40, 42),
        existing_string_span: span(20, 22),
    };
    assert_eq!(string.title(), "duplicate string `$a`");
    let labels = string.labels();
    assert_eq!(labels.len(), 2);
    assert_eq!(labels[0].text, "duplicate declaration of `$a`");
    assert_eq!(labels[1].text, "`$a` declared here for the first time");
    assert_eq!((labels[0].span, labels[1].span), (span(40, 42), span(20, 22)));

    let modifier = Error::DuplicateModifier {
        detailed_report: String::new(),
        modifier_span: span(9, 14),
        existing_modifier_span: span(3, 8),
    };
    assert_eq!(modifier.title(), "duplicate string modifier");
    let labels = modifier.labels();
    assert_eq!(labels.len(), 2);
    assert_eq!(labels[0].text, "duplicate modifier");
    assert_eq!((labels[0].span, labels[1].span), (span(9, 14), span(3, 8)));
    assert_eq!(labels[1].style, LabelStyle::Note);
}

#[test]
fn titles_labels_and_notes() {
    let e = Error::SyntaxError {
        detailed_report: "report".to_string(),
        error_msg: "expected identifier".to_string(),
        error_span: span(1, 2),
    };
    assert_eq!(e.title(), "syntax error");
    assert_eq!(e.detailed_report(), "report");
    let labels = e.labels();
    assert_eq!(labels.len(), 1);
    assert_eq!(labels[0].text, "expected identifier");
    assert_eq!(labels[0].span, span(1, 2));

    let e = Error::InvalidModifierCombination {
        detailed_report: String::new(),
        modifier1: "xor".to_string(),
        modifier2: "nocase".to_string(),
        modifier1_span: span(1, 4),
        modifier2_span: span(5, 11),
        note: Some("these two modifiers can't be used together".to_string()),
    };
    assert_eq!(e.title(), "invalid string modifier combination: `xor` `nocase`");
    let labels = e.labels();
    assert_eq!(labels.len(), 2);
    assert_eq!(labels[0].text, "`xor` modifier used here");
    assert_eq!(labels[1].text, "`nocase` modifier used here");
    assert_eq!(labels[1].style, LabelStyle::Error);
    assert_eq!(e.note(), Some("these two modifiers can't be used together".to_string()));

    let e = Error::UnusedString {
        detailed_report: String::new(),
        string_ident: "$a".to_string(),
        string_ident_span: span(3, 5),
    };
    assert_eq!(e.title(), "unused string `$a`");
    assert_eq!(e.labels()[0].text, "this was not used in the condition");

    let e = Error::InvalidHexString {
        detailed_report: String::new(),
        string_ident: "$h".to_string(),
        error_msg: "odd number of digits".to_string(),
        error_span: span(7, 9),
        note: None,
    };
    assert_eq!(e.title(), "invalid hex string `$h`");
    assert_eq!(e.labels()[0].text, "odd number of digits");
    assert_eq!(e.note(), None);

    for (e, title) in [
        (
            Error::InvalidModifier {
                detailed_report: String::new(),
                error_msg: "m".to_string(),
                error_span: span(0, 1),
            },
            "invalid string modifier",
        ),
        (
            Error::InvalidRange {
                detailed_report: String::new(),
                error_msg: "m".to_string(),
                error_span: span(0, 1),
            },
            "invalid range",
        ),
        (
            Error::InvalidInteger {
                detailed_report: String::new(),
                error_msg: "m".to_string(),
                error_span: span(0, 1),
            },
            "invalid integer",
        ),
        (
            Error::InvalidFloat {
                detailed_report: String::new(),
                error_msg: "m".to_string(),
                error_span: span(0, 1),
            },
            "invalid float",
        ),
        (
            Error::InvalidEscapeSequence {
                detailed_report: String::new(),
                error_msg: "m".to_string(),
                error_span: span(0, 1),
            },
            "invalid escape sequence",
        ),
    ] {
        assert_eq!(e.title(), title);
        assert_eq!(e.labels().len(), 1);
        assert_eq!(e.labels()[0].text, "m");
    }
}

#[test]
fn span_within() {
    assert!(span(0, 5).is_within(5));
    assert!(!span(0, 6).is_within(5));
    assert!(!span(4, 3).is_within(5));
    assert!(span(5, 5).is_within(5));
}
