//! The errors that parsing YARA source reports, and the text of the message
//! of a syntax error.

use crate::parser::grammar::GrammarRule;
use crate::parser::names::{insert_sorted, is_sorted_distinct_of, lemma_sorted_distinct_is, sorted_distinct, views};
use crate::parser::span::Span;
use vstd::prelude::*;

verus! {

/// How a label is drawn in a report.
#[derive(Clone, Copy, Debug, PartialEq, Eq, Structural)]
pub enum LabelStyle {
    Error,
    Note,
}

/// A piece of text attached to a span of the source.
#[derive(Clone, Debug)]
pub struct Label {
    pub text: String,
    pub span: Span,
    pub style: LabelStyle,
}

/// An error found while parsing YARA rules.
///
/// Each variant holds the rendered report and, beside it, the pieces the
/// report was made of, for callers that cannot work with text. An error about
/// something declared twice holds both places: the new one and the first.
#[derive(Clone, Debug)]
pub enum Error {
    SyntaxError { detailed_report: String, error_msg: String, error_span: Span },
    DuplicateTag { detailed_report: String, tag: String, tag_span: Span, existing_tag_span: Span },
    DuplicateRule {
        detailed_report: String,
        rule_ident: String,
        new_rule_name_span: Span,
        existing_rule_name_span: Span,
    },
    DuplicateString {
        detailed_report: String,
        string_ident: String,
        new_string_span: Span,
        existing_string_span: Span,
    },
    InvalidModifier { detailed_report: String, error_msg: String, error_span: Span },
    DuplicateModifier {
        detailed_report: String,
        modifier_span: Span,
        existing_modifier_span: Span,
    },
    InvalidModifierCombination {
        detailed_report: String,
        modifier1: String,
        modifier2: String,
        modifier1_span: Span,
        modifier2_span: Span,
        note: Option<String>,
    },
    UnusedString { detailed_report: String, string_ident: String, string_ident_span: Span },
    InvalidHexString {
        detailed_report: String,
        string_ident: String,
        error_msg: String,
        error_span: Span,
        note: Option<String>,
    },
    InvalidRange { detailed_report: String, error_msg: String, error_span: Span },
    InvalidInteger { detailed_report: String, error_msg: String, error_span: Span },
    InvalidFloat { detailed_report: String, error_msg: String, error_span: Span },
    InvalidEscapeSequence { detailed_report: String, error_msg: String, error_span: Span },
}

/// The name under which a grammar rule appears in a message, if it has one.
pub open spec fn printable(rule: GrammarRule) -> Option<Seq<char>> {
    match rule {
        GrammarRule::k_ALL => Some("`all`"@),
        GrammarRule::k_ANY => Some("`any`"@),
        GrammarRule::k_ASCII => Some("`ascii`"@),
        GrammarRule::k_AT => Some("`at`"@),
        GrammarRule::k_BASE64 => Some("`base64`"@),
        GrammarRule::k_BASE64WIDE => Some("`base64wide`"@),
        GrammarRule::k_CONDITION => Some("`condition`"@),
        GrammarRule::k_FALSE => Some("`false`"@),
        GrammarRule::k_FILESIZE => Some("`filesize`"@),
        GrammarRule::k_FOR => Some("`for`"@),
        GrammarRule::k_FULLWORD => Some("`fullword`"@),
        GrammarRule::k_GLOBAL => Some("`global`"@),
        GrammarRule::k_IMPORT => Some("`import`"@),
        GrammarRule::k_IN => Some("`in`"@),
        GrammarRule::k_META => Some("`meta`"@),
        GrammarRule::k_NOCASE => Some("`nocase`"@),
        GrammarRule::k_NOT => Some("`not`"@),
        GrammarRule::k_OF => Some("`of`"@),
        GrammarRule::k_PRIVATE => Some("`private`"@),
        GrammarRule::k_RULE => Some("`rule`"@),
        GrammarRule::k_STRINGS => Some("`strings`"@),
        GrammarRule::k_THEM => Some("`them`"@),
        GrammarRule::k_TRUE => Some("`true`"@),
        GrammarRule::k_WIDE => Some("`wide`"@),
        GrammarRule::k_XOR => Some("`xor`"@),
        GrammarRule::boolean_expr | GrammarRule::boolean_term => Some("boolean expression"@),
        GrammarRule::expr | GrammarRule::primary_expr | GrammarRule::term => Some("expression"@),
        GrammarRule::hex_byte => Some("byte"@),
        GrammarRule::hex_pattern => Some("bytes"@),
        GrammarRule::ident => Some("identifier"@),
        GrammarRule::integer_lit => Some("number"@),
        GrammarRule::float_lit => Some("number"@),
        GrammarRule::rule_decl => Some("rule declaration"@),
        GrammarRule::source_file => Some("YARA rules"@),
        GrammarRule::string_ident => Some("string identifier"@),
        GrammarRule::string_lit => Some("string literal"@),
        GrammarRule::regexp => Some("regular expression"@),
        GrammarRule::string_mods => Some("string modifiers"@),
        GrammarRule::PERCENT => Some("percent `%`"@),
        GrammarRule::MINUS => Some("`-`"@),
        GrammarRule::COLON => Some("colon `:`"@),
        GrammarRule::ADD
        | GrammarRule::k_AND
        | GrammarRule::k_OR
        | GrammarRule::SUB
        | GrammarRule::DIV
        | GrammarRule::MUL
        | GrammarRule::MOD
        | GrammarRule::SHL
        | GrammarRule::SHR
        | GrammarRule::BITWISE_AND
        | GrammarRule::BITWISE_OR
        | GrammarRule::BITWISE_XOR
        | GrammarRule::EQ
        | GrammarRule::NEQ
        | GrammarRule::GE
        | GrammarRule::GT
        | GrammarRule::LE
        | GrammarRule::LT
        | GrammarRule::k_STARTSWITH
        | GrammarRule::k_ISTARTSWITH
        | GrammarRule::k_ENDSWITH
        | GrammarRule::k_IENDSWITH
        | GrammarRule::k_IEQUALS
        | GrammarRule::k_CONTAINS
        | GrammarRule::k_ICONTAINS
        | GrammarRule::k_MATCHES => Some("operator"@),
        GrammarRule::PIPE => Some("pipe `|`"@),
        GrammarRule::COMMA => Some("comma `,`"@),
        GrammarRule::DOT => Some("dot `.`"@),
        GrammarRule::EQUAL => Some("equal `=` "@),
        GrammarRule::LPAREN => Some("opening parenthesis `(`"@),
        GrammarRule::RPAREN => Some("closing parenthesis `)`"@),
        GrammarRule::LBRACE => Some("opening brace `{`"@),
        GrammarRule::RBRACE => Some("closing brace `}`"@),
        GrammarRule::LBRACKET => Some("opening bracket `[`"@),
        GrammarRule::RBRACKET => Some("closing bracket `]`"@),
        GrammarRule::EOI => Some("end of file"@),
        GrammarRule::COMMENT
        | GrammarRule::WHITESPACE
        | GrammarRule::import_stmt
        | GrammarRule::rule_mods
        | GrammarRule::rule_tags
        | GrammarRule::meta_defs
        | GrammarRule::string_defs
        | GrammarRule::hex_tokens => None,
    }
}

/// `names` joined by `sep`.
pub open spec fn joined(names: Seq<Seq<char>>, sep: Seq<char>) -> Seq<char>
    decreases names.len(),
{
    if names.len() == 0 {
        Seq::empty()
    } else if names.len() == 1 {
        names[0]
    } else {
        joined(names.drop_last(), sep) + sep + names.last()
    }
}

/// The names as an English enumeration: `a`, `a or b`, `a, b, or c`.
pub open spec fn enumeration(names: Seq<Seq<char>>) -> Seq<char> {
    if names.len() == 1 {
        names[0]
    } else if names.len() == 2 {
        names[0] + " or "@ + names[1]
    } else {
        joined(names.drop_last(), ", "@) + ", or "@ + names.last()
    }
}

/// The rules that are neither comments nor white space, in their order.
pub open spec fn without_trivia(rules: Seq<GrammarRule>) -> Seq<GrammarRule>
    decreases rules.len(),
{
    if rules.len() == 0 {
        rules
    } else if rules.last().is_trivia() {
        without_trivia(rules.drop_last())
    } else {
        without_trivia(rules.drop_last()).push(rules.last())
    }
}

/// `names` are results of `f` on `rules`, one for one.
pub open spec fn named_by<F: FnMut(&GrammarRule) -> &str>(
    f: F,
    rules: Seq<GrammarRule>,
    names: Seq<&str>,
) -> bool {
    &&& names.len() == rules.len()
    &&& forall|i: int| 0 <= i < rules.len() ==> call_ensures(f, (&#[trigger] rules[i],), names[i])
}

/// The message of a syntax error, given the names of the rules that were
/// found and of those that could have followed.
pub open spec fn syntax_error_text(unexpected: Seq<Seq<char>>, expected: Seq<Seq<char>>) -> Seq<
    char,
> {
    if unexpected.len() > 0 && expected.len() > 0 {
        "unexpected "@ + enumeration(sorted_distinct(unexpected)) + "; expected "@ + enumeration(
            sorted_distinct(expected),
        )
    } else if unexpected.len() > 0 {
        "unexpected "@ + enumeration(sorted_distinct(unexpected))
    } else if expected.len() > 0 {
        "expected "@ + enumeration(sorted_distinct(expected))
    } else {
        "unknown parsing error"@
    }
}

/// The sequence of the rules behind a sequence of references.
pub open spec fn pointees(rules: Seq<&GrammarRule>) -> Seq<GrammarRule> {
    Seq::new(rules.len(), |i: int| *rules[i])
}

impl Label {
    /// The label as plain values: its text, its span and its style.
    pub open spec fn model(self) -> (Seq<char>, Span, LabelStyle) {
        (self.text@, self.span, self.style)
    }
}

impl Error {
    /// The first line of the report: what went wrong, in one sentence.
    pub open spec fn title_text(self) -> Seq<char> {
        match self {
            Error::SyntaxError { .. } => "syntax error"@,
            Error::DuplicateTag { tag, .. } => "duplicate tag `"@ + tag@ + "`"@,
            Error::DuplicateRule { rule_ident, .. } => "duplicate rule `"@ + rule_ident@ + "`"@,
            Error::DuplicateString { string_ident, .. } => "duplicate string `"@ + string_ident@
                + "`"@,
            Error::InvalidModifier { .. } => "invalid string modifier"@,
            Error::DuplicateModifier { .. } => "duplicate string modifier"@,
            Error::InvalidModifierCombination {
                modifier1,
                modifier2,
                ..
            } => "invalid string modifier combination: `"@ + modifier1@ + "` `"@ + modifier2@
                + "`"@,
            Error::UnusedString { string_ident, .. } => "unused string `"@ + string_ident@ + "`"@,
            Error::InvalidHexString { string_ident, .. } => "invalid hex string `"@
                + string_ident@ + "`"@,
            Error::InvalidRange { .. } => "invalid range"@,
            Error::InvalidInteger { .. } => "invalid integer"@,
            Error::InvalidFloat { .. } => "invalid float"@,
            Error::InvalidEscapeSequence { .. } => "invalid escape sequence"@,
        }
    }

    /// The labels of the report, in the order in which they are drawn.
    pub open spec fn label_models(self) -> Seq<(Seq<char>, Span, LabelStyle)> {
        match self {
            Error::SyntaxError { error_msg, error_span, .. }
            | Error::InvalidModifier { error_msg, error_span, .. }
            | Error::InvalidHexString { error_msg, error_span, .. }
            | Error::InvalidRange { error_msg, error_span, .. }
            | Error::InvalidInteger { error_msg, error_span, .. }
            | Error::InvalidFloat { error_msg, error_span, .. }
            | Error::InvalidEscapeSequence { error_msg, error_span, .. } => seq![
                (error_msg@, error_span, LabelStyle::Error),
            ],
            Error::DuplicateTag { tag, tag_span, existing_tag_span, .. } => seq![
                ("duplicate tag"@, tag_span, LabelStyle::Error),
                ("`"@ + tag@ + "` used here for the first time"@, existing_tag_span, LabelStyle::Note),
            ],
            Error::DuplicateRule {
                rule_ident,
                new_rule_name_span,
                existing_rule_name_span,
                ..
            } => seq![
                (
                    "duplicate declaration of `"@ + rule_ident@ + "`"@,
                    new_rule_name_span,
                    LabelStyle::Error,
                ),
                (
                    "`"@ + rule_ident@ + "` declared here for the first time"@,
                    existing_rule_name_span,
                    LabelStyle::Note,
                ),
            ],
            Error::DuplicateString {
                string_ident,
                new_string_span,
                existing_string_span,
                ..
            } => seq![
                (
                    "duplicate declaration of `"@ + string_ident@ + "`"@,
                    new_string_span,
                    LabelStyle::Error,
                ),
                (
                    "`"@ + string_ident@ + "` declared here for the first time"@,
                    existing_string_span,
                    LabelStyle::Note,
                ),
            ],
            Error::DuplicateModifier { modifier_span, existing_modifier_span, .. } => seq![
                ("duplicate modifier"@, modifier_span, LabelStyle::Error),
                ("modifier used here for the first time"@, existing_modifier_span, LabelStyle::Note),
            ],
            Error::InvalidModifierCombination {
                modifier1,
                modifier2,
                modifier1_span,
                modifier2_span,
                ..
            } => seq![
                ("`"@ + modifier1@ + "` modifier used here"@, modifier1_span, LabelStyle::Error),
                ("`"@ + modifier2@ + "` modifier used here"@, modifier2_span, LabelStyle::Error),
            ],
            Error::UnusedString { string_ident_span, .. } => seq![
                ("this was not used in the condition"@, string_ident_span, LabelStyle::Error),
            ],
        }
    }

    /// The place that the report points at first.
    pub open spec fn span(self) -> Span {
        self.label_models()[0].1
    }

    /// The error reports something that was declared a second time.
    pub open spec fn is_duplicate(self) -> bool {
        self is DuplicateTag || self is DuplicateRule || self is DuplicateString
            || self is DuplicateModifier
    }

    /// Where the thing was declared the second time.
    pub open spec fn new_span(self) -> Span
        recommends
            self.is_duplicate(),
    {
        match self {
            Error::DuplicateTag { tag_span, .. } => tag_span,
            Error::DuplicateRule { new_rule_name_span, .. } => new_rule_name_span,
            Error::DuplicateString { new_string_span, .. } => new_string_span,
            Error::DuplicateModifier { modifier_span, .. } => modifier_span,
            _ => arbitrary(),
        }
    }

    /// Where the thing was declared first.
    pub open spec fn existing_span(self) -> Span
        recommends
            self.is_duplicate(),
    {
        match self {
            Error::DuplicateTag { existing_tag_span, .. } => existing_tag_span,
            Error::DuplicateRule { existing_rule_name_span, .. } => existing_rule_name_span,
            Error::DuplicateString { existing_string_span, .. } => existing_string_span,
            Error::DuplicateModifier { existing_modifier_span, .. } => existing_modifier_span,
            _ => arbitrary(),
        }
    }

    /// The report of a duplicate has exactly two labels: the first marks the
    /// new declaration as the error, the second marks the first one as a
    /// note.
    pub proof fn lemma_duplicate_labels(self)
        requires
            self.is_duplicate(),
        ensures
            self.label_models().len() == 2,
            self.label_models()[0].1 == self.new_span(),
            self.label_models()[0].2 == LabelStyle::Error,
            self.label_models()[1].1 == self.existing_span(),
            self.label_models()[1].2 == LabelStyle::Note,
    {
    }
}

impl Error {
    /// Builds the message of a syntax error from the rules that the parser
    /// expected and those it found instead. Comments and white space are left
    /// out; `f` gives each rule its name.
    pub fn syntax_error_message<F>(
        expected: &[GrammarRule],
        unexpected: &[GrammarRule],
        mut f: F,
    ) -> (msg: String) where F: FnMut(&GrammarRule) -> &str
        requires
            forall|r: GrammarRule|
                without_trivia(expected@).contains(r) ==> call_requires(f, (&r,)),
            forall|r: GrammarRule|
                without_trivia(unexpected@).contains(r) ==> call_requires(f, (&r,)),
        ensures
            exists|u: Seq<&str>, e: Seq<&str>|
                {
                    &&& named_by(f, without_trivia(unexpected@), u)
                    &&& named_by(f, without_trivia(expected@), e)
                    &&& msg@ == syntax_error_text(views(u), views(e))
                },
    {
        let ghost f0 = f;
        let wanted_rules = Self::drop_trivia(expected);
        let found_rules = Self::drop_trivia(unexpected);
        proof {
            assert forall|i: int| 0 <= i < wanted_rules.len() implies call_requires(
                f,
                (#[trigger] wanted_rules[i],),
            ) by {
                assert(pointees(wanted_rules@)[i] == *wanted_rules[i]);
                assert(pointees(wanted_rules@).contains(*wanted_rules[i]));
            }
            assert forall|i: int| 0 <= i < found_rules.len() implies call_requires(
                f,
                (#[trigger] found_rules[i],),
            ) by {
                assert(pointees(found_rules@)[i] == *found_rules[i]);
                assert(pointees(found_rules@).contains(*found_rules[i]));
            }
        }
        let ghost none: Seq<&str> = Seq::empty();
        if found_rules.len() > 0 && wanted_rules.len() > 0 {
            let found = Self::enumerate_grammar_rules(found_rules.as_slice(), &mut f);
            let ghost u = choose|names: Seq<&str>|
                named_by(f0, pointees(found_rules@), names) && found@ == enumeration(
                    sorted_distinct(views(names)),
                );
            let wanted = Self::enumerate_grammar_rules(wanted_rules.as_slice(), &mut f);
            let ghost e = choose|names: Seq<&str>|
                named_by(f0, pointees(wanted_rules@), names) && wanted@ == enumeration(
                    sorted_distinct(views(names)),
                );
            let mut msg = String::from_str("unexpected ");
            msg.append(found.as_str());
            msg.append("; expected ");
            msg.append(wanted.as_str());
            proof {
                assert(msg@ == syntax_error_text(views(u), views(e)));
            }
            msg
        } else if found_rules.len() > 0 {
            let found = Self::enumerate_grammar_rules(found_rules.as_slice(), &mut f);
            let ghost u = choose|names: Seq<&str>|
                named_by(f0, pointees(found_rules@), names) && found@ == enumeration(
                    sorted_distinct(views(names)),
                );
            let mut msg = String::from_str("unexpected ");
            msg.append(found.as_str());
            proof {
                assert(named_by(f0, without_trivia(expected@), none));
                assert(msg@ == syntax_error_text(views(u), views(none)));
            }
            msg
        } else if wanted_rules.len() > 0 {
            let wanted = Self::enumerate_grammar_rules(wanted_rules.as_slice(), &mut f);
            let ghost e = choose|names: Seq<&str>|
                named_by(f0, pointees(wanted_rules@), names) && wanted@ == enumeration(
                    sorted_distinct(views(names)),
                );
            let mut msg = String::from_str("expected ");
            msg.append(wanted.as_str());
            proof {
                assert(named_by(f0, without_trivia(unexpected@), none));
                assert(msg@ == syntax_error_text(views(none), views(e)));
            }
            msg
        } else {
            let msg = String::from_str("unknown parsing error");
            proof {
                assert(named_by(f0, without_trivia(unexpected@), none));
                assert(named_by(f0, without_trivia(expected@), none));
                assert(msg@ == syntax_error_text(views(none), views(none)));
            }
            msg
        }
    }

    /// Names each rule with `f`, sorts the names, drops repeated ones, and
    /// writes them as an English enumeration.
    pub fn enumerate_grammar_rules<F>(rules: &[&GrammarRule], f: &mut F) -> (text: String) where
        F: FnMut(&GrammarRule) -> &str,

        requires
            rules.len() > 0,
            forall|i: int| 0 <= i < rules.len() ==> call_requires(*old(f), (#[trigger] rules[i],)),
        ensures
            exists|names: Seq<&str>|
                {
                    &&& named_by(*old(f), pointees(rules@), names)
                    &&& text@ == enumeration(sorted_distinct(views(names)))
                },
            *final(f) == *old(f),
    {
        let mut strings: Vec<&str> = Vec::new();
        let ghost mut names: Seq<&str> = Seq::empty();
        let mut i: usize = 0;
        while i < rules.len()
            invariant
                i <= rules.len(),
                names.len() == i,
                *f == *old(f),
                forall|j: int| 0 <= j < rules.len() ==> call_requires(*f, (#[trigger] rules[j],)),
                forall|j: int| 0 <= j < i ==> call_ensures(*f, (#[trigger] rules[j],), names[j]),
                is_sorted_distinct_of(views(strings@), views(names)),
            decreases rules.len() - i,
        {
            let name = f(rules[i]);
            let ghost before = views(names);
            proof {
                names = names.push(name);
                assert forall|x: Seq<char>| views(names).contains(x) <==> (before.contains(x) || x
                    == name@) by {
                    if views(names).contains(x) {
                        let q = choose|q: int| 0 <= q < names.len() && views(names)[q] == x;
                        if q < i {
                            assert(before[q] == x);
                        }
                    }
                    if before.contains(x) {
                        let q = choose|q: int| 0 <= q < before.len() && before[q] == x;
                        assert(views(names)[q] == x);
                    }
                    if x == name@ {
                        assert(views(names)[i as int] == x);
                    }
                }
            }
            insert_sorted(&mut strings, name);
            i += 1;
        }
        proof {
            lemma_sorted_distinct_is(views(strings@), views(names));
            assert(views(names).contains(views(names)[0]));
            assert(strings.len() > 0);
            assert forall|j: int| 0 <= j < rules.len() implies call_ensures(
                *old(f),
                (&#[trigger] pointees(rules@)[j],),
                names[j],
            ) by {
                assert(call_ensures(*f, (rules[j],), names[j]));
            }
            assert(named_by(*old(f), pointees(rules@), names));
        }
        Self::enumerate(&strings)
    }

    /// Writes the names as an English enumeration.
    fn enumerate(strings: &Vec<&str>) -> (text: String)
        requires
            strings.len() > 0,
        ensures
            text@ == enumeration(views(strings@)),
    {
        let l = strings.len();
        if l == 1 {
            String::from_str(strings[0])
        } else if l == 2 {
            let mut text = String::from_str(strings[0]);
            text.append(" or ");
            text.append(strings[1]);
            text
        } else {
            let mut text = String::new();
            let mut i: usize = 0;
            while i < l - 1
                invariant
                    l == strings.len(),
                    l > 2,
                    i <= l - 1,
                    text@ == joined(views(strings@).take(i as int), ", "@),
                decreases l - i,
            {
                if i > 0 {
                    text.append(", ");
                }
                text.append(strings[i]);
                proof {
                    let s = views(strings@);
                    assert(s.take(i + 1).drop_last() =~= s.take(i as int));
                    assert(s.take(i + 1).last() == s[i as int]);
                    assert(text@ =~= joined(s.take(i + 1), ", "@));
                }
                i += 1;
            }
            proof {
                let s = views(strings@);
                assert(s.take(l - 1) =~= s.drop_last());
            }
            text.append(", or ");
            text.append(strings[l - 1]);
            text
        }
    }

    /// The references to the rules of `rules` that are neither comments nor
    /// white space.
    fn drop_trivia<'a>(rules: &'a [GrammarRule]) -> (kept: Vec<&'a GrammarRule>)
        ensures
            pointees(kept@) == without_trivia(rules@),
    {
        let mut kept: Vec<&'a GrammarRule> = Vec::new();
        let mut i: usize = 0;
        while i < rules.len()
            invariant
                i <= rules.len(),
                pointees(kept@) == without_trivia(rules@.take(i as int)),
            decreases rules.len() - i,
        {
            let ghost before = pointees(kept@);
            if !rules[i].trivia() {
                kept.push(&rules[i]);
            }
            proof {
                let t = rules@.take(i + 1);
                assert(t.drop_last() =~= rules@.take(i as int));
                assert(t.last() == rules[i as int]);
                assert(pointees(kept@) =~= if !rules[i as int].is_trivia() {
                    before.push(rules[i as int])
                } else {
                    before
                });
            }
            i += 1;
        }
        proof {
            assert(rules@.take(rules.len() as int) =~= rules@);
        }
        kept
    }

    /// Given a grammar rule returns the string that names it in error
    /// messages.
    pub fn printable_string(rule: &GrammarRule) -> (name: &str)
        requires
            printable(*rule) is Some,
        ensures
            name@ == printable(*rule)->0,
    {
        match rule {
            GrammarRule::k_ALL => "`all`",
            GrammarRule::k_ANY => "`any`",
            GrammarRule::k_ASCII => "`ascii`",
            GrammarRule::k_AT => "`at`",
            GrammarRule::k_BASE64 => "`base64`",
            GrammarRule::k_BASE64WIDE => "`base64wide`",
            GrammarRule::k_CONDITION => "`condition`",
            GrammarRule::k_FALSE => "`false`",
            GrammarRule::k_FILESIZE => "`filesize`",
            GrammarRule::k_FOR => "`for`",
            GrammarRule::k_FULLWORD => "`fullword`",
            GrammarRule::k_GLOBAL => "`global`",
            GrammarRule::k_IMPORT => "`import`",
            GrammarRule::k_IN => "`in`",
            GrammarRule::k_META => "`meta`",
            GrammarRule::k_NOCASE => "`nocase`",
            GrammarRule::k_NOT => "`not`",
            GrammarRule::k_OF => "`of`",
            GrammarRule::k_PRIVATE => "`private`",
            GrammarRule::k_RULE => "`rule`",
            GrammarRule::k_STRINGS => "`strings`",
            GrammarRule::k_THEM => "`them`",
            GrammarRule::k_TRUE => "`true`",
            GrammarRule::k_WIDE => "`wide`",
            GrammarRule::k_XOR => "`xor`",
            GrammarRule::boolean_expr | GrammarRule::boolean_term => "boolean expression",
            GrammarRule::expr | GrammarRule::primary_expr | GrammarRule::term => "expression",
            GrammarRule::hex_byte => "byte",
            GrammarRule::hex_pattern => "bytes",
            GrammarRule::ident => "identifier",
            GrammarRule::integer_lit => "number",
            GrammarRule::float_lit => "number",
            GrammarRule::rule_decl => "rule declaration",
            GrammarRule::source_file => "YARA rules",
            GrammarRule::string_ident => "string identifier",
            GrammarRule::string_lit => "string literal",
            GrammarRule::regexp => "regular expression",
            GrammarRule::string_mods => "string modifiers",
            GrammarRule::PERCENT => "percent `%`",
            GrammarRule::MINUS => "`-`",
            GrammarRule::COLON => "colon `:`",
            GrammarRule::ADD
            | GrammarRule::k_AND
            | GrammarRule::k_OR
            | GrammarRule::SUB
            | GrammarRule::DIV
            | GrammarRule::MUL
            | GrammarRule::MOD
            | GrammarRule::SHL
            | GrammarRule::SHR
            | GrammarRule::BITWISE_AND
            | GrammarRule::BITWISE_OR
            | GrammarRule::BITWISE_XOR
            | GrammarRule::EQ
            | GrammarRule::NEQ
            | GrammarRule::GE
            | GrammarRule::GT
            | GrammarRule::LE
            | GrammarRule::LT
            | GrammarRule::k_STARTSWITH
            | GrammarRule::k_ISTARTSWITH
            | GrammarRule::k_ENDSWITH
            | GrammarRule::k_IENDSWITH
            | GrammarRule::k_IEQUALS
            | GrammarRule::k_CONTAINS
            | GrammarRule::k_ICONTAINS
            | GrammarRule::k_MATCHES => "operator",
            GrammarRule::PIPE => "pipe `|`",
            GrammarRule::COMMA => "comma `,`",
            GrammarRule::DOT => "dot `.`",
            GrammarRule::EQUAL => "equal `=` ",
            GrammarRule::LPAREN => "opening parenthesis `(`",
            GrammarRule::RPAREN => "closing parenthesis `)`",
            GrammarRule::LBRACE => "opening brace `{`",
            GrammarRule::RBRACE => "closing brace `}`",
            GrammarRule::LBRACKET => "opening bracket `[`",
            GrammarRule::RBRACKET => "closing bracket `]`",
            GrammarRule::EOI => "end of file",
            _ => vstd::pervasive::unreached(),
        }
    }
}

/// `"`" + name + tail`.
fn quoted(name: &String, tail: &str) -> (text: String)
    ensures
        text@ == "`"@ + name@ + tail@,
{
    let mut text = String::from_str("`");
    text.append(name.as_str());
    text.append(tail);
    text
}

/// `head + name + "`"`.
fn titled(head: &str, name: &String) -> (text: String)
    ensures
        text@ == head@ + name@ + "`"@,
{
    let mut text = String::from_str(head);
    text.append(name.as_str());
    text.append("`");
    text
}

impl Error {
    /// The rendered report.
    pub fn detailed_report(&self) -> (report: &String)
        ensures
            *report == match *self {
                Error::SyntaxError { detailed_report, .. }
                | Error::DuplicateTag { detailed_report, .. }
                | Error::DuplicateRule { detailed_report, .. }
                | Error::DuplicateString { detailed_report, .. }
                | Error::InvalidModifier { detailed_report, .. }
                | Error::DuplicateModifier { detailed_report, .. }
                | Error::InvalidModifierCombination { detailed_report, .. }
                | Error::UnusedString { detailed_report, .. }
                | Error::InvalidHexString { detailed_report, .. }
                | Error::InvalidRange { detailed_report, .. }
                | Error::InvalidInteger { detailed_report, .. }
                | Error::InvalidFloat { detailed_report, .. }
                | Error::InvalidEscapeSequence { detailed_report, .. } => detailed_report,
            },
    {
        match self {
            Error::SyntaxError { detailed_report, .. }
            | Error::DuplicateTag { detailed_report, .. }
            | Error::DuplicateRule { detailed_report, .. }
            | Error::DuplicateString { detailed_report, .. }
            | Error::InvalidModifier { detailed_report, .. }
            | Error::DuplicateModifier { detailed_report, .. }
            | Error::InvalidModifierCombination { detailed_report, .. }
            | Error::UnusedString { detailed_report, .. }
            | Error::InvalidHexString { detailed_report, .. }
            | Error::InvalidRange { detailed_report, .. }
            | Error::InvalidInteger { detailed_report, .. }
            | Error::InvalidFloat { detailed_report, .. }
            | Error::InvalidEscapeSequence { detailed_report, .. } => detailed_report,
        }
    }

    /// The first line of the report.
    pub fn title(&self) -> (text: String)
        ensures
            text@ == self.title_text(),
    {
        match self {
            Error::SyntaxError { .. } => String::from_str("syntax error"),
            Error::DuplicateTag { tag, .. } => titled("duplicate tag `", tag),
            Error::DuplicateRule { rule_ident, .. } => titled("duplicate rule `", rule_ident),
            Error::DuplicateString { string_ident, .. } => titled(
                "duplicate string `",
                string_ident,
            ),
            Error::InvalidModifier { .. } => String::from_str("invalid string modifier"),
            Error::DuplicateModifier { .. } => String::from_str("duplicate string modifier"),
            Error::InvalidModifierCombination { modifier1, modifier2, .. } => {
                let mut text = String::from_str("invalid string modifier combination: `");
                text.append(modifier1.as_str());
                text.append("` `");
                text.append(modifier2.as_str());
                text.append("`");
                text
            },
            Error::UnusedString { string_ident, .. } => titled("unused string `", string_ident),
            Error::InvalidHexString { string_ident, .. } => titled(
                "invalid hex string `",
                string_ident,
            ),
            Error::InvalidRange { .. } => String::from_str("invalid range"),
            Error::InvalidInteger { .. } => String::from_str("invalid integer"),
            Error::InvalidFloat { .. } => String::from_str("invalid float"),
            Error::InvalidEscapeSequence { .. } => String::from_str("invalid escape sequence"),
        }
    }

    /// The labels of the report, in the order in which they are drawn.
    pub fn labels(&self) -> (labels: Vec<Label>)
        ensures
            labels@.len() == self.label_models().len(),
            forall|i: int|
                0 <= i < labels@.len() ==> (#[trigger] labels@[i]).model() == self.label_models()[i],
    {
        let mut labels: Vec<Label> = Vec::new();
        match self {
            Error::SyntaxError { error_msg, error_span, .. }
            | Error::InvalidModifier { error_msg, error_span, .. }
            | Error::InvalidHexString { error_msg, error_span, .. }
            | Error::InvalidRange { error_msg, error_span, .. }
            | Error::InvalidInteger { error_msg, error_span, .. }
            | Error::InvalidFloat { error_msg, error_span, .. }
            | Error::InvalidEscapeSequence { error_msg, error_span, .. } => {
                labels.push(
                    Label { text: error_msg.clone(), span: *error_span, style: LabelStyle::Error },
                );
            },
            Error::DuplicateTag { tag, tag_span, existing_tag_span, .. } => {
                labels.push(
                    Label {
                        text: String::from_str("duplicate tag"),
                        span: *tag_span,
                        style: LabelStyle::Error,
                    },
                );
                labels.push(
                    Label {
                        text: quoted(tag, "` used here for the first time"),
                        span: *existing_tag_span,
                        style: LabelStyle::Note,
                    },
                );
            },
            Error::DuplicateRule {
                rule_ident,
                new_rule_name_span,
                existing_rule_name_span,
                ..
            } => {
                labels.push(
                    Label {
                        text: titled("duplicate declaration of `", rule_ident),
                        span: *new_rule_name_span,
                        style: LabelStyle::Error,
                    },
                );
                labels.push(
                    Label {
                        text: quoted(rule_ident, "` declared here for the first time"),
                        span: *existing_rule_name_span,
                        style: LabelStyle::Note,
                    },
                );
            },
            Error::DuplicateString { string_ident, new_string_span, existing_string_span, .. } => {
                labels.push(
                    Label {
                        text: titled("duplicate declaration of `", string_ident),
                        span: *new_string_span,
                        style: LabelStyle::Error,
                    },
                );
                labels.push(
                    Label {
                        text: quoted(string_ident, "` declared here for the first time"),
                        span: *existing_string_span,
                        style: LabelStyle::Note,
                    },
                );
            },
            Error::DuplicateModifier { modifier_span, existing_modifier_span, .. } => {
                labels.push(
                    Label {
                        text: String::from_str("duplicate modifier"),
                        span: *modifier_span,
                        style: LabelStyle::Error,
                    },
                );
                labels.push(
                    Label {
                        text: String::from_str("modifier used here for the first time"),
                        span: *existing_modifier_span,
                        style: LabelStyle::Note,
                    },
                );
            },
            Error::InvalidModifierCombination {
                modifier1,
                modifier2,
                modifier1_span,
                modifier2_span,
                ..
            } => {
                labels.push(
                    Label {
                        text: quoted(modifier1, "` modifier used here"),
                        span: *modifier1_span,
                        style: LabelStyle::Error,
                    },
                );
                labels.push(
                    Label {
                        text: quoted(modifier2, "` modifier used here"),
                        span: *modifier2_span,
                        style: LabelStyle::Error,
                    },
                );
            },
            Error::UnusedString { string_ident_span, .. } => {
                labels.push(
                    Label {
                        text: String::from_str("this was not used in the condition"),
                        span: *string_ident_span,
                        style: LabelStyle::Error,
                    },
                );
            },
        }
        labels
    }

    /// The note at the end of the report, for the errors that can have one.
    pub fn note(&self) -> (note: Option<String>)
        ensures
            note == match *self {
                Error::InvalidModifierCombination { note, .. }
                | Error::InvalidHexString { note, .. } => note,
                _ => None,
            },
    {
        match self {
            Error::InvalidModifierCombination { note, .. }
            | Error::InvalidHexString { note, .. } => match note {
                Some(text) => Some(text.clone()),
                None => None,
            },
            _ => None,
        }
    }
}

} // verus!
