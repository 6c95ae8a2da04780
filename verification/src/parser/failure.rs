//! What can be wrong with a source, and the errors that say so.

use crate::parser::errors::{named_by, printable, syntax_error_text, without_trivia, Error};
use crate::parser::names::views;
use crate::parser::grammar::GrammarRule;
use crate::parser::lexer::{text_at, text_of};
use crate::parser::span::Span;
use vstd::prelude::*;

verus! {

/// A place in the grammar, by what can stand there.
#[derive(Clone, Copy, Debug, PartialEq, Eq, Structural)]
pub enum Expected {
    /// Exactly this.
    One(GrammarRule),
    /// An import, a rule, or the end of the source.
    Item,
    /// Where a rule begins: its modifiers, or `rule`.
    RuleKeyword,
    /// Behind the name of a rule: its tags, or its body.
    TagsOrBody,
    /// Behind a tag: another one, or the body.
    TagOrBody,
    /// The first section of a rule's body.
    Section,
    /// Behind a definition of metadata: another one, or the next section.
    MetaOrSection,
    /// The value of a definition of metadata.
    MetaValue,
    /// Behind the definition of a string: a modifier, another definition, or
    /// the condition.
    StringOrCondition,
    /// An expression.
    Expression,
    /// The patterns of an `of` expression.
    Patterns,
    /// Behind an item of a list: a comma, or the end of the list.
    CommaOrClose,
    /// What a pattern looks for: a string, a hex pattern, or a regular
    /// expression.
    PatternBody,
}

impl Expected {
    /// The grammar rules that can stand at the place.
    pub open spec fn rules(self) -> Seq<GrammarRule> {
        match self {
            Expected::One(r) => seq![r],
            Expected::Item => seq![GrammarRule::k_IMPORT, GrammarRule::rule_decl, GrammarRule::EOI],
            Expected::RuleKeyword => seq![
                GrammarRule::k_GLOBAL,
                GrammarRule::k_PRIVATE,
                GrammarRule::k_RULE,
            ],
            Expected::TagsOrBody => seq![GrammarRule::COLON, GrammarRule::LBRACE],
            Expected::TagOrBody => seq![GrammarRule::ident, GrammarRule::LBRACE],
            Expected::Section => seq![
                GrammarRule::k_META,
                GrammarRule::k_STRINGS,
                GrammarRule::k_CONDITION,
            ],
            Expected::MetaOrSection => seq![
                GrammarRule::ident,
                GrammarRule::k_STRINGS,
                GrammarRule::k_CONDITION,
            ],
            Expected::MetaValue => seq![
                GrammarRule::string_lit,
                GrammarRule::integer_lit,
                GrammarRule::MINUS,
                GrammarRule::k_TRUE,
                GrammarRule::k_FALSE,
            ],
            Expected::StringOrCondition => seq![
                GrammarRule::string_mods,
                GrammarRule::string_ident,
                GrammarRule::k_CONDITION,
            ],
            Expected::Expression => seq![GrammarRule::boolean_expr],
            Expected::Patterns => seq![GrammarRule::k_THEM, GrammarRule::LPAREN],
            Expected::CommaOrClose => seq![GrammarRule::COMMA, GrammarRule::RPAREN],
            Expected::PatternBody => seq![
                GrammarRule::string_lit,
                GrammarRule::hex_pattern,
                GrammarRule::regexp,
            ],
        }
    }

    /// The grammar rules that can stand at the place.
    pub fn list(&self) -> (rules: Vec<GrammarRule>)
        ensures
            rules@ == self.rules(),
    {
        let rules = match self {
            Expected::One(r) => vec![*r],
            Expected::Item => vec![GrammarRule::k_IMPORT, GrammarRule::rule_decl, GrammarRule::EOI],
            Expected::RuleKeyword => vec![
                GrammarRule::k_GLOBAL,
                GrammarRule::k_PRIVATE,
                GrammarRule::k_RULE,
            ],
            Expected::TagsOrBody => vec![GrammarRule::COLON, GrammarRule::LBRACE],
            Expected::TagOrBody => vec![GrammarRule::ident, GrammarRule::LBRACE],
            Expected::Section => vec![
                GrammarRule::k_META,
                GrammarRule::k_STRINGS,
                GrammarRule::k_CONDITION,
            ],
            Expected::MetaOrSection => vec![
                GrammarRule::ident,
                GrammarRule::k_STRINGS,
                GrammarRule::k_CONDITION,
            ],
            Expected::MetaValue => vec![
                GrammarRule::string_lit,
                GrammarRule::integer_lit,
                GrammarRule::MINUS,
                GrammarRule::k_TRUE,
                GrammarRule::k_FALSE,
            ],
            Expected::StringOrCondition => vec![
                GrammarRule::string_mods,
                GrammarRule::string_ident,
                GrammarRule::k_CONDITION,
            ],
            Expected::Expression => vec![GrammarRule::boolean_expr],
            Expected::Patterns => vec![GrammarRule::k_THEM, GrammarRule::LPAREN],
            Expected::CommaOrClose => vec![GrammarRule::COMMA, GrammarRule::RPAREN],
            Expected::PatternBody => vec![
                GrammarRule::string_lit,
                GrammarRule::hex_pattern,
                GrammarRule::regexp,
            ],
        };
        assert(rules@ =~= self.rules());
        rules
    }
}

/// What is wrong at a place of a source.
#[derive(Clone, Copy, Debug, PartialEq, Eq, Structural)]
pub enum Flaw {
    /// A token stands where the grammar has no use for it.
    Unexpected { found: GrammarRule, expected: Expected },
    /// A string literal or a comment begins and does not end.
    Unfinished(GrammarRule),
    /// No token begins with this character.
    UnknownCharacter,
    /// A backslash in a string literal with nothing known behind it.
    InvalidEscapeSequence,
    /// A number too large for 64 bits with a sign.
    InvalidInteger,
    /// A modifier given twice; the span is that of the first.
    DuplicateModifier(Span),
    /// A hex pattern that is none; the span is that of the identifier of
    /// the pattern.
    InvalidHexString(Span),
}

/// A flaw and where it is.
#[derive(Clone, Copy, Debug, PartialEq, Eq, Structural)]
pub struct Failure {
    pub flaw: Flaw,
    pub span: Span,
}

/// The name of a grammar rule in a message; of a rule without a name, the
/// empty text.
pub open spec fn shown(rule: GrammarRule) -> Seq<char> {
    match printable(rule) {
        Some(name) => name,
        None => Seq::empty(),
    }
}

/// The names of grammar rules in a message, one for one.
pub open spec fn all_shown(rules: Seq<GrammarRule>) -> Seq<Seq<char>> {
    Seq::new(rules.len(), |i: int| shown(rules[i]))
}

/// The name of a grammar rule in a message.
pub fn rule_name(rule: &GrammarRule) -> (name: &str)
    ensures
        name@ == shown(*rule),
{
    match rule {
        GrammarRule::COMMENT
        | GrammarRule::WHITESPACE
        | GrammarRule::import_stmt
        | GrammarRule::rule_mods
        | GrammarRule::rule_tags
        | GrammarRule::meta_defs
        | GrammarRule::string_defs
        | GrammarRule::hex_tokens => {
            proof {
                reveal_strlit("");
                assert(""@ =~= Seq::<char>::empty());
            }
            ""
        },
        _ => Error::printable_string(rule),
    }
}

impl Flaw {
    /// The grammar rules that were found and are reported.
    pub open spec fn found(self) -> Seq<GrammarRule> {
        match self {
            Flaw::Unexpected { found, .. } => seq![found],
            _ => Seq::empty(),
        }
    }

    /// The grammar rules that could have stood at the place.
    pub open spec fn wanted(self) -> Seq<GrammarRule> {
        match self {
            Flaw::Unexpected { expected, .. } => expected.rules(),
            Flaw::Unfinished(rule) => seq![rule],
            _ => Seq::empty(),
        }
    }

    /// The message of the flaw.
    pub open spec fn message(self) -> Seq<char> {
        match self {
            Flaw::InvalidEscapeSequence => "unknown escape sequence"@,
            Flaw::InvalidInteger => "this number is out of the valid range"@,
            Flaw::DuplicateModifier(_) => "duplicate modifier"@,
            Flaw::InvalidHexString(_) => "this is no byte, jump or alternative"@,
            _ => syntax_error_text(
                all_shown(without_trivia(self.found())),
                all_shown(without_trivia(self.wanted())),
            ),
        }
    }
}

/// The text of the source at a span, where the span lies in the source.
pub open spec fn named_at(src: Seq<u8>, span: Span) -> Seq<char> {
    if span.within(src.len()) {
        text_at(src, span)
    } else {
        Seq::empty()
    }
}

impl Failure {
    /// The error that reports the failure in the source `src`: for a number
    /// too large, for a flawed escape sequence and for a flawed hex pattern
    /// an error of its own; for a modifier given twice an error with both
    /// places; for anything else a syntax error, which says what was found
    /// and what could have stood there.
    pub fn error(&self, src: &[u8]) -> (e: Error)
        ensures
            match self.flaw {
                Flaw::InvalidHexString(ident) => e matches Error::InvalidHexString {
                    string_ident,
                    error_msg,
                    error_span,
                    note,
                    ..
                } && string_ident@ == named_at(src@, ident) && error_msg@ == self.flaw.message()
                    && error_span == self.span && note is None,
                Flaw::InvalidEscapeSequence => e matches Error::InvalidEscapeSequence {
                    error_msg,
                    error_span,
                    ..
                } && error_msg@ == self.flaw.message() && error_span == self.span,
                Flaw::InvalidInteger => e matches Error::InvalidInteger {
                    error_msg,
                    error_span,
                    ..
                } && error_msg@ == self.flaw.message() && error_span == self.span,
                Flaw::DuplicateModifier(first) => e matches Error::DuplicateModifier {
                    modifier_span,
                    existing_modifier_span,
                    ..
                } && modifier_span == self.span && existing_modifier_span == first,
                _ => e matches Error::SyntaxError { error_msg, error_span, .. } && error_msg@
                    == self.flaw.message() && error_span == self.span,
            },
            e.span() == self.span,
    {
        match self.flaw {
            Flaw::InvalidHexString(ident) => {
                let string_ident = if ident.is_within(src.len()) {
                    text_of(src, ident)
                } else {
                    let empty = String::new();
                    assert(empty@ =~= Seq::<char>::empty());
                    empty
                };
                let mut report = String::from_str("invalid hex string `");
                report.append(string_ident.as_str());
                report.append("`");
                Error::InvalidHexString {
                    detailed_report: report,
                    string_ident,
                    error_msg: String::from_str("this is no byte, jump or alternative"),
                    error_span: self.span,
                    note: None,
                }
            },
            Flaw::InvalidEscapeSequence => Error::InvalidEscapeSequence {
                detailed_report: String::from_str("invalid escape sequence"),
                error_msg: String::from_str("unknown escape sequence"),
                error_span: self.span,
            },
            Flaw::InvalidInteger => Error::InvalidInteger {
                detailed_report: String::from_str("invalid integer"),
                error_msg: String::from_str("this number is out of the valid range"),
                error_span: self.span,
            },
            Flaw::DuplicateModifier(first) => Error::DuplicateModifier {
                detailed_report: String::from_str("duplicate string modifier"),
                modifier_span: self.span,
                existing_modifier_span: first,
            },
            Flaw::Unexpected { found, expected } => {
                let wanted = expected.list();
                let mut unexpected: Vec<GrammarRule> = Vec::new();
                unexpected.push(found);
                assert(unexpected@ =~= self.flaw.found());
                syntax_error(wanted.as_slice(), unexpected.as_slice(), self.span)
            },
            Flaw::Unfinished(rule) => {
                let mut wanted: Vec<GrammarRule> = Vec::new();
                wanted.push(rule);
                let unexpected: Vec<GrammarRule> = Vec::new();
                assert(unexpected@ =~= self.flaw.found());
                assert(wanted@ =~= self.flaw.wanted());
                syntax_error(wanted.as_slice(), unexpected.as_slice(), self.span)
            },
            Flaw::UnknownCharacter => {
                let wanted: Vec<GrammarRule> = Vec::new();
                let unexpected: Vec<GrammarRule> = Vec::new();
                assert(unexpected@ =~= self.flaw.found());
                assert(wanted@ =~= self.flaw.wanted());
                syntax_error(wanted.as_slice(), unexpected.as_slice(), self.span)
            },
        }
    }
}

/// The syntax error at `span` for the rules that were expected and those
/// that were found.
pub fn syntax_error(expected: &[GrammarRule], unexpected: &[GrammarRule], span: Span) -> (e: Error)
    ensures
        e matches Error::SyntaxError { error_msg, error_span, detailed_report } && error_span
            == span && error_msg@ == syntax_error_text(
            all_shown(without_trivia(unexpected@)),
            all_shown(without_trivia(expected@)),
        ) && detailed_report@ == e.title_text(),
{
    let msg = Error::syntax_error_message(expected, unexpected, rule_name);
    proof {
        let (u, w) = choose|u: Seq<&str>, w: Seq<&str>|
            {
                &&& named_by(rule_name, without_trivia(unexpected@), u)
                &&& named_by(rule_name, without_trivia(expected@), w)
                &&& msg@ == syntax_error_text(views(u), views(w))
            };
        assert(views(u) =~= all_shown(without_trivia(unexpected@)));
        assert(views(w) =~= all_shown(without_trivia(expected@)));
    }
    Error::SyntaxError {
        detailed_report: String::from_str("syntax error"),
        error_msg: msg,
        error_span: span,
    }
}

} // verus!
