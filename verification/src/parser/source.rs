//! The grammar of rules and of a source, and the parser for it.
//!
//! ```text
//! source_file := (import_stmt | rule_decl)* end of the source
//! import_stmt := `import` string
//! rule_decl   := (`private` | `global`)* `rule` identifier (`:` identifier+)?
//!                `{` meta_defs? string_defs? `condition` `:` boolean_expr `}`
//! meta_defs   := `meta` `:` (identifier `=` meta_value)+
//! meta_value  := string | number | `-` number | `true` | `false`
//! string_defs := `strings` `:` (pattern identifier `=` body string_mod*)+
//! body        := string | hex pattern | regular expression
//! string_mod  := `ascii` | `wide` | `nocase` | `fullword` | `private` | `xor`
//!              | `base64` | `base64wide`
//! ```
//!
//! A modifier of a string may be given once; a modifier of a rule may be
//! repeated. The tree keeps the modifiers, the metadata, and of each pattern
//! its identifier, what it looks for and its modifiers.

use crate::parser::ast::{
    defs, metas, BodyTree, DefTree, Meta, MetaTree, MetaValue, MetaValueTree, PatternBody,
    PatternDef, PatternModifiers, RuleModifiers,
    expr_within, idents_within, namespace_within, rule_within, names, FileTree, Ident, Import, ImportTree, Name, Namespace, Node, Rule, RuleTree, SourceFile,
};
use crate::parser::expressions::{
    boolean_expr, has_rule, ident_at, lemma_next, name_at, onward, parse_boolean_expr, rule_at,
    span_at, from_to, unexpected, unexpected_at, Parsed,
};
use crate::compiler::model::{namespaces_size, rules_size};
use crate::parser::failure::{Expected, Failure, Flaw};
use crate::parser::grammar::GrammarRule;
use crate::parser::hex::{find_hex_flaw, hex_flaw};
use crate::parser::lexer::{
    lemma_ordered, lossy_text, span_of, text_from, tokenize, tokens, well_lexed, Token,
};
use crate::parser::lexer::{find_regexp_end, regexp_end};
use crate::parser::literals::{number_at, read_number_at, read_string_at, string_at, Text};
use vstd::slice::slice_subrange;
use crate::parser::span::Span;
use vstd::prelude::*;

verus! {

pub open spec fn is_rule_modifier(rule: GrammarRule) -> bool {
    rule == GrammarRule::k_PRIVATE || rule == GrammarRule::k_GLOBAL
}

/// The number of the token `rule`, which stands at token `i` or behind the
/// modifiers that stand there.
pub open spec fn rule_keyword(t: Seq<Token>, i: int) -> Parsed<()>
    decreases t.len() - i,
{
    if 0 <= i < t.len() && is_rule_modifier(rule_at(t, i)) {
        rule_keyword(t, i + 1)
    } else if rule_at(t, i) == GrammarRule::k_RULE {
        Parsed::Done((), i)
    } else {
        Parsed::Fail(unexpected_at(t, i, Expected::RuleKeyword))
    }
}

/// The tags of a rule from token `i` on, behind `tags`, and the number of
/// the brace that opens the rule's body.
pub open spec fn tag_list(src: Seq<u8>, t: Seq<Token>, i: int, tags: Seq<Name>) -> Parsed<
    Seq<Name>,
>
    decreases t.len() - i,
{
    if rule_at(t, i) == GrammarRule::ident {
        tag_list(src, t, i + 1, tags.push(name_at(src, t, i)))
    } else if tags.len() == 0 {
        Parsed::Fail(unexpected_at(t, i, Expected::One(GrammarRule::ident)))
    } else if rule_at(t, i) == GrammarRule::LBRACE {
        Parsed::Done(tags, i)
    } else {
        Parsed::Fail(unexpected_at(t, i, Expected::TagOrBody))
    }
}

/// What stands between the name of a rule and its body: nothing, or a colon
/// and at least one tag.
pub open spec fn tags(src: Seq<u8>, t: Seq<Token>, i: int) -> Parsed<Seq<Name>> {
    if rule_at(t, i) == GrammarRule::COLON {
        tag_list(src, t, i + 1, Seq::empty())
    } else if rule_at(t, i) == GrammarRule::LBRACE {
        Parsed::Done(Seq::empty(), i)
    } else {
        Parsed::Fail(unexpected_at(t, i, Expected::TagsOrBody))
    }
}

/// The failure of the string literal at token `i`, if an escape sequence in
/// it is flawed.
pub open spec fn bad_string(src: Seq<u8>, t: Seq<Token>, i: int) -> Option<Failure> {
    match string_at(src, span_at(t, i)) {
        Text::Bytes(_) => None,
        Text::BadEscape(at) => Some(
            Failure { flaw: Flaw::InvalidEscapeSequence, span: span_of(at, at + 1) },
        ),
    }
}

/// The failure of the number at token `i`, if it is too large.
pub open spec fn bad_number(src: Seq<u8>, t: Seq<Token>, i: int) -> Option<Failure> {
    match number_at(src, span_at(t, i)) {
        Some(_) => None,
        None => Some(Failure { flaw: Flaw::InvalidInteger, span: span_at(t, i) }),
    }
}

/// One of the tokens from `from` to before `to` is `rule`.
pub open spec fn among(t: Seq<Token>, from: int, to: int, rule: GrammarRule) -> bool
    decreases to - from,
{
    if from >= to {
        false
    } else {
        rule_at(t, from) == rule || among(t, from + 1, to, rule)
    }
}

/// The value of a definition of metadata, at token `i`.
pub open spec fn meta_value(src: Seq<u8>, t: Seq<Token>, i: int) -> Parsed<MetaValueTree> {
    match rule_at(t, i) {
        GrammarRule::string_lit => match string_at(src, span_at(t, i)) {
            Text::Bytes(bytes) => Parsed::Done(MetaValueTree::Str(bytes), i + 1),
            Text::BadEscape(_) => Parsed::Fail(bad_string(src, t, i)->0),
        },
        GrammarRule::integer_lit => match number_at(src, span_at(t, i)) {
            Some(v) => Parsed::Done(MetaValueTree::Int(v), i + 1),
            None => Parsed::Fail(bad_number(src, t, i)->0),
        },
        GrammarRule::MINUS => if rule_at(t, i + 1) != GrammarRule::integer_lit {
            Parsed::Fail(unexpected_at(t, i + 1, Expected::One(GrammarRule::integer_lit)))
        } else {
            match number_at(src, span_at(t, i + 1)) {
                Some(v) => Parsed::Done(MetaValueTree::Int((0 - v) as i64), i + 2),
                None => Parsed::Fail(bad_number(src, t, i + 1)->0),
            }
        },
        GrammarRule::k_TRUE => Parsed::Done(MetaValueTree::Bool(true), i + 1),
        GrammarRule::k_FALSE => Parsed::Done(MetaValueTree::Bool(false), i + 1),
        _ => Parsed::Fail(unexpected_at(t, i, Expected::MetaValue)),
    }
}

/// The definitions of metadata from token `i` on, behind those of `meta`:
/// all of them, and the number of the token that begins the next section.
pub open spec fn meta_defs(src: Seq<u8>, t: Seq<Token>, i: int, meta: Seq<MetaTree>) -> Parsed<
    Seq<MetaTree>,
>
    decreases t.len() - i,
{
    if rule_at(t, i) == GrammarRule::ident {
        if rule_at(t, i + 1) != GrammarRule::EQUAL {
            Parsed::Fail(unexpected_at(t, i + 1, Expected::One(GrammarRule::EQUAL)))
        } else {
            match meta_value(src, t, i + 2) {
                Parsed::Done(value, n) => if onward(t, i, n) {
                    meta_defs(
                        src,
                        t,
                        n,
                        meta.push(MetaTree { identifier: name_at(src, t, i), value }),
                    )
                } else {
                    Parsed::Fail(unexpected_at(t, i, Expected::MetaValue))
                },
                Parsed::Fail(f) => Parsed::Fail(f),
            }
        }
    } else if meta.len() == 0 {
        Parsed::Fail(unexpected_at(t, i, Expected::One(GrammarRule::ident)))
    } else if rule_at(t, i) == GrammarRule::k_STRINGS || rule_at(t, i) == GrammarRule::k_CONDITION {
        Parsed::Done(meta, i)
    } else {
        Parsed::Fail(unexpected_at(t, i, Expected::MetaOrSection))
    }
}

pub open spec fn is_string_modifier(rule: GrammarRule) -> bool {
    rule == GrammarRule::k_ASCII || rule == GrammarRule::k_WIDE || rule == GrammarRule::k_NOCASE
        || rule == GrammarRule::k_FULLWORD || rule == GrammarRule::k_PRIVATE || rule
        == GrammarRule::k_XOR || rule == GrammarRule::k_BASE64 || rule == GrammarRule::k_BASE64WIDE
}

/// The first of the tokens from `from` to before `i` that is what token
/// `i` is.
pub open spec fn earlier(t: Seq<Token>, from: int, i: int) -> Option<int>
    decreases i - from,
{
    if from >= i {
        None
    } else if rule_at(t, from) == rule_at(t, i) {
        Some(from)
    } else {
        earlier(t, from + 1, i)
    }
}

/// The modifiers of a string, which begin at token `from`, from token `i`
/// on: the number of the first token that is none. A modifier may stand
/// once.
pub open spec fn string_mods(t: Seq<Token>, from: int, i: int) -> Parsed<()>
    decreases t.len() - i,
{
    if 0 <= i < t.len() && is_string_modifier(rule_at(t, i)) {
        match earlier(t, from, i) {
            Some(k) => Parsed::Fail(
                Failure { flaw: Flaw::DuplicateModifier(span_at(t, k)), span: span_at(t, i) },
            ),
            None => string_mods(t, from, i + 1),
        }
    } else {
        Parsed::Done((), i)
    }
}

/// The modifiers that stand among the tokens from `from` to before `to`.
pub open spec fn modifiers_of(t: Seq<Token>, from: int, to: int) -> PatternModifiers {
    PatternModifiers {
        ascii: among(t, from, to, GrammarRule::k_ASCII),
        wide: among(t, from, to, GrammarRule::k_WIDE),
        nocase: among(t, from, to, GrammarRule::k_NOCASE),
        fullword: among(t, from, to, GrammarRule::k_FULLWORD),
        private: among(t, from, to, GrammarRule::k_PRIVATE),
        xor: among(t, from, to, GrammarRule::k_XOR),
        base64: among(t, from, to, GrammarRule::k_BASE64),
        base64wide: among(t, from, to, GrammarRule::k_BASE64WIDE),
    }
}

/// What the regular expression at `span` is: what stands between its
/// slashes, and whether `i` and `s` stand among the flags behind them.
/// `None` where no regular expression stands at the span.
pub open spec fn regexp_at(src: Seq<u8>, span: Span) -> Option<BodyTree> {
    match regexp_end(src, span.start + 1) {
        Some(close) => if span.start + 2 <= close <= span.end <= src.len() {
            Some(
                BodyTree::Regexp {
                    source: src.subrange(span.start + 1, close - 1),
                    case_insensitive: src.subrange(close, span.end as int).contains(0x69),
                    dot_matches_new_line: src.subrange(close, span.end as int).contains(0x73),
                },
            )
        } else {
            None
        },
        None => None,
    }
}

/// What the pattern whose identifier is token `ident` looks for, which
/// token `i` says: a string, a hex pattern, or a regular expression. A flaw
/// of a hex pattern is reported where it stands.
pub open spec fn pattern_body(src: Seq<u8>, t: Seq<Token>, i: int, ident: int) -> Result<
    BodyTree,
    Failure,
> {
    let span = span_at(t, i);
    match rule_at(t, i) {
        GrammarRule::string_lit => match string_at(src, span) {
            Text::Bytes(bytes) => Ok(BodyTree::Text(bytes)),
            Text::BadEscape(_) => Err(bad_string(src, t, i)->0),
        },
        GrammarRule::hex_pattern => {
            let body = src.subrange(span.start + 1, span.end - 1);
            match hex_flaw(body, 0, 0, false) {
                Some(at) => Err(
                    Failure {
                        flaw: Flaw::InvalidHexString(span_at(t, ident)),
                        span: span_of(span.start + 1 + at, span.start + 2 + at),
                    },
                ),
                None => Ok(BodyTree::Hex(body)),
            }
        },
        GrammarRule::regexp => match regexp_at(src, span) {
            Some(body) => Ok(body),
            None => Err(unexpected_at(t, i, Expected::PatternBody)),
        },
        _ => Err(unexpected_at(t, i, Expected::PatternBody)),
    }
}

/// The definitions of strings from token `i` on, behind those of `names`
/// and `definitions`: the identifiers, what the patterns look for, and the
/// number of the token `condition` behind them.
pub open spec fn string_defs(
    src: Seq<u8>,
    t: Seq<Token>,
    i: int,
    names: Seq<Name>,
    definitions: Seq<DefTree>,
) -> Parsed<(Seq<Name>, Seq<DefTree>)>
    decreases t.len() - i,
{
    if rule_at(t, i) == GrammarRule::string_ident {
        if rule_at(t, i + 1) != GrammarRule::EQUAL {
            Parsed::Fail(unexpected_at(t, i + 1, Expected::One(GrammarRule::EQUAL)))
        } else {
            match pattern_body(src, t, i + 2, i) {
                Err(f) => Parsed::Fail(f),
                Ok(body) => match string_mods(t, i + 3, i + 3) {
                    Parsed::Fail(f) => Parsed::Fail(f),
                    Parsed::Done(_, n) => if onward(t, i, n) {
                        string_defs(
                            src,
                            t,
                            n,
                            names.push(name_at(src, t, i)),
                            definitions.push(
                                DefTree { body, modifiers: modifiers_of(t, i + 3, n) },
                            ),
                        )
                    } else {
                        Parsed::Fail(unexpected_at(t, i, Expected::StringOrCondition))
                    },
                },
            }
        }
    } else if names.len() == 0 {
        Parsed::Fail(unexpected_at(t, i, Expected::One(GrammarRule::string_ident)))
    } else if rule_at(t, i) == GrammarRule::k_CONDITION {
        Parsed::Done((names, definitions), i)
    } else {
        Parsed::Fail(unexpected_at(t, i, Expected::StringOrCondition))
    }
}

/// The section of metadata, if one begins at token `i`: its definitions,
/// and the number of the token behind it.
pub open spec fn meta_section(src: Seq<u8>, t: Seq<Token>, i: int) -> Parsed<Seq<MetaTree>> {
    if rule_at(t, i) != GrammarRule::k_META {
        Parsed::Done(Seq::empty(), i)
    } else if rule_at(t, i + 1) != GrammarRule::COLON {
        Parsed::Fail(unexpected_at(t, i + 1, Expected::One(GrammarRule::COLON)))
    } else {
        meta_defs(src, t, i + 2, Seq::empty())
    }
}

/// The section of strings, if one begins at token `i`: the identifiers of
/// the patterns, what they look for, and the number of the token behind
/// the section.
pub open spec fn string_section(src: Seq<u8>, t: Seq<Token>, i: int) -> Parsed<
    (Seq<Name>, Seq<DefTree>),
> {
    if rule_at(t, i) != GrammarRule::k_STRINGS {
        Parsed::Done((Seq::empty(), Seq::empty()), i)
    } else if rule_at(t, i + 1) != GrammarRule::COLON {
        Parsed::Fail(unexpected_at(t, i + 1, Expected::One(GrammarRule::COLON)))
    } else {
        string_defs(src, t, i + 2, Seq::empty(), Seq::empty())
    }
}

/// The condition of a rule, whose section begins at token `i`: the
/// condition, and the number of the brace that closes the rule.
pub open spec fn condition_section(src: Seq<u8>, t: Seq<Token>, i: int) -> Parsed<Node> {
    if rule_at(t, i) != GrammarRule::k_CONDITION {
        Parsed::Fail(unexpected_at(t, i, Expected::Section))
    } else if rule_at(t, i + 1) != GrammarRule::COLON {
        Parsed::Fail(unexpected_at(t, i + 1, Expected::One(GrammarRule::COLON)))
    } else {
        match boolean_expr(src, t, i + 2) {
            Parsed::Done(condition, n) => if rule_at(t, n) == GrammarRule::RBRACE {
                Parsed::Done(condition, n)
            } else {
                Parsed::Fail(unexpected_at(t, n, Expected::One(GrammarRule::RBRACE)))
            },
            Parsed::Fail(f) => Parsed::Fail(f),
        }
    }
}

/// A rule, which begins at token `i` with its modifiers or with `rule`.
pub open spec fn rule_decl(src: Seq<u8>, t: Seq<Token>, i: int) -> Parsed<RuleTree> {
    match rule_keyword(t, i) {
        Parsed::Fail(f) => Parsed::Fail(f),
        Parsed::Done(_, r) => if rule_at(t, r + 1) != GrammarRule::ident {
            Parsed::Fail(unexpected_at(t, r + 1, Expected::One(GrammarRule::ident)))
        } else {
            match tags(src, t, r + 2) {
                Parsed::Fail(f) => Parsed::Fail(f),
                Parsed::Done(tags, b) => match meta_section(src, t, b + 1) {
                    Parsed::Fail(f) => Parsed::Fail(f),
                    Parsed::Done(meta, s) => match string_section(src, t, s) {
                        Parsed::Fail(f) => Parsed::Fail(f),
                        Parsed::Done(strings, c) => match condition_section(src, t, c) {
                            Parsed::Fail(f) => Parsed::Fail(f),
                            Parsed::Done(condition, e) => Parsed::Done(
                                RuleTree {
                                    modifiers: RuleModifiers {
                                        private: among(t, i, r, GrammarRule::k_PRIVATE),
                                        global: among(t, i, r, GrammarRule::k_GLOBAL),
                                    },
                                    identifier: name_at(src, t, r + 1),
                                    tags,
                                    meta,
                                    patterns: strings.0,
                                    definitions: strings.1,
                                    condition,
                                },
                                e + 1,
                            ),
                        },
                    },
                },
            }
        },
    }
}

/// An import, which begins at token `i`.
pub open spec fn import_stmt(src: Seq<u8>, t: Seq<Token>, i: int) -> Parsed<ImportTree> {
    if rule_at(t, i + 1) != GrammarRule::string_lit {
        Parsed::Fail(unexpected_at(t, i + 1, Expected::One(GrammarRule::string_lit)))
    } else {
        match string_at(src, span_at(t, i + 1)) {
            Text::BadEscape(at) => Parsed::Fail(
                Failure { flaw: Flaw::InvalidEscapeSequence, span: span_of(at, at + 1) },
            ),
            Text::Bytes(bytes) => Parsed::Done(
                ImportTree { module_name: lossy_text(bytes), span: from_to(t, i, i + 1) },
                i + 2,
            ),
        }
    }
}

/// The imports and rules of a source from token `i` on, behind those of
/// `file`.
pub open spec fn items(src: Seq<u8>, t: Seq<Token>, i: int, file: FileTree) -> Parsed<FileTree>
    decreases t.len() - i,
{
    match rule_at(t, i) {
        GrammarRule::EOI => Parsed::Done(file, i),
        GrammarRule::k_IMPORT => match import_stmt(src, t, i) {
            Parsed::Fail(f) => Parsed::Fail(f),
            Parsed::Done(import, n) => if onward(t, i, n) {
                items(src, t, n, FileTree { imports: file.imports.push(import), rules: file.rules })
            } else {
                Parsed::Fail(unexpected_at(t, i, Expected::Item))
            },
        },
        GrammarRule::k_RULE | GrammarRule::k_PRIVATE | GrammarRule::k_GLOBAL => match rule_decl(
            src,
            t,
            i,
        ) {
            Parsed::Fail(f) => Parsed::Fail(f),
            Parsed::Done(rule, n) => if onward(t, i, n) {
                items(src, t, n, FileTree { imports: file.imports, rules: file.rules.push(rule) })
            } else {
                Parsed::Fail(unexpected_at(t, i, Expected::Item))
            },
        },
        _ => Parsed::Fail(unexpected_at(t, i, Expected::Item)),
    }
}

/// What a source is: its imports and rules, or its first flaw.
pub open spec fn parsed(src: Seq<u8>) -> Result<FileTree, Failure> {
    match tokens(src) {
        Err(f) => Err(f),
        Ok(t) => match items(src, t, 0, FileTree { imports: Seq::empty(), rules: Seq::empty() }) {
            Parsed::Done(file, _) => Ok(file),
            Parsed::Fail(f) => Err(f),
        },
    }
}

/// Finds the token `rule` at token `i` or behind the modifiers that stand
/// there.
pub fn parse_rule_keyword(src: &[u8], t: &[Token], i: usize) -> (r: Result<usize, Failure>)
    requires
        well_lexed(src@, t@),
        i < t.len(),
    ensures
        match r {
            Ok(n) => rule_keyword(t@, i as int) == Parsed::Done((), n as int) && i <= n && n + 1
                < t.len() && rule_at(t@, n as int) == GrammarRule::k_RULE,
            Err(f) => rule_keyword(t@, i as int) == Parsed::<()>::Fail(f) && f.span.within(
                src@.len(),
            ),
        },
{
    let mut at: usize = i;
    while has_rule(t, at, GrammarRule::k_PRIVATE) || has_rule(t, at, GrammarRule::k_GLOBAL)
        invariant
            well_lexed(src@, t@),
            i <= at < t.len(),
            rule_keyword(t@, i as int) == rule_keyword(t@, at as int),
        decreases t.len() - at,
    {
        proof {
            lemma_next(src@, t@, at as int);
        }
        at += 1;
    }
    if has_rule(t, at, GrammarRule::k_RULE) {
        proof {
            lemma_next(src@, t@, at as int);
        }
        Ok(at)
    } else {
        Err(unexpected(t, at, Expected::RuleKeyword))
    }
}

/// Reads what stands between the name of a rule and its body.
pub fn parse_tags(src: &[u8], t: &[Token], i: usize) -> (r: Result<(Vec<Ident>, usize), Failure>)
    requires
        well_lexed(src@, t@),
        i < t.len(),
    ensures
        match r {
            Ok((idents, n)) => tags(src@, t@, i as int) == Parsed::Done(names(idents@), n as int)
                && i <= n && n + 1 < t.len() && idents_within(idents@, src@.len()),
            Err(f) => tags(src@, t@, i as int) == Parsed::<Seq<Name>>::Fail(f) && f.span.within(
                src@.len(),
            ),
        },
{
    let mut idents: Vec<Ident> = Vec::new();
    assert(names(idents@) =~= Seq::<Name>::empty());
    if has_rule(t, i, GrammarRule::LBRACE) {
        proof {
            lemma_next(src@, t@, i as int);
        }
        return Ok((idents, i));
    }
    if !has_rule(t, i, GrammarRule::COLON) {
        return Err(unexpected(t, i, Expected::TagsOrBody));
    }
    proof {
        lemma_next(src@, t@, i as int);
    }
    let mut at: usize = i + 1;
    while has_rule(t, at, GrammarRule::ident)
        invariant
            well_lexed(src@, t@),
            i < at < t.len(),
            idents_within(idents@, src@.len()),
            tag_list(src@, t@, i + 1, Seq::empty()) == tag_list(
                src@,
                t@,
                at as int,
                names(idents@),
            ),
        decreases t.len() - at,
    {
        proof {
            lemma_next(src@, t@, at as int);
        }
        let ghost before = names(idents@);
        let ident = ident_at(src, t, at);
        idents.push(ident);
        assert(names(idents@) =~= before.push(name_at(src@, t@, at as int)));
        at += 1;
    }
    if idents.len() == 0 {
        Err(unexpected(t, at, Expected::One(GrammarRule::ident)))
    } else if has_rule(t, at, GrammarRule::LBRACE) {
        proof {
            lemma_next(src@, t@, at as int);
        }
        Ok((idents, at))
    } else {
        Err(unexpected(t, at, Expected::TagOrBody))
    }
}

/// Tells whether one of the tokens from `from` to before `to` is `rule`.
pub fn has_among(t: &[Token], from: usize, to: usize, rule: GrammarRule) -> (b: bool)
    requires
        from <= to <= t.len(),
    ensures
        b == among(t@, from as int, to as int, rule),
{
    let mut k: usize = from;
    while k < to
        invariant
            from <= k <= to <= t.len(),
            among(t@, from as int, to as int, rule) == among(t@, k as int, to as int, rule),
        decreases to - k,
    {
        if t[k].rule == rule {
            return true;
        }
        k += 1;
    }
    false
}

/// Reads the value of a definition of metadata.
pub fn parse_meta_value(src: &[u8], t: &[Token], i: usize) -> (r: Result<
    (MetaValue, usize),
    Failure,
>)
    requires
        well_lexed(src@, t@),
        i < t.len(),
    ensures
        match r {
            Ok((value, n)) => meta_value(src@, t@, i as int) == Parsed::Done(
                value.model(),
                n as int,
            ) && i < n < t.len(),
            Err(f) => meta_value(src@, t@, i as int) == Parsed::<MetaValueTree>::Fail(f)
                && f.span.within(src@.len()),
        },
{
    proof {
        if rule_at(t@, i as int) != GrammarRule::EOI {
            lemma_next(src@, t@, i as int);
        }
    }
    match t[i].rule {
        GrammarRule::string_lit => match read_string_at(src, t[i].span) {
            Ok(bytes) => Ok((MetaValue::Str(bytes), i + 1)),
            Err(at) => Err(
                Failure { flaw: Flaw::InvalidEscapeSequence, span: Span::new(at, at + 1) },
            ),
        },
        GrammarRule::integer_lit => match read_number_at(src, t[i].span) {
            Some(v) => Ok((MetaValue::Int(v), i + 1)),
            None => Err(Failure { flaw: Flaw::InvalidInteger, span: t[i].span }),
        },
        GrammarRule::MINUS => {
            if !has_rule(t, i + 1, GrammarRule::integer_lit) {
                Err(unexpected(t, i + 1, Expected::One(GrammarRule::integer_lit)))
            } else {
                proof {
                    lemma_next(src@, t@, i + 1);
                }
                match read_number_at(src, t[i + 1].span) {
                    Some(v) => {
                        assert(0 <= v) by {
                            crate::parser::literals::lemma_number_at_is_positive(
                                src@,
                                t@[i + 1].span,
                            );
                        }
                        Ok((MetaValue::Int(0 - v), i + 2))
                    },
                    None => Err(Failure { flaw: Flaw::InvalidInteger, span: t[i + 1].span }),
                }
            }
        },
        GrammarRule::k_TRUE => Ok((MetaValue::Bool(true), i + 1)),
        GrammarRule::k_FALSE => Ok((MetaValue::Bool(false), i + 1)),
        _ => Err(unexpected(t, i, Expected::MetaValue)),
    }
}

/// Reads the section of metadata, if one begins at token `i`.
pub fn parse_meta_section(src: &[u8], t: &[Token], i: usize) -> (r: Result<
    (Vec<Meta>, usize),
    Failure,
>)
    requires
        well_lexed(src@, t@),
        i < t.len(),
    ensures
        match r {
            Ok((meta, n)) => meta_section(src@, t@, i as int) == Parsed::Done(
                metas(meta@),
                n as int,
            ) && i <= n < t.len(),
            Err(f) => meta_section(src@, t@, i as int) == Parsed::<Seq<MetaTree>>::Fail(f)
                && f.span.within(src@.len()),
        },
{
    let mut meta: Vec<Meta> = Vec::new();
    assert(metas(meta@) =~= Seq::<MetaTree>::empty());
    if !has_rule(t, i, GrammarRule::k_META) {
        return Ok((meta, i));
    }
    proof {
        lemma_next(src@, t@, i as int);
    }
    if !has_rule(t, i + 1, GrammarRule::COLON) {
        return Err(unexpected(t, i + 1, Expected::One(GrammarRule::COLON)));
    }
    proof {
        lemma_next(src@, t@, i + 1);
    }
    let mut at: usize = i + 2;
    while has_rule(t, at, GrammarRule::ident)
        invariant
            well_lexed(src@, t@),
            i + 2 <= at < t.len(),
            meta_section(src@, t@, i as int) == meta_defs(src@, t@, i + 2, Seq::empty()),
            meta_defs(src@, t@, i + 2, Seq::empty()) == meta_defs(
                src@,
                t@,
                at as int,
                metas(meta@),
            ),
        decreases t.len() - at,
    {
        proof {
            lemma_next(src@, t@, at as int);
        }
        if !has_rule(t, at + 1, GrammarRule::EQUAL) {
            return Err(unexpected(t, at + 1, Expected::One(GrammarRule::EQUAL)));
        }
        proof {
            lemma_next(src@, t@, at + 1);
        }
        match parse_meta_value(src, t, at + 2) {
            Ok((value, n)) => {
                let ghost before = metas(meta@);
                let definition = Meta { identifier: ident_at(src, t, at), value };
                let ghost tree = definition.model();
                meta.push(definition);
                assert(metas(meta@) =~= before.push(tree));
                at = n;
            },
            Err(f) => {
                return Err(f);
            },
        }
    }
    if meta.len() == 0 {
        Err(unexpected(t, at, Expected::One(GrammarRule::ident)))
    } else if has_rule(t, at, GrammarRule::k_STRINGS) || has_rule(t, at, GrammarRule::k_CONDITION) {
        Ok((meta, at))
    } else {
        Err(unexpected(t, at, Expected::MetaOrSection))
    }
}

/// Tells whether the rule is a modifier of a string.
pub fn string_modifier(rule: GrammarRule) -> (b: bool)
    ensures
        b == is_string_modifier(rule),
{
    match rule {
        GrammarRule::k_ASCII
        | GrammarRule::k_WIDE
        | GrammarRule::k_NOCASE
        | GrammarRule::k_FULLWORD
        | GrammarRule::k_PRIVATE
        | GrammarRule::k_XOR
        | GrammarRule::k_BASE64
        | GrammarRule::k_BASE64WIDE => true,
        _ => false,
    }
}

/// Finds the first of the tokens from `from` to before `i` that is what
/// token `i` is.
pub fn find_earlier(t: &[Token], from: usize, i: usize) -> (found: Option<usize>)
    requires
        from <= i < t.len(),
    ensures
        match found {
            Some(k) => earlier(t@, from as int, i as int) == Some(k as int) && from <= k < i,
            None => earlier(t@, from as int, i as int) is None,
        },
{
    let mut k: usize = from;
    while k < i
        invariant
            from <= k <= i < t.len(),
            earlier(t@, from as int, i as int) == earlier(t@, k as int, i as int),
        decreases i - k,
    {
        if t[k].rule == t[i].rule {
            return Some(k);
        }
        k += 1;
    }
    None
}

/// Reads the modifiers of a string, from token `i` on.
pub fn parse_string_mods(src: &[u8], t: &[Token], i: usize) -> (r: Result<usize, Failure>)
    requires
        well_lexed(src@, t@),
        i < t.len(),
    ensures
        match r {
            Ok(n) => string_mods(t@, i as int, i as int) == Parsed::Done((), n as int) && i <= n
                < t.len(),
            Err(f) => string_mods(t@, i as int, i as int) == Parsed::<()>::Fail(f)
                && f.span.within(src@.len()),
        },
{
    let mut at: usize = i;
    while string_modifier(t[at].rule)
        invariant
            well_lexed(src@, t@),
            i <= at < t.len(),
            string_mods(t@, i as int, i as int) == string_mods(t@, i as int, at as int),
        decreases t.len() - at,
    {
        proof {
            lemma_next(src@, t@, at as int);
        }
        if let Some(k) = find_earlier(t, i, at) {
            return Err(Failure { flaw: Flaw::DuplicateModifier(t[k].span), span: t[at].span });
        }
        at += 1;
    }
    Ok(at)
}

/// Reads the modifiers that stand among the tokens from `from` to before
/// `to`.
pub fn read_modifiers(t: &[Token], from: usize, to: usize) -> (m: PatternModifiers)
    requires
        from <= to <= t.len(),
    ensures
        m == modifiers_of(t@, from as int, to as int),
{
    PatternModifiers {
        ascii: has_among(t, from, to, GrammarRule::k_ASCII),
        wide: has_among(t, from, to, GrammarRule::k_WIDE),
        nocase: has_among(t, from, to, GrammarRule::k_NOCASE),
        fullword: has_among(t, from, to, GrammarRule::k_FULLWORD),
        private: has_among(t, from, to, GrammarRule::k_PRIVATE),
        xor: has_among(t, from, to, GrammarRule::k_XOR),
        base64: has_among(t, from, to, GrammarRule::k_BASE64),
        base64wide: has_among(t, from, to, GrammarRule::k_BASE64WIDE),
    }
}

/// Tells whether a byte stands among others.
pub fn holds_byte(bytes: &[u8], b: u8) -> (r: bool)
    ensures
        r == bytes@.contains(b),
{
    let mut k: usize = 0;
    while k < bytes.len()
        invariant
            k <= bytes.len(),
            forall|j: int| 0 <= j < k ==> bytes@[j] != b,
        decreases bytes.len() - k,
    {
        if bytes[k] == b {
            return true;
        }
        k += 1;
    }
    false
}

/// Reads the regular expression at `span`.
pub fn read_regexp_at(src: &[u8], span: Span) -> (body: Option<PatternBody>)
    requires
        span.start < span.end <= src.len(),
    ensures
        match body {
            Some(b) => regexp_at(src@, span) == Some(b.model()),
            None => regexp_at(src@, span) is None,
        },
{
    match find_regexp_end(src, span.start + 1) {
        Some(close) => {
            if close <= span.end {
                let flags = slice_subrange(src, close, span.end);
                let source = crate::string_pool::copy_bytes(
                    slice_subrange(src, span.start + 1, close - 1),
                );
                Some(
                    PatternBody::Regexp {
                        source,
                        case_insensitive: holds_byte(flags, 0x69),
                        dot_matches_new_line: holds_byte(flags, 0x73),
                    },
                )
            } else {
                None
            }
        },
        None => None,
    }
}

/// Reads what the pattern whose identifier is token `ident` looks for,
/// which token `i` says.
pub fn parse_pattern_body(src: &[u8], t: &[Token], i: usize, ident: usize) -> (r: Result<
    PatternBody,
    Failure,
>)
    requires
        well_lexed(src@, t@),
        i < t.len(),
        ident < t.len(),
    ensures
        match r {
            Ok(body) => pattern_body(src@, t@, i as int, ident as int) == Ok::<BodyTree, Failure>(
                body.model(),
            ) && rule_at(t@, i as int) != GrammarRule::EOI,
            Err(f) => pattern_body(src@, t@, i as int, ident as int) == Err::<BodyTree, Failure>(f)
                && f.span.within(src@.len()),
        },
{
    let span = t[i].span;
    match t[i].rule {
        GrammarRule::string_lit => match read_string_at(src, span) {
            Ok(bytes) => Ok(PatternBody::Text(bytes)),
            Err(at) => Err(
                Failure { flaw: Flaw::InvalidEscapeSequence, span: Span::new(at, at + 1) },
            ),
        },
        GrammarRule::hex_pattern => {
            let body = slice_subrange(src, span.start + 1, span.end - 1);
            match find_hex_flaw(body) {
                Some(at) => Err(
                    Failure {
                        flaw: Flaw::InvalidHexString(t[ident].span),
                        span: Span::new(span.start + 1 + at, span.start + 2 + at),
                    },
                ),
                None => Ok(PatternBody::Hex(crate::string_pool::copy_bytes(body))),
            }
        },
        GrammarRule::regexp => match read_regexp_at(src, span) {
            Some(body) => Ok(body),
            None => Err(unexpected(t, i, Expected::PatternBody)),
        },
        _ => Err(unexpected(t, i, Expected::PatternBody)),
    }
}

/// Reads the section of strings, if one begins at token `i`.
pub fn parse_string_section(src: &[u8], t: &[Token], i: usize) -> (r: Result<
    (Vec<Ident>, Vec<PatternDef>, usize),
    Failure,
>)
    requires
        well_lexed(src@, t@),
        i < t.len(),
    ensures
        match r {
            Ok((idents, definitions, n)) => string_section(src@, t@, i as int) == Parsed::Done(
                (names(idents@), defs(definitions@)),
                n as int,
            ) && i <= n < t.len() && idents_within(idents@, src@.len()) && idents@.len() <= n - i
                && definitions@.len() == idents@.len(),
            Err(f) => string_section(src@, t@, i as int) == Parsed::<
                (Seq<Name>, Seq<DefTree>),
            >::Fail(f) && f.span.within(src@.len()),
        },
{
    let mut idents: Vec<Ident> = Vec::new();
    let mut definitions: Vec<PatternDef> = Vec::new();
    assert(names(idents@) =~= Seq::<Name>::empty());
    assert(defs(definitions@) =~= Seq::<DefTree>::empty());
    if !has_rule(t, i, GrammarRule::k_STRINGS) {
        return Ok((idents, definitions, i));
    }
    proof {
        lemma_next(src@, t@, i as int);
    }
    if !has_rule(t, i + 1, GrammarRule::COLON) {
        return Err(unexpected(t, i + 1, Expected::One(GrammarRule::COLON)));
    }
    proof {
        lemma_next(src@, t@, i + 1);
    }
    let mut at: usize = i + 2;
    while has_rule(t, at, GrammarRule::string_ident)
        invariant
            well_lexed(src@, t@),
            i + 2 <= at < t.len(),
            idents_within(idents@, src@.len()),
            idents@.len() <= at - i,
            definitions@.len() == idents@.len(),
            string_section(src@, t@, i as int) == string_defs(
                src@,
                t@,
                i + 2,
                Seq::empty(),
                Seq::empty(),
            ),
            string_defs(src@, t@, i + 2, Seq::empty(), Seq::empty()) == string_defs(
                src@,
                t@,
                at as int,
                names(idents@),
                defs(definitions@),
            ),
        decreases t.len() - at,
    {
        proof {
            lemma_next(src@, t@, at as int);
        }
        if !has_rule(t, at + 1, GrammarRule::EQUAL) {
            return Err(unexpected(t, at + 1, Expected::One(GrammarRule::EQUAL)));
        }
        proof {
            lemma_next(src@, t@, at + 1);
        }
        let body = match parse_pattern_body(src, t, at + 2, at) {
            Ok(body) => body,
            Err(f) => {
                return Err(f);
            },
        };
        proof {
            lemma_next(src@, t@, at + 2);
        }
        let end = match parse_string_mods(src, t, at + 3) {
            Ok(n) => n,
            Err(f) => {
                return Err(f);
            },
        };
        let ghost before = names(idents@);
        let ghost held = defs(definitions@);
        let ident = ident_at(src, t, at);
        idents.push(ident);
        let definition = PatternDef { body, modifiers: read_modifiers(t, at + 3, end) };
        let ghost tree = definition.model();
        definitions.push(definition);
        assert(names(idents@) =~= before.push(name_at(src@, t@, at as int)));
        assert(defs(definitions@) =~= held.push(tree));
        at = end;
    }
    if idents.len() == 0 {
        Err(unexpected(t, at, Expected::One(GrammarRule::string_ident)))
    } else if has_rule(t, at, GrammarRule::k_CONDITION) {
        Ok((idents, definitions, at))
    } else {
        Err(unexpected(t, at, Expected::StringOrCondition))
    }
}

/// Reads the condition of a rule, whose section begins at token `i`.
pub fn parse_condition_section(src: &[u8], t: &[Token], i: usize) -> (r: Result<
    (crate::parser::ast::Expr, usize),
    Failure,
>)
    requires
        well_lexed(src@, t@),
        i < t.len(),
    ensures
        crate::parser::expressions::agrees(r, condition_section(src@, t@, i as int)),
        r matches Ok((e, n)) ==> i < n && n + 1 < t.len() && expr_within(e, src@.len()),
        r matches Err(f) ==> f.span.within(src@.len()),
{
    if !has_rule(t, i, GrammarRule::k_CONDITION) {
        return Err(unexpected(t, i, Expected::Section));
    }
    proof {
        lemma_next(src@, t@, i as int);
    }
    if !has_rule(t, i + 1, GrammarRule::COLON) {
        return Err(unexpected(t, i + 1, Expected::One(GrammarRule::COLON)));
    }
    proof {
        lemma_next(src@, t@, i + 1);
    }
    match parse_boolean_expr(src, t, i + 2) {
        Ok((condition, n)) => {
            if has_rule(t, n, GrammarRule::RBRACE) {
                proof {
                    lemma_next(src@, t@, n as int);
                }
                Ok((condition, n))
            } else {
                Err(unexpected(t, n, Expected::One(GrammarRule::RBRACE)))
            }
        },
        Err(f) => Err(f),
    }
}

/// Reads a rule, which begins at token `i`.
pub fn parse_rule(src: &[u8], t: &[Token], i: usize) -> (r: Result<(Rule, usize), Failure>)
    requires
        well_lexed(src@, t@),
        i < t.len(),
    ensures
        match r {
            Ok((rule, n)) => rule_decl(src@, t@, i as int) == Parsed::Done(rule.model(), n as int)
                && i < n < t.len() && rule_within(rule, src@.len()) && 1 + rule.patterns@.len()
                <= n - i && rule.definitions@.len() == rule.patterns@.len(),
            Err(f) => rule_decl(src@, t@, i as int) == Parsed::<RuleTree>::Fail(f) && f.span.within(
                src@.len(),
            ),
        },
{
    let r = match parse_rule_keyword(src, t, i) {
        Ok(r) => r,
        Err(f) => {
            return Err(f);
        },
    };
    if !has_rule(t, r + 1, GrammarRule::ident) {
        return Err(unexpected(t, r + 1, Expected::One(GrammarRule::ident)));
    }
    proof {
        lemma_next(src@, t@, r + 1);
    }
    let identifier = ident_at(src, t, r + 1);
    let (tags, b) = match parse_tags(src, t, r + 2) {
        Ok(found) => found,
        Err(f) => {
            return Err(f);
        },
    };
    let (meta, s) = match parse_meta_section(src, t, b + 1) {
        Ok(found) => found,
        Err(f) => {
            return Err(f);
        },
    };
    let (patterns, definitions, c) = match parse_string_section(src, t, s) {
        Ok(found) => found,
        Err(f) => {
            return Err(f);
        },
    };
    let (condition, e) = match parse_condition_section(src, t, c) {
        Ok(found) => found,
        Err(f) => {
            return Err(f);
        },
    };
    let modifiers = RuleModifiers {
        private: has_among(t, i, r, GrammarRule::k_PRIVATE),
        global: has_among(t, i, r, GrammarRule::k_GLOBAL),
    };
    Ok((Rule { modifiers, identifier, tags, meta, patterns, definitions, condition }, e + 1))
}

/// Reads an import, which begins at token `i`.
pub fn parse_import(src: &[u8], t: &[Token], i: usize) -> (r: Result<(Import, usize), Failure>)
    requires
        well_lexed(src@, t@),
        i < t.len(),
        rule_at(t@, i as int) == GrammarRule::k_IMPORT,
    ensures
        match r {
            Ok((import, n)) => import_stmt(src@, t@, i as int) == Parsed::Done(
                import.model(),
                n as int,
            ) && i < n < t.len() && import.span.within(src@.len()),
            Err(f) => import_stmt(src@, t@, i as int) == Parsed::<ImportTree>::Fail(f)
                && f.span.within(src@.len()),
        },
{
    proof {
        lemma_next(src@, t@, i as int);
    }
    if !has_rule(t, i + 1, GrammarRule::string_lit) {
        return Err(unexpected(t, i + 1, Expected::One(GrammarRule::string_lit)));
    }
    proof {
        lemma_next(src@, t@, i + 1);
    }
    match read_string_at(src, t[i + 1].span) {
        Err(at) => Err(Failure { flaw: Flaw::InvalidEscapeSequence, span: Span::new(at, at + 1) }),
        Ok(bytes) => {
            let span = Span::new(t[i].span.start, t[i + 1].span.end);
            proof {
                lemma_ordered(src@, t@, i as int, i + 1);
            }
            Ok((Import { module_name: text_from(bytes.as_slice()), span }, i + 2))
        },
    }
}

/// A rule behind others adds itself and its patterns to their size.
pub proof fn lemma_rules_size_push(rules: Seq<Rule>, rule: Rule, k: int)
    requires
        0 <= k <= rules.len(),
    ensures
        rules_size(rules.push(rule), k) == rules_size(rules, k) + 1 + rule.patterns@.len(),
    decreases rules.len() - k,
{
    if k < rules.len() {
        lemma_rules_size_push(rules, rule, k + 1);
        assert(rules.push(rule)[k] == rules[k]);
    } else {
        assert(rules_size(rules.push(rule), k + 1) == 0);
    }
}

/// The imports and rules of a namespace are those of a tree.
pub open spec fn holds(imports: Seq<Import>, rules: Seq<Rule>) -> FileTree {
    FileTree {
        imports: Seq::new(imports.len(), |k: int| imports[k].model()),
        rules: Seq::new(rules.len(), |k: int| rules[k].model()),
    }
}

/// Parses a source: its imports and rules make one namespace.
#[verifier::loop_isolation(false)]
pub fn parse(src: &[u8]) -> (r: Result<SourceFile, Failure>)
    ensures
        match r {
            Ok(file) => file.namespaces@.len() == 1 && parsed(src@) == Ok::<FileTree, Failure>(
                file.namespaces@[0].model(),
            ) && namespace_within(file.namespaces@[0], src@.len()) && namespaces_size(
                file.namespaces@,
                0,
            ) <= src@.len() + 1,
            Err(f) => parsed(src@) == Err::<FileTree, Failure>(f) && f.span.within(src@.len()),
        },
{
    let list = match tokenize(src) {
        Ok(list) => list,
        Err(f) => {
            return Err(f);
        },
    };
    let t = list.as_slice();
    let mut imports: Vec<Import> = Vec::new();
    let mut rules: Vec<Rule> = Vec::new();
    let mut at: usize = 0;
    let ghost start = FileTree { imports: Seq::empty(), rules: Seq::empty() };
    assert(holds(imports@, rules@) =~= start) by {
        assert(holds(imports@, rules@).imports =~= start.imports);
        assert(holds(imports@, rules@).rules =~= start.rules);
    }
    loop
        invariant
            well_lexed(src@, t@),
            tokens(src@) == Ok::<Seq<Token>, Failure>(t@),
            at < t.len(),
            t@.len() <= src@.len() + 1,
            imports@.len() + rules_size(rules@, 0) <= at,
            forall|k: int| 0 <= k < imports@.len() ==> (#[trigger] imports@[k]).span.within(src@.len()),
            forall|k: int| 0 <= k < rules@.len() ==> rule_within(#[trigger] rules@[k], src@.len()),
            items(src@, t@, 0, start) == items(src@, t@, at as int, holds(imports@, rules@)),
        decreases t.len() - at,
    {
        let ghost before = holds(imports@, rules@);
        if has_rule(t, at, GrammarRule::EOI) {
            let ghost tree = holds(imports@, rules@);
            let namespace = Namespace { imports, rules };
            proof {
                assert(namespace.model().imports =~= tree.imports);
                assert(namespace.model().rules =~= tree.rules);
            }
            let mut namespaces: Vec<Namespace> = Vec::new();
            namespaces.push(namespace);
            proof {
                assert(namespaces_size(namespaces@, 1) == 0);
                assert(namespaces_size(namespaces@, 0) == namespace.imports@.len() + rules_size(
                    namespace.rules@,
                    0,
                ));
            }
            return Ok(SourceFile { namespaces });
        } else if has_rule(t, at, GrammarRule::k_IMPORT) {
            match parse_import(src, t, at) {
                Err(f) => {
                    return Err(f);
                },
                Ok((import, n)) => {
                    let ghost tree = import.model();
                    imports.push(import);
                    assert(holds(imports@, rules@).imports =~= before.imports.push(tree));
                    assert(holds(imports@, rules@).rules =~= before.rules);
                    at = n;
                },
            }
        } else if has_rule(t, at, GrammarRule::k_RULE) || has_rule(t, at, GrammarRule::k_PRIVATE)
            || has_rule(t, at, GrammarRule::k_GLOBAL) {
            match parse_rule(src, t, at) {
                Err(f) => {
                    return Err(f);
                },
                Ok((rule, n)) => {
                    let ghost tree = rule.model();
                    proof {
                        lemma_rules_size_push(rules@, rule, 0);
                    }
                    rules.push(rule);
                    assert(holds(imports@, rules@).rules =~= before.rules.push(tree));
                    assert(holds(imports@, rules@).imports =~= before.imports);
                    at = n;
                },
            }
        } else {
            return Err(unexpected(t, at, Expected::Item));
        }
    }
}

} // verus!
