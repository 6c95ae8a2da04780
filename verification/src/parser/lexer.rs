//! From the bytes of a source to its tokens.
//!
//! White space and comments separate tokens and are no tokens themselves.
//! A word is a keyword or an identifier; `$` begins the identifier of a
//! pattern; a number is written in decimal, or in hexadecimal behind `0x`; a
//! string literal stands between double quotes on one line. Behind an equal
//! sign, a brace opens a hex pattern, which ends with the next closing
//! brace, and a slash opens a regular expression, which ends with the next
//! slash on its line that no backslash stands before, and the flags `i` and
//! `s` behind it.

use crate::modules::string_equal;
use crate::parser::failure::{Failure, Flaw};
use crate::parser::grammar::GrammarRule;
use crate::parser::span::Span;
use vstd::prelude::*;
use vstd::slice::slice_subrange;

verus! {

pub const TAB: u8 = 0x09;

pub const NEWLINE: u8 = 0x0a;

pub const RETURN: u8 = 0x0d;

pub const SPACE: u8 = 0x20;

pub const QUOTE: u8 = 0x22;

pub const DOLLAR: u8 = 0x24;

pub const STAR: u8 = 0x2a;

pub const SLASH: u8 = 0x2f;

pub const ZERO: u8 = 0x30;

pub const BACKSLASH: u8 = 0x5c;

pub const UNDERSCORE: u8 = 0x5f;

pub const SMALL_X: u8 = 0x78;

pub const OPENING_BRACE: u8 = 0x7b;

pub const CLOSING_BRACE: u8 = 0x7d;

/// A token: the grammar rule it is, and where it stands.
#[derive(Clone, Copy, Debug, PartialEq, Eq, Structural)]
pub struct Token {
    pub rule: GrammarRule,
    pub span: Span,
}

pub open spec fn is_space(b: u8) -> bool {
    b == SPACE || b == TAB || b == NEWLINE || b == RETURN
}

pub open spec fn is_digit(b: u8) -> bool {
    0x30 <= b <= 0x39
}

/// A letter of ASCII, or the underscore.
pub open spec fn is_letter(b: u8) -> bool {
    (0x41 <= b <= 0x5a) || (0x61 <= b <= 0x7a) || b == UNDERSCORE
}

pub open spec fn is_hex_digit(b: u8) -> bool {
    is_digit(b) || (0x41 <= b <= 0x46) || (0x61 <= b <= 0x66)
}

/// What a digit counts, in decimal or hexadecimal.
pub open spec fn digit_value(b: u8) -> nat {
    if is_digit(b) {
        (b - 0x30) as nat
    } else if 0x41 <= b <= 0x46 {
        (b - 0x41 + 10) as nat
    } else if 0x61 <= b <= 0x66 {
        (b - 0x61 + 10) as nat
    } else {
        0
    }
}

/// The classes of bytes that a token is a run of.
#[derive(Clone, Copy, Debug, PartialEq, Eq, Structural)]
pub enum Class {
    /// Letters, digits and the underscore.
    Word,
    Digit,
    HexDigit,
    /// The flags of a regular expression: `i` and `s`.
    Flag,
    /// White space.
    Space,
}

impl Class {
    pub open spec fn holds(self, b: u8) -> bool {
        match self {
            Class::Word => is_letter(b) || is_digit(b),
            Class::Digit => is_digit(b),
            Class::HexDigit => is_hex_digit(b),
            Class::Flag => b == 0x69 || b == 0x73,
            Class::Space => is_space(b),
        }
    }

    /// Tells whether the byte is of the class.
    pub fn has(&self, b: u8) -> (r: bool)
        ensures
            r == self.holds(b),
    {
        let digit = 0x30 <= b && b <= 0x39;
        match self {
            Class::Word => (0x41 <= b && b <= 0x5a) || (0x61 <= b && b <= 0x7a) || b == UNDERSCORE
                || digit,
            Class::Digit => digit,
            Class::HexDigit => digit || (0x41 <= b && b <= 0x46) || (0x61 <= b && b <= 0x66),
            Class::Flag => b == 0x69 || b == 0x73,
            Class::Space => b == SPACE || b == TAB || b == NEWLINE || b == RETURN,
        }
    }
}

/// The first position from `pos` on whose byte is not of the class, or the
/// end of the source.
pub open spec fn run_end(src: Seq<u8>, pos: int, class: Class) -> int
    decreases src.len() - pos,
{
    if 0 <= pos < src.len() && class.holds(src[pos]) {
        run_end(src, pos + 1, class)
    } else {
        pos
    }
}

/// The end of the run of bytes of a class that begins at `pos`.
pub fn run(src: &[u8], pos: usize, class: Class) -> (end: usize)
    requires
        pos <= src.len(),
    ensures
        end == run_end(src@, pos as int, class),
        pos <= end <= src.len(),
{
    let mut end: usize = pos;
    while end < src.len() && class.has(src[end])
        invariant
            pos <= end <= src.len(),
            run_end(src@, pos as int, class) == run_end(src@, end as int, class),
        decreases src.len() - end,
    {
        end += 1;
    }
    end
}

/// Where the scanner is while it passes over what is no token.
#[derive(Clone, Copy, Debug, PartialEq, Eq, Structural)]
pub enum Mode {
    /// Between tokens.
    Code,
    /// In a comment that ends with its line.
    LineComment,
    /// In a comment between `/*` and `*/`.
    BlockComment,
}

/// Whether the bytes `a`, `b` stand at `pos`.
pub open spec fn pair_at(src: Seq<u8>, pos: int, a: u8, b: u8) -> bool {
    0 <= pos && pos + 1 < src.len() && src[pos] == a && src[pos + 1] == b
}

/// The position of the first byte from `pos` on that is neither white space
/// nor part of a comment; the end of the source where there is none. `None`
/// where a comment between `/*` and `*/` does not end.
pub open spec fn trivia_end(src: Seq<u8>, pos: int, mode: Mode) -> Option<int>
    decreases src.len() - pos,
{
    if !(0 <= pos < src.len()) {
        if mode == Mode::BlockComment {
            None
        } else {
            Some(pos)
        }
    } else {
        match mode {
            Mode::Code => if is_space(src[pos]) {
                trivia_end(src, pos + 1, Mode::Code)
            } else if pair_at(src, pos, SLASH, SLASH) {
                trivia_end(src, pos + 2, Mode::LineComment)
            } else if pair_at(src, pos, SLASH, STAR) {
                trivia_end(src, pos + 2, Mode::BlockComment)
            } else {
                Some(pos)
            },
            Mode::LineComment => if src[pos] == NEWLINE {
                trivia_end(src, pos + 1, Mode::Code)
            } else {
                trivia_end(src, pos + 1, Mode::LineComment)
            },
            Mode::BlockComment => if pair_at(src, pos, STAR, SLASH) {
                trivia_end(src, pos + 2, Mode::Code)
            } else {
                trivia_end(src, pos + 1, Mode::BlockComment)
            },
        }
    }
}

/// Tells whether the bytes `a`, `b` stand at `pos`.
pub fn has_pair(src: &[u8], pos: usize, a: u8, b: u8) -> (r: bool)
    requires
        pos < src.len(),
    ensures
        r == pair_at(src@, pos as int, a, b),
{
    pos + 1 < src.len() && src[pos] == a && src[pos + 1] == b
}

/// Passes over white space and comments from `pos` on.
pub fn skip_trivia(src: &[u8], pos: usize) -> (end: Option<usize>)
    requires
        pos <= src.len(),
    ensures
        match end {
            Some(p) => trivia_end(src@, pos as int, Mode::Code) == Some(p as int) && pos <= p
                <= src.len(),
            None => trivia_end(src@, pos as int, Mode::Code) is None,
        },
{
    let mut at: usize = pos;
    let mut mode = Mode::Code;
    while at < src.len()
        invariant
            pos <= at <= src.len(),
            trivia_end(src@, pos as int, Mode::Code) == trivia_end(src@, at as int, mode),
        decreases src.len() - at,
    {
        let b = src[at];
        match mode {
            Mode::Code => {
                if b == SPACE || b == TAB || b == NEWLINE || b == RETURN {
                    at += 1;
                } else if has_pair(src, at, SLASH, SLASH) {
                    at += 2;
                    mode = Mode::LineComment;
                } else if has_pair(src, at, SLASH, STAR) {
                    at += 2;
                    mode = Mode::BlockComment;
                } else {
                    return Some(at);
                }
            },
            Mode::LineComment => {
                if b == NEWLINE {
                    mode = Mode::Code;
                }
                at += 1;
            },
            Mode::BlockComment => {
                if has_pair(src, at, STAR, SLASH) {
                    at += 2;
                    mode = Mode::Code;
                } else {
                    at += 1;
                }
            },
        }
    }
    match mode {
        Mode::BlockComment => None,
        _ => Some(at),
    }
}

/// The position behind the quote that ends the string literal whose body
/// begins at `pos`. A backslash takes the byte behind it along. `None` where
/// the line or the source ends first.
pub open spec fn string_end(src: Seq<u8>, pos: int) -> Option<int>
    decreases src.len() - pos,
{
    if !(0 <= pos < src.len()) || src[pos] == NEWLINE {
        None
    } else if src[pos] == QUOTE {
        Some(pos + 1)
    } else if src[pos] == BACKSLASH && pos + 1 < src.len() && src[pos + 1] != NEWLINE {
        string_end(src, pos + 2)
    } else {
        string_end(src, pos + 1)
    }
}

/// Finds the end of the string literal whose body begins at `pos`.
pub fn find_string_end(src: &[u8], pos: usize) -> (end: Option<usize>)
    requires
        pos <= src.len(),
    ensures
        match end {
            Some(e) => string_end(src@, pos as int) == Some(e as int) && pos < e <= src.len(),
            None => string_end(src@, pos as int) is None,
        },
{
    let mut at: usize = pos;
    while at < src.len()
        invariant
            pos <= at <= src.len(),
            string_end(src@, pos as int) == string_end(src@, at as int),
        decreases src.len() - at,
    {
        let b = src[at];
        if b == NEWLINE {
            return None;
        } else if b == QUOTE {
            return Some(at + 1);
        } else if b == BACKSLASH && at + 1 < src.len() && src[at + 1] != NEWLINE {
            at += 2;
        } else {
            at += 1;
        }
    }
    None
}

/// The position behind the brace that closes the hex pattern whose body
/// begins at `pos`. `None` where the source ends first.
pub open spec fn hex_end(src: Seq<u8>, pos: int) -> Option<int>
    decreases src.len() - pos,
{
    if !(0 <= pos < src.len()) {
        None
    } else if src[pos] == CLOSING_BRACE {
        Some(pos + 1)
    } else {
        hex_end(src, pos + 1)
    }
}

/// Finds the end of the hex pattern whose body begins at `pos`.
pub fn find_hex_end(src: &[u8], pos: usize) -> (end: Option<usize>)
    requires
        pos <= src.len(),
    ensures
        match end {
            Some(e) => hex_end(src@, pos as int) == Some(e as int) && pos < e <= src.len(),
            None => hex_end(src@, pos as int) is None,
        },
{
    let mut at: usize = pos;
    while at < src.len()
        invariant
            pos <= at <= src.len(),
            hex_end(src@, pos as int) == hex_end(src@, at as int),
        decreases src.len() - at,
    {
        if src[at] == CLOSING_BRACE {
            return Some(at + 1);
        }
        at += 1;
    }
    None
}

/// The position behind the slash that closes the regular expression whose
/// body begins at `pos`. A backslash takes the byte behind it along. `None`
/// where the line or the source ends first.
pub open spec fn regexp_end(src: Seq<u8>, pos: int) -> Option<int>
    decreases src.len() - pos,
{
    if !(0 <= pos < src.len()) || src[pos] == NEWLINE {
        None
    } else if src[pos] == SLASH {
        Some(pos + 1)
    } else if src[pos] == BACKSLASH && pos + 1 < src.len() && src[pos + 1] != NEWLINE {
        regexp_end(src, pos + 2)
    } else {
        regexp_end(src, pos + 1)
    }
}

/// Finds the end of the regular expression whose body begins at `pos`.
pub fn find_regexp_end(src: &[u8], pos: usize) -> (end: Option<usize>)
    requires
        pos <= src.len(),
    ensures
        match end {
            Some(e) => regexp_end(src@, pos as int) == Some(e as int) && pos < e <= src.len(),
            None => regexp_end(src@, pos as int) is None,
        },
{
    let mut at: usize = pos;
    while at < src.len()
        invariant
            pos <= at <= src.len(),
            regexp_end(src@, pos as int) == regexp_end(src@, at as int),
        decreases src.len() - at,
    {
        let b = src[at];
        if b == NEWLINE {
            return None;
        } else if b == SLASH {
            return Some(at + 1);
        } else if b == BACKSLASH && at + 1 < src.len() && src[at + 1] != NEWLINE {
            at += 2;
        } else {
            at += 1;
        }
    }
    None
}

/// The end of the number that begins at `pos`: behind `0x` and at least one
/// hexadecimal digit, the run of such digits; else the run of decimal digits.
pub open spec fn number_end(src: Seq<u8>, pos: int) -> int {
    if is_hex_number(src, pos) {
        run_end(src, pos + 2, Class::HexDigit)
    } else {
        run_end(src, pos, Class::Digit)
    }
}

/// `0x` and a hexadecimal digit stand at `pos`.
pub open spec fn is_hex_number(src: Seq<u8>, pos: int) -> bool {
    pair_at(src, pos, ZERO, SMALL_X) && pos + 2 < src.len() && is_hex_digit(src[pos + 2])
}

/// Tells whether a number in hexadecimal begins at `pos`.
pub fn hex_number_at(src: &[u8], pos: usize) -> (r: bool)
    requires
        pos < src.len(),
    ensures
        r == is_hex_number(src@, pos as int),
{
    has_pair(src, pos, ZERO, SMALL_X) && pos + 2 < src.len() && Class::HexDigit.has(src[pos + 2])
}

/// The punctuation that begins at `pos`, with its length: the longest that
/// fits.
pub open spec fn punctuation(src: Seq<u8>, pos: int) -> Option<(GrammarRule, int)> {
    if !(0 <= pos < src.len()) {
        None
    } else if pair_at(src, pos, 0x3d, 0x3d) {
        Some((GrammarRule::EQ, 2))
    } else if pair_at(src, pos, 0x21, 0x3d) {
        Some((GrammarRule::NEQ, 2))
    } else if pair_at(src, pos, 0x3c, 0x3d) {
        Some((GrammarRule::LE, 2))
    } else if pair_at(src, pos, 0x3e, 0x3d) {
        Some((GrammarRule::GE, 2))
    } else if pair_at(src, pos, 0x3c, 0x3c) {
        Some((GrammarRule::SHL, 2))
    } else if pair_at(src, pos, 0x3e, 0x3e) {
        Some((GrammarRule::SHR, 2))
    } else {
        match single(src[pos]) {
            Some(rule) => Some((rule, 1)),
            None => None,
        }
    }
}

/// The punctuation that is one character.
pub open spec fn single(b: u8) -> Option<GrammarRule> {
    if b == 0x3d {
        Some(GrammarRule::EQUAL)
    } else if b == 0x3c {
        Some(GrammarRule::LT)
    } else if b == 0x3e {
        Some(GrammarRule::GT)
    } else if b == 0x28 {
        Some(GrammarRule::LPAREN)
    } else if b == 0x29 {
        Some(GrammarRule::RPAREN)
    } else if b == 0x7b {
        Some(GrammarRule::LBRACE)
    } else if b == 0x7d {
        Some(GrammarRule::RBRACE)
    } else if b == 0x5b {
        Some(GrammarRule::LBRACKET)
    } else if b == 0x5d {
        Some(GrammarRule::RBRACKET)
    } else if b == 0x3a {
        Some(GrammarRule::COLON)
    } else if b == 0x2c {
        Some(GrammarRule::COMMA)
    } else if b == 0x2e {
        Some(GrammarRule::DOT)
    } else if b == 0x2b {
        Some(GrammarRule::ADD)
    } else if b == 0x2d {
        Some(GrammarRule::MINUS)
    } else if b == STAR {
        Some(GrammarRule::MUL)
    } else if b == BACKSLASH {
        Some(GrammarRule::DIV)
    } else if b == 0x25 {
        Some(GrammarRule::PERCENT)
    } else if b == 0x26 {
        Some(GrammarRule::BITWISE_AND)
    } else if b == 0x7c {
        Some(GrammarRule::BITWISE_OR)
    } else if b == 0x5e {
        Some(GrammarRule::BITWISE_XOR)
    } else {
        None
    }
}

/// The punctuation that the byte is by itself.
pub fn single_of(b: u8) -> (rule: Option<GrammarRule>)
    ensures
        rule == single(b),
{
    if b == 0x3d {
        Some(GrammarRule::EQUAL)
    } else if b == 0x3c {
        Some(GrammarRule::LT)
    } else if b == 0x3e {
        Some(GrammarRule::GT)
    } else if b == 0x28 {
        Some(GrammarRule::LPAREN)
    } else if b == 0x29 {
        Some(GrammarRule::RPAREN)
    } else if b == 0x7b {
        Some(GrammarRule::LBRACE)
    } else if b == 0x7d {
        Some(GrammarRule::RBRACE)
    } else if b == 0x5b {
        Some(GrammarRule::LBRACKET)
    } else if b == 0x5d {
        Some(GrammarRule::RBRACKET)
    } else if b == 0x3a {
        Some(GrammarRule::COLON)
    } else if b == 0x2c {
        Some(GrammarRule::COMMA)
    } else if b == 0x2e {
        Some(GrammarRule::DOT)
    } else if b == 0x2b {
        Some(GrammarRule::ADD)
    } else if b == 0x2d {
        Some(GrammarRule::MINUS)
    } else if b == STAR {
        Some(GrammarRule::MUL)
    } else if b == BACKSLASH {
        Some(GrammarRule::DIV)
    } else if b == 0x25 {
        Some(GrammarRule::PERCENT)
    } else if b == 0x26 {
        Some(GrammarRule::BITWISE_AND)
    } else if b == 0x7c {
        Some(GrammarRule::BITWISE_OR)
    } else if b == 0x5e {
        Some(GrammarRule::BITWISE_XOR)
    } else {
        None
    }
}

/// The punctuation that begins at `pos`, with its length.
pub fn punctuation_at(src: &[u8], pos: usize) -> (found: Option<(GrammarRule, usize)>)
    requires
        pos < src.len(),
    ensures
        match found {
            Some((rule, n)) => punctuation(src@, pos as int) == Some((rule, n as int)) && 1 <= n
                && pos + n <= src.len(),
            None => punctuation(src@, pos as int) is None,
        },
{
    if has_pair(src, pos, 0x3d, 0x3d) {
        Some((GrammarRule::EQ, 2))
    } else if has_pair(src, pos, 0x21, 0x3d) {
        Some((GrammarRule::NEQ, 2))
    } else if has_pair(src, pos, 0x3c, 0x3d) {
        Some((GrammarRule::LE, 2))
    } else if has_pair(src, pos, 0x3e, 0x3d) {
        Some((GrammarRule::GE, 2))
    } else if has_pair(src, pos, 0x3c, 0x3c) {
        Some((GrammarRule::SHL, 2))
    } else if has_pair(src, pos, 0x3e, 0x3e) {
        Some((GrammarRule::SHR, 2))
    } else {
        match single_of(src[pos]) {
            Some(rule) => Some((rule, 1)),
            None => None,
        }
    }
}

/// The keyword that a word is, if it is one.
pub open spec fn keyword(word: Seq<char>) -> Option<GrammarRule> {
    if word == "all"@ {
        Some(GrammarRule::k_ALL)
    } else if word == "and"@ {
        Some(GrammarRule::k_AND)
    } else if word == "any"@ {
        Some(GrammarRule::k_ANY)
    } else if word == "ascii"@ {
        Some(GrammarRule::k_ASCII)
    } else if word == "at"@ {
        Some(GrammarRule::k_AT)
    } else if word == "base64"@ {
        Some(GrammarRule::k_BASE64)
    } else if word == "base64wide"@ {
        Some(GrammarRule::k_BASE64WIDE)
    } else if word == "condition"@ {
        Some(GrammarRule::k_CONDITION)
    } else if word == "contains"@ {
        Some(GrammarRule::k_CONTAINS)
    } else if word == "endswith"@ {
        Some(GrammarRule::k_ENDSWITH)
    } else if word == "false"@ {
        Some(GrammarRule::k_FALSE)
    } else if word == "filesize"@ {
        Some(GrammarRule::k_FILESIZE)
    } else if word == "for"@ {
        Some(GrammarRule::k_FOR)
    } else if word == "fullword"@ {
        Some(GrammarRule::k_FULLWORD)
    } else if word == "global"@ {
        Some(GrammarRule::k_GLOBAL)
    } else if word == "icontains"@ {
        Some(GrammarRule::k_ICONTAINS)
    } else if word == "iendswith"@ {
        Some(GrammarRule::k_IENDSWITH)
    } else if word == "iequals"@ {
        Some(GrammarRule::k_IEQUALS)
    } else if word == "import"@ {
        Some(GrammarRule::k_IMPORT)
    } else if word == "in"@ {
        Some(GrammarRule::k_IN)
    } else if word == "istartswith"@ {
        Some(GrammarRule::k_ISTARTSWITH)
    } else if word == "matches"@ {
        Some(GrammarRule::k_MATCHES)
    } else if word == "meta"@ {
        Some(GrammarRule::k_META)
    } else if word == "nocase"@ {
        Some(GrammarRule::k_NOCASE)
    } else if word == "not"@ {
        Some(GrammarRule::k_NOT)
    } else if word == "of"@ {
        Some(GrammarRule::k_OF)
    } else if word == "or"@ {
        Some(GrammarRule::k_OR)
    } else if word == "private"@ {
        Some(GrammarRule::k_PRIVATE)
    } else if word == "rule"@ {
        Some(GrammarRule::k_RULE)
    } else if word == "startswith"@ {
        Some(GrammarRule::k_STARTSWITH)
    } else if word == "strings"@ {
        Some(GrammarRule::k_STRINGS)
    } else if word == "them"@ {
        Some(GrammarRule::k_THEM)
    } else if word == "true"@ {
        Some(GrammarRule::k_TRUE)
    } else if word == "wide"@ {
        Some(GrammarRule::k_WIDE)
    } else if word == "xor"@ {
        Some(GrammarRule::k_XOR)
    } else {
        None
    }
}

/// The keyword that a word is, if it is one.
pub fn keyword_of(word: &str) -> (rule: Option<GrammarRule>)
    ensures
        rule == keyword(word@),
{
    if string_equal(word, "all") {
        Some(GrammarRule::k_ALL)
    } else if string_equal(word, "and") {
        Some(GrammarRule::k_AND)
    } else if string_equal(word, "any") {
        Some(GrammarRule::k_ANY)
    } else if string_equal(word, "ascii") {
        Some(GrammarRule::k_ASCII)
    } else if string_equal(word, "at") {
        Some(GrammarRule::k_AT)
    } else if string_equal(word, "base64") {
        Some(GrammarRule::k_BASE64)
    } else if string_equal(word, "base64wide") {
        Some(GrammarRule::k_BASE64WIDE)
    } else if string_equal(word, "condition") {
        Some(GrammarRule::k_CONDITION)
    } else if string_equal(word, "contains") {
        Some(GrammarRule::k_CONTAINS)
    } else if string_equal(word, "endswith") {
        Some(GrammarRule::k_ENDSWITH)
    } else if string_equal(word, "false") {
        Some(GrammarRule::k_FALSE)
    } else if string_equal(word, "filesize") {
        Some(GrammarRule::k_FILESIZE)
    } else if string_equal(word, "for") {
        Some(GrammarRule::k_FOR)
    } else if string_equal(word, "fullword") {
        Some(GrammarRule::k_FULLWORD)
    } else if string_equal(word, "global") {
        Some(GrammarRule::k_GLOBAL)
    } else if string_equal(word, "icontains") {
        Some(GrammarRule::k_ICONTAINS)
    } else if string_equal(word, "iendswith") {
        Some(GrammarRule::k_IENDSWITH)
    } else if string_equal(word, "iequals") {
        Some(GrammarRule::k_IEQUALS)
    } else if string_equal(word, "import") {
        Some(GrammarRule::k_IMPORT)
    } else if string_equal(word, "in") {
        Some(GrammarRule::k_IN)
    } else if string_equal(word, "istartswith") {
        Some(GrammarRule::k_ISTARTSWITH)
    } else if string_equal(word, "matches") {
        Some(GrammarRule::k_MATCHES)
    } else if string_equal(word, "meta") {
        Some(GrammarRule::k_META)
    } else if string_equal(word, "nocase") {
        Some(GrammarRule::k_NOCASE)
    } else if string_equal(word, "not") {
        Some(GrammarRule::k_NOT)
    } else if string_equal(word, "of") {
        Some(GrammarRule::k_OF)
    } else if string_equal(word, "or") {
        Some(GrammarRule::k_OR)
    } else if string_equal(word, "private") {
        Some(GrammarRule::k_PRIVATE)
    } else if string_equal(word, "rule") {
        Some(GrammarRule::k_RULE)
    } else if string_equal(word, "startswith") {
        Some(GrammarRule::k_STARTSWITH)
    } else if string_equal(word, "strings") {
        Some(GrammarRule::k_STRINGS)
    } else if string_equal(word, "them") {
        Some(GrammarRule::k_THEM)
    } else if string_equal(word, "true") {
        Some(GrammarRule::k_TRUE)
    } else if string_equal(word, "wide") {
        Some(GrammarRule::k_WIDE)
    } else if string_equal(word, "xor") {
        Some(GrammarRule::k_XOR)
    } else {
        None
    }
}

/// Every byte stands for a character of ASCII.
pub open spec fn is_ascii(bytes: Seq<u8>) -> bool {
    forall|i: int| 0 <= i < bytes.len() ==> bytes[i] < 0x80
}

/// The characters that bytes of ASCII stand for.
pub open spec fn ascii_text(bytes: Seq<u8>) -> Seq<char> {
    Seq::new(bytes.len(), |i: int| bytes[i] as char)
}

/// The text that bytes stand for, where what is no UTF-8 is replaced.
pub uninterp spec fn lossy_text(bytes: Seq<u8>) -> Seq<char>;

/// `String::from_utf8_lossy`: the text that the bytes encode in UTF-8, with
/// the replacement character for what encodes nothing. Bytes of ASCII give
/// their characters, one for one.
#[verifier::external_body]
pub(crate) fn text_from(bytes: &[u8]) -> (text: String)
    ensures
        text@ == lossy_text(bytes@),
        is_ascii(bytes@) ==> text@ == ascii_text(bytes@),
{
    String::from_utf8_lossy(bytes).into_owned()
}

/// The text between two positions of the source.
pub open spec fn text_at(src: Seq<u8>, span: Span) -> Seq<char> {
    lossy_text(src.subrange(span.start as int, span.end as int))
}

/// The text between two positions of the source.
pub fn text_of(src: &[u8], span: Span) -> (text: String)
    requires
        span.within(src@.len()),
    ensures
        text@ == text_at(src@, span),
        is_ascii(src@.subrange(span.start as int, span.end as int)) ==> text@ == ascii_text(
            src@.subrange(span.start as int, span.end as int),
        ),
{
    text_from(slice_subrange(src, span.start, span.end))
}

/// The grammar rule of a word: a keyword, or an identifier.
pub open spec fn word_rule(word: Seq<char>) -> GrammarRule {
    match keyword(word) {
        Some(rule) => rule,
        None => GrammarRule::ident,
    }
}

/// What begins at a position of the source.
pub enum Lexed {
    /// A token of this rule, which ends at this position.
    Token(GrammarRule, int),
    /// Nothing that is a token.
    Flawed(Flaw),
}

/// The body of a pattern that begins at `pos`, behind the token `prev`, if
/// one begins there: behind an equal sign, a brace opens a hex pattern and
/// a slash a regular expression.
pub open spec fn body_at(src: Seq<u8>, pos: int, prev: GrammarRule) -> Option<Lexed> {
    if prev == GrammarRule::EQUAL && 0 <= pos < src.len() && src[pos] == OPENING_BRACE {
        Some(
            match hex_end(src, pos + 1) {
                Some(end) => Lexed::Token(GrammarRule::hex_pattern, end),
                None => Lexed::Flawed(Flaw::Unfinished(GrammarRule::hex_pattern)),
            },
        )
    } else if prev == GrammarRule::EQUAL && 0 <= pos < src.len() && src[pos] == SLASH {
        Some(
            match regexp_end(src, pos + 1) {
                Some(end) => Lexed::Token(GrammarRule::regexp, run_end(src, end, Class::Flag)),
                None => Lexed::Flawed(Flaw::Unfinished(GrammarRule::regexp)),
            },
        )
    } else {
        None
    }
}

/// The token that begins at `pos` behind the token `prev`, where something
/// other than white space and comments stands, or the source ends.
pub open spec fn token_at(src: Seq<u8>, pos: int, prev: GrammarRule) -> Lexed {
    match body_at(src, pos, prev) {
        Some(body) => body,
        None => plain_token_at(src, pos),
    }
}

/// The token that begins at `pos`, where no body of a pattern begins.
pub open spec fn plain_token_at(src: Seq<u8>, pos: int) -> Lexed {
    if !(0 <= pos < src.len()) {
        Lexed::Token(GrammarRule::EOI, pos)
    } else if is_letter(src[pos]) {
        let end = run_end(src, pos + 1, Class::Word);
        Lexed::Token(word_rule(lossy_text(src.subrange(pos, end))), end)
    } else if src[pos] == DOLLAR {
        Lexed::Token(GrammarRule::string_ident, run_end(src, pos + 1, Class::Word))
    } else if is_digit(src[pos]) {
        Lexed::Token(GrammarRule::integer_lit, number_end(src, pos))
    } else if src[pos] == QUOTE {
        match string_end(src, pos + 1) {
            Some(end) => Lexed::Token(GrammarRule::string_lit, end),
            None => Lexed::Flawed(Flaw::Unfinished(GrammarRule::string_lit)),
        }
    } else {
        match punctuation(src, pos) {
            Some((rule, n)) => Lexed::Token(rule, pos + n),
            None => Lexed::Flawed(Flaw::UnknownCharacter),
        }
    }
}

/// Reads the token that begins at `pos` behind the token `prev`.
pub fn scan_token(src: &[u8], pos: usize, prev: GrammarRule) -> (found: Result<
    (GrammarRule, usize),
    Flaw,
>)
    requires
        pos <= src.len(),
    ensures
        match found {
            Ok((rule, end)) => token_at(src@, pos as int, prev) == Lexed::Token(rule, end as int)
                && pos <= end <= src.len() && (rule != GrammarRule::EOI ==> pos < end) && (rule
                == GrammarRule::EOI ==> pos == src.len()) && token_fits(
                src@,
                Token { rule, span: span_of(pos as int, end as int) },
            ),
            Err(flaw) => token_at(src@, pos as int, prev) == Lexed::Flawed(flaw) && pos
                < src.len(),
        },
{
    if prev == GrammarRule::EQUAL && pos < src.len() && src[pos] == OPENING_BRACE {
        match find_hex_end(src, pos + 1) {
            Some(end) => Ok((GrammarRule::hex_pattern, end)),
            None => Err(Flaw::Unfinished(GrammarRule::hex_pattern)),
        }
    } else if prev == GrammarRule::EQUAL && pos < src.len() && src[pos] == SLASH {
        match find_regexp_end(src, pos + 1) {
            Some(end) => Ok((GrammarRule::regexp, run(src, end, Class::Flag))),
            None => Err(Flaw::Unfinished(GrammarRule::regexp)),
        }
    } else {
        scan_plain_token(src, pos)
    }
}

/// Reads the token that begins at `pos`, where no body of a pattern
/// begins.
pub fn scan_plain_token(src: &[u8], pos: usize) -> (found: Result<(GrammarRule, usize), Flaw>)
    requires
        pos <= src.len(),
    ensures
        match found {
            Ok((rule, end)) => plain_token_at(src@, pos as int) == Lexed::Token(rule, end as int) && pos
                <= end <= src.len() && (rule != GrammarRule::EOI ==> pos < end) && (rule
                == GrammarRule::EOI ==> pos == src.len()) && token_fits(
                src@,
                Token { rule, span: span_of(pos as int, end as int) },
            ),
            Err(flaw) => plain_token_at(src@, pos as int) == Lexed::Flawed(flaw) && pos < src.len(),
        },
{
    if pos >= src.len() {
        return Ok((GrammarRule::EOI, pos));
    }
    let b = src[pos];
    if (0x41 <= b && b <= 0x5a) || (0x61 <= b && b <= 0x7a) || b == UNDERSCORE {
        let end = run(src, pos + 1, Class::Word);
        let word = text_of(src, Span::new(pos, end));
        match keyword_of(word.as_str()) {
            Some(rule) => {
                proof {
                    lemma_keyword_is_no_end(word@);
                }
                Ok((rule, end))
            },
            None => Ok((GrammarRule::ident, end)),
        }
    } else if b == DOLLAR {
        Ok((GrammarRule::string_ident, run(src, pos + 1, Class::Word)))
    } else if 0x30 <= b && b <= 0x39 {
        let end = if hex_number_at(src, pos) {
            run(src, pos + 2, Class::HexDigit)
        } else {
            proof {
                assert(run_end(src@, pos as int, Class::Digit) == run_end(
                    src@,
                    pos + 1,
                    Class::Digit,
                ));
            }
            run(src, pos + 1, Class::Digit)
        };
        Ok((GrammarRule::integer_lit, end))
    } else if b == QUOTE {
        match find_string_end(src, pos + 1) {
            Some(end) => Ok((GrammarRule::string_lit, end)),
            None => Err(Flaw::Unfinished(GrammarRule::string_lit)),
        }
    } else {
        match punctuation_at(src, pos) {
            Some((rule, n)) => {
                proof {
                    lemma_punctuation_is_no_end(src@, pos as int);
                }
                Ok((rule, pos + n))
            },
            None => Err(Flaw::UnknownCharacter),
        }
    }
}

/// No keyword is the end of the source.
pub proof fn lemma_keyword_is_no_end(word: Seq<char>)
    ensures
        keyword(word) != Some(GrammarRule::EOI),
{
}

/// No punctuation is the end of the source.
pub proof fn lemma_punctuation_is_no_end(src: Seq<u8>, pos: int)
    ensures
        punctuation(src, pos) matches Some((rule, _)) ==> rule != GrammarRule::EOI,
{
}

/// The span between two positions.
pub open spec fn span_of(start: int, end: int) -> Span {
    Span { start: start as usize, end: end as usize }
}

/// `tokens` in front of what was read behind them.
pub open spec fn behind(tokens: Seq<Token>, rest: Result<Seq<Token>, Failure>) -> Result<
    Seq<Token>,
    Failure,
> {
    match rest {
        Ok(more) => Ok(tokens + more),
        Err(failure) => Err(failure),
    }
}

/// The tokens of the source from `pos` on, behind the token `prev`, the
/// last of them the end of the source; or the first flaw. A comment that
/// does not end is reported from where the scanner stood; any other flaw at
/// the byte where the token begins.
pub open spec fn tokens_from(src: Seq<u8>, pos: int, prev: GrammarRule) -> Result<
    Seq<Token>,
    Failure,
>
    decreases src.len() - pos,
{
    match trivia_end(src, pos, Mode::Code) {
        None => Err(
            Failure {
                flaw: Flaw::Unfinished(GrammarRule::COMMENT),
                span: span_of(pos, src.len() as int),
            },
        ),
        Some(start) => match token_at(src, start, prev) {
            Lexed::Flawed(flaw) => Err(Failure { flaw, span: span_of(start, start + 1) }),
            Lexed::Token(rule, end) => {
                let token = Token { rule, span: span_of(start, end) };
                if rule != GrammarRule::EOI && pos <= start < end <= src.len() {
                    behind(seq![token], tokens_from(src, end, rule))
                } else {
                    Ok(seq![token])
                }
            },
        },
    }
}

/// The token lies in the source, and is long enough for what it is.
pub open spec fn token_fits(src: Seq<u8>, token: Token) -> bool {
    &&& token.span.start <= token.span.end <= src.len()
    &&& token.rule == GrammarRule::string_lit || token.rule == GrammarRule::hex_pattern
        || token.rule == GrammarRule::regexp ==> token.span.start + 2 <= token.span.end
    &&& token.rule == GrammarRule::integer_lit ==> token.span.start < token.span.end
    &&& token.rule == GrammarRule::integer_lit && is_hex_number(src, token.span.start as int)
        ==> token.span.start + 2 <= token.span.end
}

/// What holds of the tokens of a source: each lies in the source, and the
/// end of the source is the last of them and no other.
pub open spec fn well_lexed(src: Seq<u8>, tokens: Seq<Token>) -> bool {
    &&& tokens.len() > 0
    &&& tokens.last().rule == GrammarRule::EOI
    &&& forall|k: int| 0 <= k < tokens.len() ==> token_fits(src, #[trigger] tokens[k])
    &&& forall|k: int| 0 <= k < tokens.len() - 1 ==> (#[trigger] tokens[k]).rule != GrammarRule::EOI
    &&& forall|j: int, k: int|
        0 <= j < k < tokens.len() ==> (#[trigger] tokens[j]).span.end <= (
        #[trigger] tokens[k]).span.start
}

/// Tokens stand in the source in their order.
pub proof fn lemma_ordered(src: Seq<u8>, tokens: Seq<Token>, i: int, j: int)
    requires
        well_lexed(src, tokens),
        0 <= i <= j < tokens.len(),
    ensures
        tokens[i].span.start <= tokens[j].span.start,
        tokens[i].span.end <= tokens[j].span.end,
        tokens[i].span.start <= tokens[j].span.end,
        i < j ==> tokens[i].span.end <= tokens[j].span.start,
{
    assert(token_fits(src, tokens[i]));
    assert(token_fits(src, tokens[j]));
}

/// The tokens of a source.
pub open spec fn tokens(src: Seq<u8>) -> Result<Seq<Token>, Failure> {
    tokens_from(src, 0, GrammarRule::EOI)
}

/// Splits a source into its tokens.
pub fn tokenize(src: &[u8]) -> (found: Result<Vec<Token>, Failure>)
    ensures
        match found {
            Ok(list) => tokens(src@) == Ok::<Seq<Token>, Failure>(list@) && well_lexed(
                src@,
                list@,
            ) && list@.len() <= src@.len() + 1,
            Err(failure) => tokens(src@) == Err::<Seq<Token>, Failure>(failure)
                && failure.span.within(src@.len()),
        },
{
    let mut list: Vec<Token> = Vec::new();
    let mut pos: usize = 0;
    let mut prev = GrammarRule::EOI;
    loop
        invariant
            pos <= src.len(),
            tokens(src@) == behind(list@, tokens_from(src@, pos as int, prev)),
            forall|k: int|
                0 <= k < list@.len() ==> token_fits(src@, #[trigger] list@[k]) && list@[k].rule
                    != GrammarRule::EOI,
            forall|j: int, k: int|
                0 <= j < k < list@.len() ==> (#[trigger] list@[j]).span.end <= (
                #[trigger] list@[k]).span.start,
            forall|k: int| 0 <= k < list@.len() ==> (#[trigger] list@[k]).span.end <= pos,
            list@.len() <= pos,
        decreases src.len() - pos,
    {
        let start = match skip_trivia(src, pos) {
            Some(start) => start,
            None => {
                return Err(
                    Failure {
                        flaw: Flaw::Unfinished(GrammarRule::COMMENT),
                        span: Span::new(pos, src.len()),
                    },
                );
            },
        };
        match scan_token(src, start, prev) {
            Err(flaw) => {
                return Err(Failure { flaw, span: Span::new(start, start + 1) });
            },
            Ok((rule, end)) => {
                let token = Token { rule, span: Span::new(start, end) };
                let ghost before = list@;
                list.push(token);
                if rule == GrammarRule::EOI {
                    assert(before + seq![token] =~= list@);
                    return Ok(list);
                }
                proof {
                    let rest = tokens_from(src@, end as int, rule);
                    assert(tokens_from(src@, pos as int, prev) == behind(seq![token], rest));
                    if let Ok(more) = rest {
                        assert(before + (seq![token] + more) =~= list@ + more);
                    }
                }
                pos = end;
                prev = rule;
            },
        }
    }
}

/// Where the comment ends that runs to the end of its line, from `pos`
/// on: at the newline, or at the end of the source.
pub open spec fn line_stop(src: Seq<u8>, pos: int) -> int
    decreases src.len() - pos,
{
    if !(0 <= pos < src.len()) {
        pos
    } else if src[pos] == NEWLINE {
        pos
    } else {
        line_stop(src, pos + 1)
    }
}

/// The position behind the `*/` that closes the comment whose inside
/// begins at `pos`. `None` where the source ends first.
pub open spec fn block_stop(src: Seq<u8>, pos: int) -> Option<int>
    decreases src.len() - pos,
{
    if !(0 <= pos < src.len()) {
        None
    } else if pair_at(src, pos, STAR, SLASH) {
        Some(pos + 2)
    } else {
        block_stop(src, pos + 1)
    }
}

/// What stands at a position and is no token.
pub enum Trivia {
    /// Nothing: a token begins here, or the source ends.
    Nothing,
    /// White space or a comment, which ends at this position.
    Piece(GrammarRule, int),
    /// A comment that does not end.
    Unfinished,
}

/// The white space or the comment that begins at `pos`: a run of white
/// space; a comment from `//` to the end of its line; or a comment from
/// `/*` to `*/`.
pub open spec fn trivia_at(src: Seq<u8>, pos: int) -> Trivia {
    if !(0 <= pos < src.len()) {
        Trivia::Nothing
    } else if is_space(src[pos]) {
        Trivia::Piece(GrammarRule::WHITESPACE, run_end(src, pos, Class::Space))
    } else if pair_at(src, pos, SLASH, SLASH) {
        Trivia::Piece(GrammarRule::COMMENT, line_stop(src, pos + 2))
    } else if pair_at(src, pos, SLASH, STAR) {
        match block_stop(src, pos + 2) {
            Some(end) => Trivia::Piece(GrammarRule::COMMENT, end),
            None => Trivia::Unfinished,
        }
    } else {
        Trivia::Nothing
    }
}

/// Finds where a comment ends that runs to the end of its line.
pub fn find_line_stop(src: &[u8], pos: usize) -> (end: usize)
    requires
        pos <= src.len(),
    ensures
        end == line_stop(src@, pos as int),
        pos <= end <= src.len(),
{
    let mut at: usize = pos;
    while at < src.len() && src[at] != NEWLINE
        invariant
            pos <= at <= src.len(),
            line_stop(src@, pos as int) == line_stop(src@, at as int),
        decreases src.len() - at,
    {
        at += 1;
    }
    at
}

/// Finds the end of the comment whose inside begins at `pos`.
pub fn find_block_stop(src: &[u8], pos: usize) -> (end: Option<usize>)
    requires
        pos <= src.len(),
    ensures
        match end {
            Some(e) => block_stop(src@, pos as int) == Some(e as int) && pos + 2 <= e
                <= src.len(),
            None => block_stop(src@, pos as int) is None,
        },
{
    let mut at: usize = pos;
    while at < src.len()
        invariant
            pos <= at <= src.len(),
            block_stop(src@, pos as int) == block_stop(src@, at as int),
        decreases src.len() - at,
    {
        if has_pair(src, at, STAR, SLASH) {
            return Some(at + 2);
        }
        at += 1;
    }
    None
}

/// Reads the white space or the comment that begins at `pos`.
pub fn scan_trivia(src: &[u8], pos: usize) -> (found: Result<Option<(GrammarRule, usize)>, ()>)
    requires
        pos <= src.len(),
    ensures
        match found {
            Ok(Some((rule, end))) => trivia_at(src@, pos as int) == Trivia::Piece(rule, end as int)
                && pos < end <= src.len() && (rule == GrammarRule::WHITESPACE || rule
                == GrammarRule::COMMENT),
            Ok(None) => trivia_at(src@, pos as int) == Trivia::Nothing,
            Err(_) => trivia_at(src@, pos as int) == Trivia::Unfinished,
        },
{
    if pos >= src.len() {
        return Ok(None);
    }
    let b = src[pos];
    if b == SPACE || b == TAB || b == NEWLINE || b == RETURN {
        Ok(Some((GrammarRule::WHITESPACE, run(src, pos + 1, Class::Space))))
    } else if has_pair(src, pos, SLASH, SLASH) {
        Ok(Some((GrammarRule::COMMENT, find_line_stop(src, pos + 2))))
    } else if has_pair(src, pos, SLASH, STAR) {
        match find_block_stop(src, pos + 2) {
            Some(end) => Ok(Some((GrammarRule::COMMENT, end))),
            None => Err(()),
        }
    } else {
        Ok(None)
    }
}

/// The pieces of the source from `pos` on, behind the token `prev`: its
/// tokens, and between them the white space and the comments, each as a
/// piece of its own; the last piece is the end of the source. Or the first
/// flaw, at the byte where it begins.
pub open spec fn pieces_from(src: Seq<u8>, pos: int, prev: GrammarRule) -> Result<
    Seq<Token>,
    Failure,
>
    decreases src.len() - pos,
{
    match trivia_at(src, pos) {
        Trivia::Unfinished => Err(
            Failure { flaw: Flaw::Unfinished(GrammarRule::COMMENT), span: span_of(pos, pos + 1) },
        ),
        Trivia::Piece(rule, end) => {
            let piece = Token { rule, span: span_of(pos, end) };
            if pos < end <= src.len() {
                behind(seq![piece], pieces_from(src, end, prev))
            } else {
                Ok(seq![piece])
            }
        },
        Trivia::Nothing => match token_at(src, pos, prev) {
            Lexed::Flawed(flaw) => Err(Failure { flaw, span: span_of(pos, pos + 1) }),
            Lexed::Token(rule, end) => {
                let token = Token { rule, span: span_of(pos, end) };
                if rule != GrammarRule::EOI && pos < end <= src.len() {
                    behind(seq![token], pieces_from(src, end, rule))
                } else {
                    Ok(seq![token])
                }
            },
        },
    }
}

/// The pieces of a source: its tokens with the white space and the
/// comments between them.
pub open spec fn pieces(src: Seq<u8>) -> Result<Seq<Token>, Failure> {
    pieces_from(src, 0, GrammarRule::EOI)
}

/// The pieces that are tokens: those that are neither white space nor
/// comments.
pub open spec fn significant(pieces: Seq<Token>) -> Seq<Token>
    decreases pieces.len(),
{
    if pieces.len() == 0 {
        Seq::empty()
    } else if pieces[0].rule.is_trivia() {
        significant(pieces.drop_first())
    } else {
        seq![pieces[0]] + significant(pieces.drop_first())
    }
}

/// Each piece begins where the one before it ends: together the pieces are
/// the source from `pos` on.
pub open spec fn contiguous(pieces: Seq<Token>, pos: int) -> bool {
    &&& pieces.len() > 0 ==> pieces[0].span.start == pos
    &&& forall|j: int, k: int|
        0 <= j && k == j + 1 && k < pieces.len() ==> (#[trigger] pieces[j]).span.end == (
        #[trigger] pieces[k]).span.start
}

/// Reads the piece that begins at `pos` behind the token `prev`. Returns
/// the piece, and the token that the next piece stands behind.
pub fn next_piece(src: &[u8], pos: usize, prev: GrammarRule) -> (found: Result<
    (Token, GrammarRule),
    Failure,
>)
    requires
        pos <= src.len(),
    ensures
        match found {
            Ok((piece, next)) => piece.span.start == pos && piece.span.end <= src.len() && (
            if piece.rule == GrammarRule::EOI {
                pieces_from(src@, pos as int, prev) == Ok::<Seq<Token>, Failure>(seq![piece])
                    && piece.span.end == src.len()
            } else {
                pieces_from(src@, pos as int, prev) == behind(
                    seq![piece],
                    pieces_from(src@, piece.span.end as int, next),
                ) && pos < piece.span.end
            }),
            Err(failure) => pieces_from(src@, pos as int, prev) == Err::<Seq<Token>, Failure>(
                failure,
            ) && failure.span.within(src@.len()),
        },
{
    match scan_trivia(src, pos) {
        Err(_) => Err(
            Failure { flaw: Flaw::Unfinished(GrammarRule::COMMENT), span: Span::new(pos, pos + 1) },
        ),
        Ok(Some((rule, end))) => Ok((Token { rule, span: Span::new(pos, end) }, prev)),
        Ok(None) => match scan_token(src, pos, prev) {
            Err(flaw) => Err(Failure { flaw, span: Span::new(pos, pos + 1) }),
            Ok((rule, end)) => Ok((Token { rule, span: Span::new(pos, end) }, rule)),
        },
    }
}

/// Splits a source into its pieces: its tokens, and the white space and
/// comments between them. Nothing of the source is left out.
pub fn split(src: &[u8]) -> (found: Result<Vec<Token>, Failure>)
    ensures
        match found {
            Ok(list) => pieces(src@) == Ok::<Seq<Token>, Failure>(list@) && contiguous(list@, 0)
                && list@.len() > 0 && list@.last().rule == GrammarRule::EOI
                && list@.last().span.end == src@.len(),
            Err(failure) => pieces(src@) == Err::<Seq<Token>, Failure>(failure)
                && failure.span.within(src@.len()),
        },
{
    let mut list: Vec<Token> = Vec::new();
    let mut pos: usize = 0;
    let mut prev = GrammarRule::EOI;
    loop
        invariant
            pos <= src.len(),
            pieces(src@) == behind(list@, pieces_from(src@, pos as int, prev)),
            contiguous(list@, 0),
            list@.len() > 0 ==> list@.last().span.end == pos,
            list@.len() == 0 ==> pos == 0,
        decreases src.len() - pos,
    {
        let ghost before = list@;
        let (piece, next) = match next_piece(src, pos, prev) {
            Ok(found) => found,
            Err(failure) => {
                return Err(failure);
            },
        };
        list.push(piece);
        assert(list@ =~= before + seq![piece]);
        assert(contiguous(list@, 0)) by {
            assert forall|j: int, k: int| 0 <= j && k == j + 1 && k < list@.len() implies (
            #[trigger] list@[j]).span.end == (#[trigger] list@[k]).span.start by {
                if k < before.len() {
                    assert(list@[j] == before[j] && list@[k] == before[k]);
                } else {
                    assert(list@[j] == before.last());
                }
            }
        }
        if piece.rule == GrammarRule::EOI {
            return Ok(list);
        }
        proof {
            let rest = pieces_from(src@, piece.span.end as int, next);
            if let Ok(more) = rest {
                assert(before + (seq![piece] + more) =~= list@ + more);
            }
        }
        pos = piece.span.end;
        prev = next;
    }
}

} // verus!
