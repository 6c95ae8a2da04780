//! The grammar of conditions, and the parser for it.
//!
//! ```text
//! boolean_expr := boolean_term (`or` boolean_term)*
//! boolean_term := not_term (`and` not_term)*
//! not_term     := `not` not_term | comparison
//! comparison   := expr ((`==` | `!=` | `<` | `<=` | `>` | `>=` | `contains`
//!               | `startswith` | `endswith` | `iequals` | `icontains`
//!               | `istartswith` | `iendswith`) expr)*
//! expr         := bitwise_xor (`|` bitwise_xor)*
//! bitwise_xor  := bitwise_and (`^` bitwise_and)*
//! bitwise_and  := shift (`&` shift)*
//! shift        := sum ((`<<` | `>>`) sum)*
//! sum          := term ((`+` | `-`) term)*
//! term         := unary ((`*` | `\` | `%`) unary)*
//! unary        := `-` unary | primary
//! primary      := `true` | `false` | `filesize` | number | string
//!               | pattern identifier
//!               | pattern identifier `at` expr
//!               | pattern identifier `in` `(` expr `.` `.` expr `)`
//!               | `(` boolean_expr `)`
//!               | identifier (`.` identifier)*
//!               | identifier `(` (boolean_expr (`,` boolean_expr)*)? `)`
//!               | (`any` | `all` | number | number `%`) `of` pattern_set
//!               | `for` `any` identifier `in` `(` expr `.` `.` expr `)`
//!                 `:` `(` boolean_expr `)`
//! pattern_set  := `them` | `(` pattern identifier (`,` pattern identifier)* `)`
//! ```
//!
//! Operators of one level group from the left. `-x` is `0 - x`.

use crate::parser::ast::{
    args_within, expr_within, idents_within, lemma_args_within, names, Arithmetic, Comparison, Expr, ExprKind, Ident, Name, Node, PatternSet, Patterns,
    Quantifier, Tree,
};
use crate::parser::failure::{Expected, Failure, Flaw};
use crate::parser::grammar::GrammarRule;
use crate::parser::lexer::{lemma_ordered, span_of, text_at, text_of, well_lexed, Token};
use crate::parser::literals::{number_at, read_number_at, read_string_at, string_at, Text};
use crate::parser::span::Span;
use vstd::prelude::*;

verus! {

/// What parsing from a token on gives: a value and the number of the token
/// behind it, or the first failure.
pub enum Parsed<T> {
    Done(T, int),
    Fail(Failure),
}

/// The rule of the token with number `i`; behind the last token, the end of
/// the source.
pub open spec fn rule_at(t: Seq<Token>, i: int) -> GrammarRule {
    if 0 <= i < t.len() {
        t[i].rule
    } else {
        GrammarRule::EOI
    }
}

/// The span of the token with number `i`.
pub open spec fn span_at(t: Seq<Token>, i: int) -> Span {
    if 0 <= i < t.len() {
        t[i].span
    } else {
        Span { start: 0, end: 0 }
    }
}

/// From where token `i` begins to where token `j` ends.
pub open spec fn from_to(t: Seq<Token>, i: int, j: int) -> Span {
    Span { start: span_at(t, i).start, end: span_at(t, j).end }
}

/// The failure of a token that the grammar has no use for.
pub open spec fn unexpected_at(t: Seq<Token>, i: int, expected: Expected) -> Failure {
    Failure { flaw: Flaw::Unexpected { found: rule_at(t, i), expected }, span: span_at(t, i) }
}

/// The identifier that token `i` is.
pub open spec fn name_at(src: Seq<u8>, t: Seq<Token>, i: int) -> Name {
    Name { name: text_at(src, span_at(t, i)), span: span_at(t, i) }
}

/// Parsing got from token `i` to a token `n` behind it.
pub open spec fn onward(t: Seq<Token>, i: int, n: int) -> bool {
    i < n <= t.len()
}

/// The operators that stand between two operands.
#[derive(Clone, Copy, Debug, PartialEq, Eq, Structural)]
pub enum Operator {
    Or,
    And,
    Compare(Comparison),
    Arith(Arithmetic),
}

/// The levels of the grammar, from the operators that bind most: products,
/// sums, shifts, `&`, `^`, `|`, comparisons, `and`, `or`.
pub const PRODUCT: u8 = 1;

pub const SUM: u8 = 2;

pub const SHIFT: u8 = 3;

pub const BIT_AND: u8 = 4;

pub const BIT_XOR: u8 = 5;

pub const BIT_OR: u8 = 6;

pub const COMPARISON: u8 = 7;

pub const CONJUNCTION: u8 = 8;

pub const DISJUNCTION: u8 = 9;

/// The comparison that a token is.
pub open spec fn comparison(rule: GrammarRule) -> Option<Comparison> {
    match rule {
        GrammarRule::EQ => Some(Comparison::Eq),
        GrammarRule::NEQ => Some(Comparison::Ne),
        GrammarRule::LT => Some(Comparison::Lt),
        GrammarRule::LE => Some(Comparison::Le),
        GrammarRule::GT => Some(Comparison::Gt),
        GrammarRule::GE => Some(Comparison::Ge),
        GrammarRule::k_CONTAINS => Some(Comparison::Contains),
        GrammarRule::k_STARTSWITH => Some(Comparison::StartsWith),
        GrammarRule::k_ENDSWITH => Some(Comparison::EndsWith),
        GrammarRule::k_IEQUALS => Some(Comparison::IEquals),
        GrammarRule::k_ICONTAINS => Some(Comparison::IContains),
        GrammarRule::k_ISTARTSWITH => Some(Comparison::IStartsWith),
        GrammarRule::k_IENDSWITH => Some(Comparison::IEndsWith),
        _ => None,
    }
}

/// The operator of arithmetic that a token is on a level of the grammar.
pub open spec fn arithmetic(level: int, rule: GrammarRule) -> Option<Arithmetic> {
    if level == PRODUCT {
        match rule {
            GrammarRule::MUL => Some(Arithmetic::Mul),
            GrammarRule::DIV => Some(Arithmetic::Div),
            GrammarRule::PERCENT => Some(Arithmetic::Mod),
            _ => None,
        }
    } else if level == SUM {
        match rule {
            GrammarRule::ADD => Some(Arithmetic::Add),
            GrammarRule::MINUS => Some(Arithmetic::Sub),
            _ => None,
        }
    } else if level == SHIFT {
        match rule {
            GrammarRule::SHL => Some(Arithmetic::Shl),
            GrammarRule::SHR => Some(Arithmetic::Shr),
            _ => None,
        }
    } else if level == BIT_AND && rule == GrammarRule::BITWISE_AND {
        Some(Arithmetic::BitAnd)
    } else if level == BIT_XOR && rule == GrammarRule::BITWISE_XOR {
        Some(Arithmetic::BitXor)
    } else if level == BIT_OR && rule == GrammarRule::BITWISE_OR {
        Some(Arithmetic::BitOr)
    } else {
        None
    }
}

/// The operator that a token is on a level of the grammar.
pub open spec fn operator(level: int, rule: GrammarRule) -> Option<Operator> {
    if level == DISJUNCTION && rule == GrammarRule::k_OR {
        Some(Operator::Or)
    } else if level == CONJUNCTION && rule == GrammarRule::k_AND {
        Some(Operator::And)
    } else if level == COMPARISON {
        match comparison(rule) {
            Some(c) => Some(Operator::Compare(c)),
            None => None,
        }
    } else {
        match arithmetic(level, rule) {
            Some(a) => Some(Operator::Arith(a)),
            None => None,
        }
    }
}

/// Two operands under their operator.
pub open spec fn combined(op: Operator, left: Node, right: Node) -> Node {
    Node {
        kind: match op {
            Operator::Or => Tree::Or(Box::new(left), Box::new(right)),
            Operator::And => Tree::And(Box::new(left), Box::new(right)),
            Operator::Compare(c) => Tree::Compare(c, Box::new(left), Box::new(right)),
            Operator::Arith(a) => Tree::Arith(a, Box::new(left), Box::new(right)),
        },
        span: Span { start: left.span.start, end: right.span.end },
    }
}

/// An operator in front of its operand.
pub open spec fn prefixed(kind: Tree, t: Seq<Token>, i: int, operand: Node) -> Node {
    Node { kind, span: Span { start: span_at(t, i).start, end: operand.span.end } }
}

/// The identifiers of a dotted path from token `i` on, behind `names`: as
/// long as a dot and an identifier follow.
pub open spec fn path(src: Seq<u8>, t: Seq<Token>, i: int, names: Seq<Name>) -> (Seq<Name>, int)
    decreases t.len() - i,
{
    if rule_at(t, i) == GrammarRule::DOT && rule_at(t, i + 1) == GrammarRule::ident {
        path(src, t, i + 2, names.push(name_at(src, t, i + 1)))
    } else {
        (names, i)
    }
}

/// The pattern identifiers of a list from token `i` on, behind `names`, and
/// the number of the parenthesis that closes the list.
pub open spec fn pattern_list(src: Seq<u8>, t: Seq<Token>, i: int, names: Seq<Name>) -> Parsed<
    Seq<Name>,
>
    decreases t.len() - i,
{
    if rule_at(t, i) == GrammarRule::string_ident {
        let more = names.push(name_at(src, t, i));
        if rule_at(t, i + 1) == GrammarRule::COMMA {
            pattern_list(src, t, i + 2, more)
        } else if rule_at(t, i + 1) == GrammarRule::RPAREN {
            Parsed::Done(more, i + 1)
        } else {
            Parsed::Fail(unexpected_at(t, i + 1, Expected::CommaOrClose))
        }
    } else {
        Parsed::Fail(unexpected_at(t, i, Expected::One(GrammarRule::string_ident)))
    }
}

/// An `of` expression whose quantifier began at token `from` and whose
/// pattern set begins at token `i`.
pub open spec fn pattern_set(
    src: Seq<u8>,
    t: Seq<Token>,
    i: int,
    quantifier: Quantifier,
    from: int,
) -> Parsed<Node> {
    if rule_at(t, i) == GrammarRule::k_THEM {
        Parsed::Done(
            Node { kind: Tree::Of(quantifier, Patterns::Them), span: from_to(t, from, i) },
            i + 1,
        )
    } else if rule_at(t, i) == GrammarRule::LPAREN {
        match pattern_list(src, t, i + 1, Seq::empty()) {
            Parsed::Done(names, n) => Parsed::Done(
                Node {
                    kind: Tree::Of(quantifier, Patterns::Named(names)),
                    span: from_to(t, from, n),
                },
                n + 1,
            ),
            Parsed::Fail(f) => Parsed::Fail(f),
        }
    } else {
        Parsed::Fail(unexpected_at(t, i, Expected::Patterns))
    }
}

/// A chain of operands of one level with its operators between them, from
/// token `i` on.
pub open spec fn chain(src: Seq<u8>, t: Seq<Token>, i: int, level: int) -> Parsed<Node>
    decreases t.len() - i, 4 * level + 2,
{
    if 1 <= level <= 9 {
        match operand(src, t, i, level) {
            Parsed::Done(left, n) => if onward(t, i, n) {
                rest(src, t, n, level, left)
            } else {
                Parsed::Fail(unexpected_at(t, i, Expected::Expression))
            },
            Parsed::Fail(f) => Parsed::Fail(f),
        }
    } else {
        Parsed::Fail(unexpected_at(t, i, Expected::Expression))
    }
}

/// What follows the operands read so far, which make `left`: as long as an
/// operator of the level stands at token `i`, another operand.
pub open spec fn rest(src: Seq<u8>, t: Seq<Token>, i: int, level: int, left: Node) -> Parsed<Node>
    decreases t.len() - i, 4 * level + 1,
{
    match operator(level, rule_at(t, i)) {
        Some(op) => if 1 <= level <= 9 && 0 <= i < t.len() {
            match operand(src, t, i + 1, level) {
                Parsed::Done(right, n) => if onward(t, i, n) {
                    rest(src, t, n, level, combined(op, left, right))
                } else {
                    Parsed::Fail(unexpected_at(t, i, Expected::Expression))
                },
                Parsed::Fail(f) => Parsed::Fail(f),
            }
        } else {
            Parsed::Fail(unexpected_at(t, i, Expected::Expression))
        },
        None => Parsed::Done(left, i),
    }
}

/// An operand of a level: a chain of the level below; under `and`, a term
/// with its negations; on the first level, a primary with its signs.
pub open spec fn operand(src: Seq<u8>, t: Seq<Token>, i: int, level: int) -> Parsed<Node>
    decreases t.len() - i, 4 * level,
{
    if level == CONJUNCTION {
        not_term(src, t, i)
    } else if 2 <= level <= 9 {
        chain(src, t, i, level - 1)
    } else if level == 1 {
        unary(src, t, i)
    } else {
        Parsed::Fail(unexpected_at(t, i, Expected::Expression))
    }
}

pub open spec fn not_term(src: Seq<u8>, t: Seq<Token>, i: int) -> Parsed<Node>
    decreases t.len() - i, 31int,
{
    if rule_at(t, i) == GrammarRule::k_NOT {
        match not_term(src, t, i + 1) {
            Parsed::Done(e, n) => Parsed::Done(prefixed(Tree::Not(Box::new(e)), t, i, e), n),
            Parsed::Fail(f) => Parsed::Fail(f),
        }
    } else {
        chain(src, t, i, COMPARISON as int)
    }
}

/// The number zero where a sign stands.
pub open spec fn zero_at(t: Seq<Token>, i: int) -> Node {
    Node { kind: Tree::LiteralInt(0), span: span_at(t, i) }
}

pub open spec fn unary(src: Seq<u8>, t: Seq<Token>, i: int) -> Parsed<Node>
    decreases t.len() - i, 3int,
{
    if rule_at(t, i) == GrammarRule::MINUS {
        match unary(src, t, i + 1) {
            Parsed::Done(e, n) => Parsed::Done(
                prefixed(
                    Tree::Arith(Arithmetic::Sub, Box::new(zero_at(t, i)), Box::new(e)),
                    t,
                    i,
                    e,
                ),
                n,
            ),
            Parsed::Fail(f) => Parsed::Fail(f),
        }
    } else {
        primary(src, t, i)
    }
}

pub open spec fn primary(src: Seq<u8>, t: Seq<Token>, i: int) -> Parsed<Node>
    decreases t.len() - i, 2int,
{
    let span = span_at(t, i);
    match rule_at(t, i) {
        GrammarRule::k_TRUE => Parsed::Done(Node { kind: Tree::True, span }, i + 1),
        GrammarRule::k_FALSE => Parsed::Done(Node { kind: Tree::False, span }, i + 1),
        GrammarRule::k_FILESIZE => Parsed::Done(Node { kind: Tree::Filesize, span }, i + 1),
        GrammarRule::integer_lit => match number_at(src, span) {
            None => Parsed::Fail(Failure { flaw: Flaw::InvalidInteger, span }),
            Some(v) => if rule_at(t, i + 1) == GrammarRule::k_OF {
                pattern_set(src, t, i + 2, Quantifier::Count(v), i)
            } else if rule_at(t, i + 1) == GrammarRule::PERCENT && rule_at(t, i + 2)
                == GrammarRule::k_OF {
                pattern_set(src, t, i + 3, Quantifier::Percent(v), i)
            } else {
                Parsed::Done(Node { kind: Tree::LiteralInt(v), span }, i + 1)
            },
        },
        GrammarRule::string_lit => match string_at(src, span) {
            Text::Bytes(bytes) => Parsed::Done(Node { kind: Tree::LiteralStr(bytes), span }, i + 1),
            Text::BadEscape(at) => Parsed::Fail(
                Failure { flaw: Flaw::InvalidEscapeSequence, span: span_of(at, at + 1) },
            ),
        },
        GrammarRule::string_ident => if rule_at(t, i + 1) == GrammarRule::k_AT {
            match chain(src, t, i + 2, BIT_OR as int) {
                Parsed::Done(offset, n) => Parsed::Done(
                    Node {
                        kind: Tree::PatternAt(text_at(src, span), Box::new(offset)),
                        span: Span { start: span.start, end: offset.span.end },
                    },
                    n,
                ),
                Parsed::Fail(f) => Parsed::Fail(f),
            }
        } else if rule_at(t, i + 1) == GrammarRule::k_IN {
            pattern_range(src, t, i)
        } else {
            Parsed::Done(Node { kind: Tree::PatternMatch(text_at(src, span)), span }, i + 1)
        },
        GrammarRule::k_ANY => if rule_at(t, i + 1) == GrammarRule::k_OF {
            pattern_set(src, t, i + 2, Quantifier::Any, i)
        } else {
            Parsed::Fail(unexpected_at(t, i + 1, Expected::One(GrammarRule::k_OF)))
        },
        GrammarRule::k_ALL => if rule_at(t, i + 1) == GrammarRule::k_OF {
            pattern_set(src, t, i + 2, Quantifier::All, i)
        } else {
            Parsed::Fail(unexpected_at(t, i + 1, Expected::One(GrammarRule::k_OF)))
        },
        GrammarRule::LPAREN => match chain(src, t, i + 1, DISJUNCTION as int) {
            Parsed::Done(e, n) => if rule_at(t, n) == GrammarRule::RPAREN {
                Parsed::Done(e, n + 1)
            } else {
                Parsed::Fail(unexpected_at(t, n, Expected::One(GrammarRule::RPAREN)))
            },
            Parsed::Fail(f) => Parsed::Fail(f),
        },
        GrammarRule::ident => if rule_at(t, i + 1) == GrammarRule::LPAREN {
            call(src, t, i)
        } else {
            let (names, n) = path(src, t, i + 1, seq![name_at(src, t, i)]);
            Parsed::Done(Node { kind: Tree::FieldAccess(names), span: from_to(t, i, n - 1) }, n)
        },
        GrammarRule::k_FOR => for_loop(src, t, i),
        _ => Parsed::Fail(unexpected_at(t, i, Expected::Expression)),
    }
}

/// A pattern looked for between two offsets: the identifier of the
/// pattern at token `i`, `in`, and the bounds in parentheses with two dots
/// between them.
pub open spec fn pattern_range(src: Seq<u8>, t: Seq<Token>, i: int) -> Parsed<Node>
    decreases t.len() - i, 1int,
{
    if rule_at(t, i + 1) != GrammarRule::k_IN {
        Parsed::Fail(unexpected_at(t, i + 1, Expected::One(GrammarRule::k_IN)))
    } else if rule_at(t, i + 2) != GrammarRule::LPAREN {
        Parsed::Fail(unexpected_at(t, i + 2, Expected::One(GrammarRule::LPAREN)))
    } else {
        match chain(src, t, i + 3, BIT_OR as int) {
            Parsed::Fail(f) => Parsed::Fail(f),
            Parsed::Done(lower, a) => if loop_range(t, a) is Some {
                Parsed::Fail(loop_range(t, a)->0)
            } else if !onward(t, i + 3, a) {
                Parsed::Fail(unexpected_at(t, i, Expected::Expression))
            } else {
                range_upper(
                    src,
                    t,
                    a + 2,
                    text_at(src, span_at(t, i)),
                    span_at(t, i).start,
                    lower,
                )
            },
        }
    }
}

/// The rest of a pattern looked for between two offsets, from the upper
/// bound on, which begins at token `i`.
pub open spec fn range_upper(
    src: Seq<u8>,
    t: Seq<Token>,
    i: int,
    name: Seq<char>,
    start: usize,
    lower: Node,
) -> Parsed<Node>
    decreases t.len() - i, 45int,
{
    match chain(src, t, i, BIT_OR as int) {
        Parsed::Fail(f) => Parsed::Fail(f),
        Parsed::Done(upper, b) => if rule_at(t, b) == GrammarRule::RPAREN {
            Parsed::Done(
                Node {
                    kind: Tree::PatternIn(name, Box::new(lower), Box::new(upper)),
                    span: Span { start, end: span_at(t, b).end },
                },
                b + 1,
            )
        } else {
            Parsed::Fail(unexpected_at(t, b, Expected::One(GrammarRule::RPAREN)))
        },
    }
}

/// A call: the function's name at token `i`, then its arguments in
/// parentheses.
pub open spec fn call(src: Seq<u8>, t: Seq<Token>, i: int) -> Parsed<Node>
    decreases t.len() - i, 1int,
{
    let callee = name_at(src, t, i);
    if rule_at(t, i + 1) != GrammarRule::LPAREN {
        Parsed::Fail(unexpected_at(t, i + 1, Expected::One(GrammarRule::LPAREN)))
    } else if rule_at(t, i + 2) == GrammarRule::RPAREN {
        Parsed::Done(
            Node { kind: Tree::Call { callee, args: Seq::empty() }, span: from_to(t, i, i + 2) },
            i + 3,
        )
    } else {
        match arguments(src, t, i + 2, Seq::empty()) {
            Parsed::Done(args, n) => Parsed::Done(
                Node { kind: Tree::Call { callee, args }, span: from_to(t, i, n) },
                n + 1,
            ),
            Parsed::Fail(f) => Parsed::Fail(f),
        }
    }
}

/// The arguments of a call from token `i` on, behind `args`, and the number
/// of the parenthesis that closes them.
pub open spec fn arguments(src: Seq<u8>, t: Seq<Token>, i: int, args: Seq<Node>) -> Parsed<
    Seq<Node>,
>
    decreases t.len() - i, 50int,
{
    match chain(src, t, i, DISJUNCTION as int) {
        Parsed::Done(e, n) => if onward(t, i, n) {
            if rule_at(t, n) == GrammarRule::COMMA {
                arguments(src, t, n + 1, args.push(e))
            } else if rule_at(t, n) == GrammarRule::RPAREN {
                Parsed::Done(args.push(e), n)
            } else {
                Parsed::Fail(unexpected_at(t, n, Expected::CommaOrClose))
            }
        } else {
            Parsed::Fail(unexpected_at(t, i, Expected::Expression))
        },
        Parsed::Fail(f) => Parsed::Fail(f),
    }
}

/// The failure where token `i` is not `rule`.
pub open spec fn other_than(t: Seq<Token>, i: int, rule: GrammarRule) -> Option<Failure> {
    if rule_at(t, i) != rule {
        Some(unexpected_at(t, i, Expected::One(rule)))
    } else {
        None
    }
}

/// The tokens that open a loop must stand from token `i` on.
pub open spec fn loop_head(t: Seq<Token>, i: int) -> Option<Failure> {
    if rule_at(t, i) != GrammarRule::k_FOR {
        other_than(t, i, GrammarRule::k_FOR)
    } else if rule_at(t, i + 1) != GrammarRule::k_ANY {
        other_than(t, i + 1, GrammarRule::k_ANY)
    } else if rule_at(t, i + 2) != GrammarRule::ident {
        other_than(t, i + 2, GrammarRule::ident)
    } else if rule_at(t, i + 3) != GrammarRule::k_IN {
        other_than(t, i + 3, GrammarRule::k_IN)
    } else {
        other_than(t, i + 4, GrammarRule::LPAREN)
    }
}

/// Two dots must stand from token `i` on.
pub open spec fn loop_range(t: Seq<Token>, i: int) -> Option<Failure> {
    if rule_at(t, i) != GrammarRule::DOT {
        other_than(t, i, GrammarRule::DOT)
    } else {
        other_than(t, i + 1, GrammarRule::DOT)
    }
}

/// The tokens between the bounds of a loop and its condition must stand
/// from token `i` on.
pub open spec fn loop_body(t: Seq<Token>, i: int) -> Option<Failure> {
    if rule_at(t, i) != GrammarRule::RPAREN {
        other_than(t, i, GrammarRule::RPAREN)
    } else if rule_at(t, i + 1) != GrammarRule::COLON {
        other_than(t, i + 1, GrammarRule::COLON)
    } else {
        other_than(t, i + 2, GrammarRule::LPAREN)
    }
}

/// A loop, which begins at token `i`.
pub open spec fn for_loop(src: Seq<u8>, t: Seq<Token>, i: int) -> Parsed<Node>
    decreases t.len() - i, 1int,
{
    if loop_head(t, i) is Some {
        Parsed::Fail(loop_head(t, i)->0)
    } else {
        match chain(src, t, i + 5, BIT_OR as int) {
            Parsed::Fail(f) => Parsed::Fail(f),
            Parsed::Done(lower, a) => if loop_range(t, a) is Some {
                Parsed::Fail(loop_range(t, a)->0)
            } else if !onward(t, i + 5, a) {
                Parsed::Fail(unexpected_at(t, i, Expected::Expression))
            } else {
                loop_upper(src, t, a + 2, name_at(src, t, i + 2), span_at(t, i).start, lower)
            },
        }
    }
}

/// The rest of a loop from its upper bound on, which begins at token `i`.
pub open spec fn loop_upper(
    src: Seq<u8>,
    t: Seq<Token>,
    i: int,
    var: Name,
    start: usize,
    lower: Node,
) -> Parsed<Node>
    decreases t.len() - i, 45int,
{
    match chain(src, t, i, BIT_OR as int) {
        Parsed::Fail(f) => Parsed::Fail(f),
        Parsed::Done(upper, b) => if loop_body(t, b) is Some {
            Parsed::Fail(loop_body(t, b)->0)
        } else if !onward(t, i, b) {
            Parsed::Fail(unexpected_at(t, i, Expected::Expression))
        } else {
            loop_condition(src, t, b + 3, var, start, lower, upper)
        },
    }
}

/// The rest of a loop from its condition on, which begins at token `i`.
pub open spec fn loop_condition(
    src: Seq<u8>,
    t: Seq<Token>,
    i: int,
    var: Name,
    start: usize,
    lower: Node,
    upper: Node,
) -> Parsed<Node>
    decreases t.len() - i, 45int,
{
    match chain(src, t, i, DISJUNCTION as int) {
        Parsed::Fail(f) => Parsed::Fail(f),
        Parsed::Done(condition, c) => if rule_at(t, c) == GrammarRule::RPAREN {
            Parsed::Done(
                Node {
                    kind: Tree::ForIn {
                        var,
                        lower: Box::new(lower),
                        upper: Box::new(upper),
                        condition: Box::new(condition),
                    },
                    span: Span { start, end: span_at(t, c).end },
                },
                c + 1,
            )
        } else {
            Parsed::Fail(unexpected_at(t, c, Expected::One(GrammarRule::RPAREN)))
        },
    }
}

/// The condition of a rule, from token `i` on.
pub open spec fn boolean_expr(src: Seq<u8>, t: Seq<Token>, i: int) -> Parsed<Node> {
    chain(src, t, i, DISJUNCTION as int)
}

/// The result of a parser is what the grammar gives.
pub open spec fn agrees(r: Result<(Expr, usize), Failure>, p: Parsed<Node>) -> bool {
    match r {
        Ok((e, n)) => p == Parsed::Done(e.model(), n as int),
        Err(f) => p == Parsed::<Node>::Fail(f),
    }
}

/// The expression was read from the tokens `i` to `n - 1`: its spans lie
/// inside the source, and its own between those tokens.
pub open spec fn spanned(e: Expr, src: Seq<u8>, t: Seq<Token>, i: int, n: int) -> bool {
    &&& expr_within(e, src.len())
    &&& span_at(t, i).start <= e.span.start
    &&& e.span.end <= span_at(t, n - 1).end
}

/// What expressions are, one for one.
pub open spec fn nodes(exprs: Seq<Expr>) -> Seq<Node> {
    Seq::new(exprs.len(), |k: int| exprs[k].model())
}

/// Behind a token that is not the end of the source stands another token.
pub proof fn lemma_next(src: Seq<u8>, t: Seq<Token>, i: int)
    requires
        well_lexed(src, t),
        0 <= i < t.len(),
        rule_at(t, i) != GrammarRule::EOI,
    ensures
        i + 1 < t.len(),
{
    assert(t.last() == t[t.len() - 1]);
}

/// Tells whether token `i` is `rule`.
pub fn has_rule(t: &[Token], i: usize, rule: GrammarRule) -> (b: bool)
    requires
        i < t.len(),
    ensures
        b == (rule_at(t@, i as int) == rule),
{
    t[i].rule == rule
}

/// The failure of token `i`, which the grammar has no use for.
pub fn unexpected(t: &[Token], i: usize, expected: Expected) -> (f: Failure)
    requires
        i < t.len(),
    ensures
        f == unexpected_at(t@, i as int, expected),
        f.span == t@[i as int].span,
{
    Failure { flaw: Flaw::Unexpected { found: t[i].rule, expected }, span: t[i].span }
}

/// The identifier that token `i` is.
pub fn ident_at(src: &[u8], t: &[Token], i: usize) -> (ident: Ident)
    requires
        well_lexed(src@, t@),
        i < t.len(),
    ensures
        ident.model() == name_at(src@, t@, i as int),
        ident.span == t@[i as int].span,
        ident.span.within(src@.len()),
{
    Ident { name: text_of(src, t[i].span), span: t[i].span }
}

/// The comparison that a token is.
pub fn comparison_of(rule: GrammarRule) -> (op: Option<Comparison>)
    ensures
        op == comparison(rule),
{
    match rule {
        GrammarRule::EQ => Some(Comparison::Eq),
        GrammarRule::NEQ => Some(Comparison::Ne),
        GrammarRule::LT => Some(Comparison::Lt),
        GrammarRule::LE => Some(Comparison::Le),
        GrammarRule::GT => Some(Comparison::Gt),
        GrammarRule::GE => Some(Comparison::Ge),
        GrammarRule::k_CONTAINS => Some(Comparison::Contains),
        GrammarRule::k_STARTSWITH => Some(Comparison::StartsWith),
        GrammarRule::k_ENDSWITH => Some(Comparison::EndsWith),
        GrammarRule::k_IEQUALS => Some(Comparison::IEquals),
        GrammarRule::k_ICONTAINS => Some(Comparison::IContains),
        GrammarRule::k_ISTARTSWITH => Some(Comparison::IStartsWith),
        GrammarRule::k_IENDSWITH => Some(Comparison::IEndsWith),
        _ => None,
    }
}

/// The operator of arithmetic that a token is on a level of the grammar.
pub fn arithmetic_of(level: u8, rule: GrammarRule) -> (op: Option<Arithmetic>)
    ensures
        op == arithmetic(level as int, rule),
{
    if level == PRODUCT {
        match rule {
            GrammarRule::MUL => Some(Arithmetic::Mul),
            GrammarRule::DIV => Some(Arithmetic::Div),
            GrammarRule::PERCENT => Some(Arithmetic::Mod),
            _ => None,
        }
    } else if level == SUM {
        match rule {
            GrammarRule::ADD => Some(Arithmetic::Add),
            GrammarRule::MINUS => Some(Arithmetic::Sub),
            _ => None,
        }
    } else if level == SHIFT {
        match rule {
            GrammarRule::SHL => Some(Arithmetic::Shl),
            GrammarRule::SHR => Some(Arithmetic::Shr),
            _ => None,
        }
    } else if level == BIT_AND {
        match rule {
            GrammarRule::BITWISE_AND => Some(Arithmetic::BitAnd),
            _ => None,
        }
    } else if level == BIT_XOR {
        match rule {
            GrammarRule::BITWISE_XOR => Some(Arithmetic::BitXor),
            _ => None,
        }
    } else if level == BIT_OR {
        match rule {
            GrammarRule::BITWISE_OR => Some(Arithmetic::BitOr),
            _ => None,
        }
    } else {
        None
    }
}

/// The operator that a token is on a level of the grammar.
pub fn operator_of(level: u8, rule: GrammarRule) -> (op: Option<Operator>)
    ensures
        op == operator(level as int, rule),
{
    if level == DISJUNCTION {
        match rule {
            GrammarRule::k_OR => Some(Operator::Or),
            _ => None,
        }
    } else if level == CONJUNCTION {
        match rule {
            GrammarRule::k_AND => Some(Operator::And),
            _ => None,
        }
    } else if level == COMPARISON {
        match comparison_of(rule) {
            Some(c) => Some(Operator::Compare(c)),
            None => None,
        }
    } else {
        match arithmetic_of(level, rule) {
            Some(a) => Some(Operator::Arith(a)),
            None => None,
        }
    }
}

/// Puts two operands under their operator.
pub fn combine(op: Operator, left: Expr, right: Expr) -> (e: Expr)
    ensures
        e.model() == combined(op, left.model(), right.model()),
        e.span == (Span { start: left.span.start, end: right.span.end }),
        forall|len: nat|
            expr_within(left, len) && expr_within(right, len) && left.span.start <= right.span.end
                ==> #[trigger] expr_within(e, len),
{
    let span = Span::new(left.span.start, right.span.end);
    let kind = match op {
        Operator::Or => ExprKind::Or(Box::new(left), Box::new(right)),
        Operator::And => ExprKind::And(Box::new(left), Box::new(right)),
        Operator::Compare(c) => ExprKind::Compare(c, Box::new(left), Box::new(right)),
        Operator::Arith(a) => ExprKind::Arith(a, Box::new(left), Box::new(right)),
    };
    Expr { kind, span }
}

/// Reads the identifiers of a dotted path behind its first, from token `i`
/// on.
pub fn parse_path(src: &[u8], t: &[Token], i: usize, first: Ident) -> (found: (Vec<Ident>, usize))
    requires
        well_lexed(src@, t@),
        i < t.len(),
    ensures
        (names(found.0@), found.1 as int) == path(src@, t@, i as int, seq![first.model()]),
        i <= found.1 < t.len(),
        found.0@.len() > 0,
        first.span.within(src@.len()) ==> idents_within(found.0@, src@.len()),
{
    let ghost start = seq![first.model()];
    let mut idents: Vec<Ident> = Vec::new();
    idents.push(first);
    let mut at: usize = i;
    assert(names(idents@) =~= start);
    while has_rule(t, at, GrammarRule::DOT) && has_rule(t, at + 1, GrammarRule::ident)
        invariant
            well_lexed(src@, t@),
            i <= at < t.len(),
            idents@.len() > 0,
            first.span.within(src@.len()) ==> idents_within(idents@, src@.len()),
            path(src@, t@, i as int, start) == path(src@, t@, at as int, names(idents@)),
            rule_at(t@, at as int) == GrammarRule::DOT ==> at + 1 < t.len(),
        decreases t.len() - at,
    {
        proof {
            lemma_next(src@, t@, at + 1);
        }
        let ghost before = names(idents@);
        let ident = ident_at(src, t, at + 1);
        idents.push(ident);
        assert(names(idents@) =~= before.push(name_at(src@, t@, at + 1)));
        at += 2;
        proof {
            if rule_at(t@, at as int) == GrammarRule::DOT {
                lemma_next(src@, t@, at as int);
            }
        }
    }
    (idents, at)
}

/// Reads a list of pattern identifiers, from token `i` on.
pub fn parse_pattern_list(src: &[u8], t: &[Token], i: usize) -> (found: Result<
    (Vec<Ident>, usize),
    Failure,
>)
    requires
        well_lexed(src@, t@),
        i < t.len(),
    ensures
        match found {
            Ok((idents, n)) => pattern_list(src@, t@, i as int, Seq::empty()) == Parsed::Done(
                names(idents@),
                n as int,
            ) && i < n && n + 1 < t.len() && idents_within(idents@, src@.len()),
            Err(f) => pattern_list(src@, t@, i as int, Seq::empty()) == Parsed::<Seq<Name>>::Fail(
                f,
            ) && f.span.within(src@.len()),
        },
{
    let mut idents: Vec<Ident> = Vec::new();
    let mut at: usize = i;
    assert(names(idents@) =~= Seq::<Name>::empty());
    loop
        invariant
            well_lexed(src@, t@),
            i <= at < t.len(),
            idents_within(idents@, src@.len()),
            pattern_list(src@, t@, i as int, Seq::empty()) == pattern_list(
                src@,
                t@,
                at as int,
                names(idents@),
            ),
        decreases t.len() - at,
    {
        if !has_rule(t, at, GrammarRule::string_ident) {
            return Err(unexpected(t, at, Expected::One(GrammarRule::string_ident)));
        }
        proof {
            lemma_next(src@, t@, at as int);
        }
        let ghost before = names(idents@);
        let ident = ident_at(src, t, at);
        idents.push(ident);
        assert(names(idents@) =~= before.push(name_at(src@, t@, at as int)));
        if has_rule(t, at + 1, GrammarRule::COMMA) {
            proof {
                lemma_next(src@, t@, at + 1);
            }
            at += 2;
        } else if has_rule(t, at + 1, GrammarRule::RPAREN) {
            proof {
                lemma_next(src@, t@, at + 1);
            }
            return Ok((idents, at + 1));
        } else {
            return Err(unexpected(t, at + 1, Expected::CommaOrClose));
        }
    }
}

/// Reads the pattern set of an `of` expression whose quantifier began at
/// token `from`.
pub fn parse_pattern_set(
    src: &[u8],
    t: &[Token],
    i: usize,
    quantifier: Quantifier,
    from: usize,
) -> (r: Result<(Expr, usize), Failure>)
    requires
        well_lexed(src@, t@),
        from < i < t.len(),
    ensures
        agrees(r, pattern_set(src@, t@, i as int, quantifier, from as int)),
        r matches Ok((e, n)) ==> i < n < t.len() && spanned(e, src@, t@, from as int, n as int),
        r matches Err(f) ==> f.span.within(src@.len()),
{
    if has_rule(t, i, GrammarRule::k_THEM) {
        proof {
            lemma_next(src@, t@, i as int);
        }
        let span = Span::new(t[from].span.start, t[i].span.end);
        proof {
            lemma_ordered(src@, t@, from as int, i as int);
        }
        Ok((Expr { kind: ExprKind::Of(quantifier, PatternSet::Them), span }, i + 1))
    } else if has_rule(t, i, GrammarRule::LPAREN) {
        proof {
            lemma_next(src@, t@, i as int);
        }
        match parse_pattern_list(src, t, i + 1) {
            Ok((idents, n)) => {
                let span = Span::new(t[from].span.start, t[n].span.end);
                proof {
                    lemma_ordered(src@, t@, from as int, n as int);
                }
                Ok((Expr { kind: ExprKind::Of(quantifier, PatternSet::Named(idents)), span }, n + 1))
            },
            Err(f) => Err(f),
        }
    } else {
        Err(unexpected(t, i, Expected::Patterns))
    }
}

/// Reads a chain of operands of one level with the operators between them.
pub fn parse_chain(src: &[u8], t: &[Token], i: usize, level: u8) -> (r: Result<
    (Expr, usize),
    Failure,
>)
    requires
        well_lexed(src@, t@),
        i < t.len(),
        1 <= level <= 9,
    ensures
        agrees(r, chain(src@, t@, i as int, level as int)),
        r matches Ok((e, n)) ==> i < n < t.len() && spanned(e, src@, t@, i as int, n as int),
        r matches Err(f) ==> f.span.within(src@.len()),
    decreases t.len() - i, 4 * level + 2,
{
    let (mut left, mut at) = match parse_operand(src, t, i, level) {
        Ok(found) => found,
        Err(f) => {
            return Err(f);
        },
    };
    loop
        invariant
            well_lexed(src@, t@),
            i < at < t.len(),
            1 <= level <= 9,
            spanned(left, src@, t@, i as int, at as int),
            chain(src@, t@, i as int, level as int) == rest(
                src@,
                t@,
                at as int,
                level as int,
                left.model(),
            ),
        decreases t.len() - at,
    {
        let op = match operator_of(level, t[at].rule) {
            Some(op) => op,
            None => {
                return Ok((left, at));
            },
        };
        proof {
            lemma_next(src@, t@, at as int);
        }
        match parse_operand(src, t, at + 1, level) {
            Err(f) => {
                return Err(f);
            },
            Ok((right, n)) => {
                proof {
                    lemma_ordered(src@, t@, at - 1, at + 1);
                }
                left = combine(op, left, right);
                at = n;
            },
        }
    }
}

/// Reads an operand of a level.
pub fn parse_operand(src: &[u8], t: &[Token], i: usize, level: u8) -> (r: Result<
    (Expr, usize),
    Failure,
>)
    requires
        well_lexed(src@, t@),
        i < t.len(),
        1 <= level <= 9,
    ensures
        agrees(r, operand(src@, t@, i as int, level as int)),
        r matches Ok((e, n)) ==> i < n < t.len() && spanned(e, src@, t@, i as int, n as int),
        r matches Err(f) ==> f.span.within(src@.len()),
    decreases t.len() - i, 4 * level,
{
    if level == CONJUNCTION {
        parse_not_term(src, t, i)
    } else if level >= 2 {
        parse_chain(src, t, i, level - 1)
    } else {
        parse_unary(src, t, i)
    }
}

/// Reads a term with the negations in front of it.
pub fn parse_not_term(src: &[u8], t: &[Token], i: usize) -> (r: Result<(Expr, usize), Failure>)
    requires
        well_lexed(src@, t@),
        i < t.len(),
    ensures
        agrees(r, not_term(src@, t@, i as int)),
        r matches Ok((e, n)) ==> i < n < t.len() && spanned(e, src@, t@, i as int, n as int),
        r matches Err(f) ==> f.span.within(src@.len()),
    decreases t.len() - i, 31int,
{
    if has_rule(t, i, GrammarRule::k_NOT) {
        proof {
            lemma_next(src@, t@, i as int);
        }
        match parse_not_term(src, t, i + 1) {
            Ok((e, n)) => {
                let span = Span::new(t[i].span.start, e.span.end);
                proof {
                    lemma_ordered(src@, t@, i as int, i + 1);
                    assert(span.within(src@.len()));
                }
                Ok((Expr { kind: ExprKind::Not(Box::new(e)), span }, n))
            },
            Err(f) => Err(f),
        }
    } else {
        parse_chain(src, t, i, COMPARISON)
    }
}

/// Reads a primary with the signs in front of it.
pub fn parse_unary(src: &[u8], t: &[Token], i: usize) -> (r: Result<(Expr, usize), Failure>)
    requires
        well_lexed(src@, t@),
        i < t.len(),
    ensures
        agrees(r, unary(src@, t@, i as int)),
        r matches Ok((e, n)) ==> i < n < t.len() && spanned(e, src@, t@, i as int, n as int),
        r matches Err(f) ==> f.span.within(src@.len()),
    decreases t.len() - i, 3int,
{
    if has_rule(t, i, GrammarRule::MINUS) {
        proof {
            lemma_next(src@, t@, i as int);
        }
        match parse_unary(src, t, i + 1) {
            Ok((e, n)) => {
                let span = Span::new(t[i].span.start, e.span.end);
                let zero = Expr { kind: ExprKind::LiteralInt(0), span: t[i].span };
                assert(zero.model() == zero_at(t@, i as int));
                proof {
                    lemma_ordered(src@, t@, i as int, i + 1);
                    assert(expr_within(zero, src@.len()));
                    assert(span.within(src@.len()));
                }
                Ok(
                    (
                        Expr {
                            kind: ExprKind::Arith(Arithmetic::Sub, Box::new(zero), Box::new(e)),
                            span,
                        },
                        n,
                    ),
                )
            },
            Err(f) => Err(f),
        }
    } else {
        parse_primary(src, t, i)
    }
}

/// Reads what begins with a number: the number, or an `of` expression with
/// the number as its quantifier.
pub fn parse_quantity(src: &[u8], t: &[Token], i: usize) -> (r: Result<(Expr, usize), Failure>)
    requires
        well_lexed(src@, t@),
        i < t.len(),
        rule_at(t@, i as int) == GrammarRule::integer_lit,
    ensures
        agrees(r, primary(src@, t@, i as int)),
        r matches Ok((e, n)) ==> i < n < t.len() && spanned(e, src@, t@, i as int, n as int),
        r matches Err(f) ==> f.span.within(src@.len()),
{
    let span = t[i].span;
    proof {
        lemma_next(src@, t@, i as int);
    }
    let v = match read_number_at(src, span) {
        Some(v) => v,
        None => {
            return Err(Failure { flaw: Flaw::InvalidInteger, span });
        },
    };
    if has_rule(t, i + 1, GrammarRule::k_OF) {
        proof {
            lemma_next(src@, t@, i + 1);
        }
        parse_pattern_set(src, t, i + 2, Quantifier::Count(v), i)
    } else if has_rule(t, i + 1, GrammarRule::PERCENT) {
        proof {
            lemma_next(src@, t@, i + 1);
        }
        if has_rule(t, i + 2, GrammarRule::k_OF) {
            proof {
                lemma_next(src@, t@, i + 2);
            }
            parse_pattern_set(src, t, i + 3, Quantifier::Percent(v), i)
        } else {
            Ok((Expr { kind: ExprKind::LiteralInt(v), span }, i + 1))
        }
    } else {
        Ok((Expr { kind: ExprKind::LiteralInt(v), span }, i + 1))
    }
}

/// Reads an `of` expression that begins with `any` or `all`.
pub fn parse_quantified(src: &[u8], t: &[Token], i: usize) -> (r: Result<(Expr, usize), Failure>)
    requires
        well_lexed(src@, t@),
        i < t.len(),
        rule_at(t@, i as int) == GrammarRule::k_ANY || rule_at(t@, i as int) == GrammarRule::k_ALL,
    ensures
        agrees(r, primary(src@, t@, i as int)),
        r matches Ok((e, n)) ==> i < n < t.len() && spanned(e, src@, t@, i as int, n as int),
        r matches Err(f) ==> f.span.within(src@.len()),
{
    proof {
        lemma_next(src@, t@, i as int);
    }
    let quantifier = if has_rule(t, i, GrammarRule::k_ANY) {
        Quantifier::Any
    } else {
        Quantifier::All
    };
    if has_rule(t, i + 1, GrammarRule::k_OF) {
        proof {
            lemma_next(src@, t@, i + 1);
        }
        parse_pattern_set(src, t, i + 2, quantifier, i)
    } else {
        Err(unexpected(t, i + 1, Expected::One(GrammarRule::k_OF)))
    }
}

/// Reads an identifier with the fields that are taken of it.
pub fn parse_field_access(src: &[u8], t: &[Token], i: usize) -> (r: Result<(Expr, usize), Failure>)
    requires
        well_lexed(src@, t@),
        i < t.len(),
        rule_at(t@, i as int) == GrammarRule::ident,
        rule_at(t@, i + 1) != GrammarRule::LPAREN,
    ensures
        agrees(r, primary(src@, t@, i as int)),
        r matches Ok((e, n)) ==> i < n < t.len() && spanned(e, src@, t@, i as int, n as int),
        r matches Err(f) ==> f.span.within(src@.len()),
{
    proof {
        lemma_next(src@, t@, i as int);
    }
    let first = ident_at(src, t, i);
    let (idents, n) = parse_path(src, t, i + 1, first);
    let span = Span::new(t[i].span.start, t[n - 1].span.end);
    proof {
        lemma_ordered(src@, t@, i as int, n - 1);
    }
    Ok((Expr { kind: ExprKind::FieldAccess(idents), span }, n))
}

/// Reads a primary expression.
pub fn parse_primary(src: &[u8], t: &[Token], i: usize) -> (r: Result<(Expr, usize), Failure>)
    requires
        well_lexed(src@, t@),
        i < t.len(),
    ensures
        agrees(r, primary(src@, t@, i as int)),
        r matches Ok((e, n)) ==> i < n < t.len() && spanned(e, src@, t@, i as int, n as int),
        r matches Err(f) ==> f.span.within(src@.len()),
    decreases t.len() - i, 2int,
{
    let span = t[i].span;
    proof {
        if rule_at(t@, i as int) != GrammarRule::EOI {
            lemma_next(src@, t@, i as int);
        }
        lemma_ordered(src@, t@, i as int, i as int);
    }
    match t[i].rule {
        GrammarRule::k_TRUE => Ok((Expr { kind: ExprKind::True, span }, i + 1)),
        GrammarRule::k_FALSE => Ok((Expr { kind: ExprKind::False, span }, i + 1)),
        GrammarRule::k_FILESIZE => Ok((Expr { kind: ExprKind::Filesize, span }, i + 1)),
        GrammarRule::integer_lit => parse_quantity(src, t, i),
        GrammarRule::string_lit => match read_string_at(src, span) {
            Ok(bytes) => Ok((Expr { kind: ExprKind::LiteralStr(bytes), span }, i + 1)),
            Err(at) => Err(
                Failure { flaw: Flaw::InvalidEscapeSequence, span: Span::new(at, at + 1) },
            ),
        },
        GrammarRule::string_ident => {
            if has_rule(t, i + 1, GrammarRule::k_AT) {
                proof {
                    lemma_next(src@, t@, i + 1);
                }
                match parse_chain(src, t, i + 2, BIT_OR) {
                    Ok((offset, n)) => {
                        let name = text_of(src, span);
                        let whole = Span::new(span.start, offset.span.end);
                        proof {
                            lemma_ordered(src@, t@, i as int, i + 2);
                        }
                        Ok((Expr { kind: ExprKind::PatternAt(name, Box::new(offset)), span: whole }, n))
                    },
                    Err(f) => Err(f),
                }
            } else if has_rule(t, i + 1, GrammarRule::k_IN) {
                parse_pattern_range(src, t, i)
            } else {
                let name = text_of(src, span);
                Ok((Expr { kind: ExprKind::PatternMatch(name), span }, i + 1))
            }
        },
        GrammarRule::k_ANY => parse_quantified(src, t, i),
        GrammarRule::k_ALL => parse_quantified(src, t, i),
        GrammarRule::LPAREN => match parse_chain(src, t, i + 1, DISJUNCTION) {
            Ok((e, n)) => {
                if has_rule(t, n, GrammarRule::RPAREN) {
                    proof {
                        lemma_next(src@, t@, n as int);
                        lemma_ordered(src@, t@, i as int, i + 1);
                        lemma_ordered(src@, t@, n - 1, n as int);
                    }
                    Ok((e, n + 1))
                } else {
                    Err(unexpected(t, n, Expected::One(GrammarRule::RPAREN)))
                }
            },
            Err(f) => Err(f),
        },
        GrammarRule::ident => {
            if has_rule(t, i + 1, GrammarRule::LPAREN) {
                parse_call(src, t, i)
            } else {
                parse_field_access(src, t, i)
            }
        },
        GrammarRule::k_FOR => parse_for(src, t, i),
        _ => Err(unexpected(t, i, Expected::Expression)),
    }
}

/// Reads the rest of a pattern looked for between two offsets, from the
/// upper bound on, which begins at token `i`.
pub fn parse_range_upper(
    src: &[u8],
    t: &[Token],
    i: usize,
    name: String,
    start: usize,
    lower: Expr,
) -> (r: Result<(Expr, usize), Failure>)
    requires
        well_lexed(src@, t@),
        i < t.len(),
        expr_within(lower, src@.len()),
        start <= span_at(t@, i as int).start,
    ensures
        agrees(r, range_upper(src@, t@, i as int, name@, start, lower.model())),
        r matches Ok((e, n)) ==> i < n < t.len() && expr_within(e, src@.len()) && e.span.start
            == start && e.span.end <= span_at(t@, n - 1).end,
        r matches Err(f) ==> f.span.within(src@.len()),
    decreases t.len() - i, 45int,
{
    let (upper, b) = match parse_chain(src, t, i, BIT_OR) {
        Ok(found) => found,
        Err(f) => {
            return Err(f);
        },
    };
    if !has_rule(t, b, GrammarRule::RPAREN) {
        return Err(unexpected(t, b, Expected::One(GrammarRule::RPAREN)));
    }
    proof {
        lemma_next(src@, t@, b as int);
        lemma_ordered(src@, t@, i as int, b as int);
    }
    let span = Span::new(start, t[b].span.end);
    Ok((Expr { kind: ExprKind::PatternIn(name, Box::new(lower), Box::new(upper)), span }, b + 1))
}

/// Reads a pattern looked for between two offsets, whose identifier is
/// token `i`.
pub fn parse_pattern_range(src: &[u8], t: &[Token], i: usize) -> (r: Result<(Expr, usize), Failure>)
    requires
        well_lexed(src@, t@),
        i + 1 < t.len(),
        rule_at(t@, i + 1) == GrammarRule::k_IN,
    ensures
        agrees(r, pattern_range(src@, t@, i as int)),
        r matches Ok((e, n)) ==> i < n < t.len() && spanned(e, src@, t@, i as int, n as int),
        r matches Err(f) ==> f.span.within(src@.len()),
    decreases t.len() - i, 1int,
{
    proof {
        lemma_next(src@, t@, i + 1);
    }
    if !has_rule(t, i + 2, GrammarRule::LPAREN) {
        return Err(unexpected(t, i + 2, Expected::One(GrammarRule::LPAREN)));
    }
    proof {
        lemma_next(src@, t@, i + 2);
    }
    let (lower, a) = match parse_chain(src, t, i + 3, BIT_OR) {
        Ok(found) => found,
        Err(f) => {
            return Err(f);
        },
    };
    if let Some(f) = check_loop_range(src, t, a) {
        return Err(f);
    }
    proof {
        lemma_ordered(src@, t@, i as int, a + 2);
    }
    let name = text_of(src, t[i].span);
    parse_range_upper(src, t, a + 2, name, t[i].span.start, lower)
}

/// Reads a call, whose function is named at token `i`.
pub fn parse_call(src: &[u8], t: &[Token], i: usize) -> (r: Result<(Expr, usize), Failure>)
    requires
        well_lexed(src@, t@),
        i + 1 < t.len(),
        rule_at(t@, i + 1) == GrammarRule::LPAREN,
    ensures
        agrees(r, call(src@, t@, i as int)),
        r matches Ok((e, n)) ==> i < n < t.len() && spanned(e, src@, t@, i as int, n as int),
        r matches Err(f) ==> f.span.within(src@.len()),
    decreases t.len() - i, 1int,
{
    proof {
        lemma_next(src@, t@, i + 1);
    }
    let callee = ident_at(src, t, i);
    let mut args: Vec<Expr> = Vec::new();
    let mut at: usize = i + 2;
    if has_rule(t, at, GrammarRule::RPAREN) {
        proof {
            lemma_next(src@, t@, at as int);
        }
        let span = Span::new(t[i].span.start, t[at].span.end);
        let e = Expr { kind: ExprKind::Call { callee, args }, span };
        proof {
            e.lemma_arg_models(0);
            lemma_ordered(src@, t@, i as int, at as int);
            assert(args_within(e, 0, src@.len()));
            assert(e.span.within(src@.len()));
            assert(expr_within(e, src@.len()));
        }
        return Ok((e, at + 1));
    }
    assert(nodes(args@) =~= Seq::<Node>::empty());
    loop
        invariant
            well_lexed(src@, t@),
            i + 2 <= at < t.len(),
            arguments(src@, t@, i + 2, Seq::empty()) == arguments(
                src@,
                t@,
                at as int,
                nodes(args@),
            ),
            callee.model() == name_at(src@, t@, i as int),
            callee.span == t@[i as int].span,
            callee.span.within(src@.len()),
            forall|k: int| 0 <= k < args@.len() ==> expr_within(#[trigger] args@[k], src@.len()),
            rule_at(t@, i + 1) == GrammarRule::LPAREN,
            rule_at(t@, i + 2) != GrammarRule::RPAREN,
        decreases t.len() - at,
    {
        let (e, n) = match parse_chain(src, t, at, DISJUNCTION) {
            Ok(found) => found,
            Err(f) => {
                return Err(f);
            },
        };
        let ghost before = nodes(args@);
        let ghost node = e.model();
        args.push(e);
        assert(nodes(args@) =~= before.push(node));
        if has_rule(t, n, GrammarRule::COMMA) {
            proof {
                lemma_next(src@, t@, n as int);
            }
            at = n + 1;
        } else if has_rule(t, n, GrammarRule::RPAREN) {
            proof {
                lemma_next(src@, t@, n as int);
            }
            let span = Span::new(t[i].span.start, t[n].span.end);
            let ghost count = args@.len() as int;
            let call = Expr { kind: ExprKind::Call { callee, args }, span };
            proof {
                call.lemma_arg_models(count);
                assert(call.arg_models(count) =~= nodes(call.kind->Call_args@));
                lemma_args_within(call, count, src@.len());
                lemma_ordered(src@, t@, i as int, n as int);
            }
            return Ok((call, n + 1));
        } else {
            return Err(unexpected(t, n, Expected::CommaOrClose));
        }
    }
}

/// The failure where token `i` is not `rule`.
pub fn expect(t: &[Token], i: usize, rule: GrammarRule) -> (f: Option<Failure>)
    requires
        i < t.len(),
    ensures
        f == other_than(t@, i as int, rule),
        f matches Some(x) ==> x.span == t@[i as int].span,
{
    if has_rule(t, i, rule) {
        None
    } else {
        Some(unexpected(t, i, Expected::One(rule)))
    }
}

/// Checks the tokens that open a loop.
pub fn check_loop_head(src: &[u8], t: &[Token], i: usize) -> (f: Option<Failure>)
    requires
        well_lexed(src@, t@),
        i < t.len(),
    ensures
        f == loop_head(t@, i as int),
        f is None ==> i + 5 < t.len(),
        f matches Some(x) ==> x.span.within(src@.len()),
{
    if !has_rule(t, i, GrammarRule::k_FOR) {
        return expect(t, i, GrammarRule::k_FOR);
    }
    proof {
        lemma_next(src@, t@, i as int);
    }
    if !has_rule(t, i + 1, GrammarRule::k_ANY) {
        return expect(t, i + 1, GrammarRule::k_ANY);
    }
    proof {
        lemma_next(src@, t@, i + 1);
    }
    if !has_rule(t, i + 2, GrammarRule::ident) {
        return expect(t, i + 2, GrammarRule::ident);
    }
    proof {
        lemma_next(src@, t@, i + 2);
    }
    if !has_rule(t, i + 3, GrammarRule::k_IN) {
        return expect(t, i + 3, GrammarRule::k_IN);
    }
    proof {
        lemma_next(src@, t@, i + 3);
    }
    let f = expect(t, i + 4, GrammarRule::LPAREN);
    proof {
        if f is None {
            lemma_next(src@, t@, i + 4);
        }
    }
    f
}

/// Checks the two dots between the bounds of a loop.
pub fn check_loop_range(src: &[u8], t: &[Token], i: usize) -> (f: Option<Failure>)
    requires
        well_lexed(src@, t@),
        i < t.len(),
    ensures
        f == loop_range(t@, i as int),
        f is None ==> i + 2 < t.len(),
        f matches Some(x) ==> x.span.within(src@.len()),
{
    if !has_rule(t, i, GrammarRule::DOT) {
        return expect(t, i, GrammarRule::DOT);
    }
    proof {
        lemma_next(src@, t@, i as int);
    }
    let f = expect(t, i + 1, GrammarRule::DOT);
    proof {
        if f is None {
            lemma_next(src@, t@, i + 1);
        }
    }
    f
}

/// Checks the tokens between the bounds of a loop and its condition.
pub fn check_loop_body(src: &[u8], t: &[Token], i: usize) -> (f: Option<Failure>)
    requires
        well_lexed(src@, t@),
        i < t.len(),
    ensures
        f == loop_body(t@, i as int),
        f is None ==> i + 3 < t.len(),
        f matches Some(x) ==> x.span.within(src@.len()),
{
    if !has_rule(t, i, GrammarRule::RPAREN) {
        return expect(t, i, GrammarRule::RPAREN);
    }
    proof {
        lemma_next(src@, t@, i as int);
    }
    if !has_rule(t, i + 1, GrammarRule::COLON) {
        return expect(t, i + 1, GrammarRule::COLON);
    }
    proof {
        lemma_next(src@, t@, i + 1);
    }
    let f = expect(t, i + 2, GrammarRule::LPAREN);
    proof {
        if f is None {
            lemma_next(src@, t@, i + 2);
        }
    }
    f
}

/// Reads the rest of a loop from its condition on, which begins at token
/// `i`.
pub fn parse_loop_condition(
    src: &[u8],
    t: &[Token],
    i: usize,
    var: Ident,
    start: usize,
    lower: Expr,
    upper: Expr,
) -> (r: Result<(Expr, usize), Failure>)
    requires
        well_lexed(src@, t@),
        i < t.len(),
        var.span.within(src@.len()),
        expr_within(lower, src@.len()),
        expr_within(upper, src@.len()),
        start <= span_at(t@, i as int).start,
    ensures
        agrees(
            r,
            loop_condition(src@, t@, i as int, var.model(), start, lower.model(), upper.model()),
        ),
        r matches Ok((e, n)) ==> i < n < t.len() && expr_within(e, src@.len()) && e.span.start
            == start && e.span.end <= span_at(t@, n - 1).end,
        r matches Err(f) ==> f.span.within(src@.len()),
    decreases t.len() - i, 45int,
{
    let (condition, c) = match parse_chain(src, t, i, DISJUNCTION) {
        Ok(found) => found,
        Err(f) => {
            return Err(f);
        },
    };
    if !has_rule(t, c, GrammarRule::RPAREN) {
        return Err(unexpected(t, c, Expected::One(GrammarRule::RPAREN)));
    }
    proof {
        lemma_next(src@, t@, c as int);
        lemma_ordered(src@, t@, i as int, c as int);
    }
    let span = Span::new(start, t[c].span.end);
    Ok(
        (
            Expr {
                kind: ExprKind::ForIn {
                    var,
                    lower: Box::new(lower),
                    upper: Box::new(upper),
                    condition: Box::new(condition),
                },
                span,
            },
            c + 1,
        ),
    )
}

/// Reads the rest of a loop from its upper bound on, which begins at token
/// `i`.
pub fn parse_loop_upper(
    src: &[u8],
    t: &[Token],
    i: usize,
    var: Ident,
    start: usize,
    lower: Expr,
) -> (r: Result<(Expr, usize), Failure>)
    requires
        well_lexed(src@, t@),
        i < t.len(),
        var.span.within(src@.len()),
        expr_within(lower, src@.len()),
        start <= span_at(t@, i as int).start,
    ensures
        agrees(r, loop_upper(src@, t@, i as int, var.model(), start, lower.model())),
        r matches Ok((e, n)) ==> i < n < t.len() && expr_within(e, src@.len()) && e.span.start
            == start && e.span.end <= span_at(t@, n - 1).end,
        r matches Err(f) ==> f.span.within(src@.len()),
    decreases t.len() - i, 45int,
{
    let (upper, b) = match parse_chain(src, t, i, BIT_OR) {
        Ok(found) => found,
        Err(f) => {
            return Err(f);
        },
    };
    if let Some(f) = check_loop_body(src, t, b) {
        return Err(f);
    }
    proof {
        lemma_ordered(src@, t@, i as int, b + 3);
    }
    parse_loop_condition(src, t, b + 3, var, start, lower, upper)
}

/// Reads a loop, which begins at token `i`.
pub fn parse_for(src: &[u8], t: &[Token], i: usize) -> (r: Result<(Expr, usize), Failure>)
    requires
        well_lexed(src@, t@),
        i < t.len(),
    ensures
        agrees(r, for_loop(src@, t@, i as int)),
        r matches Ok((e, n)) ==> i < n < t.len() && spanned(e, src@, t@, i as int, n as int),
        r matches Err(f) ==> f.span.within(src@.len()),
    decreases t.len() - i, 1int,
{
    if let Some(f) = check_loop_head(src, t, i) {
        return Err(f);
    }
    let var = ident_at(src, t, i + 2);
    let (lower, a) = match parse_chain(src, t, i + 5, BIT_OR) {
        Ok(found) => found,
        Err(f) => {
            return Err(f);
        },
    };
    if let Some(f) = check_loop_range(src, t, a) {
        return Err(f);
    }
    proof {
        lemma_ordered(src@, t@, i as int, a + 2);
    }
    parse_loop_upper(src, t, a + 2, var, t[i].span.start, lower)
}

/// Reads the condition of a rule, from token `i` on.
pub fn parse_boolean_expr(src: &[u8], t: &[Token], i: usize) -> (r: Result<(Expr, usize), Failure>)
    requires
        well_lexed(src@, t@),
        i < t.len(),
    ensures
        agrees(r, boolean_expr(src@, t@, i as int)),
        r matches Ok((e, n)) ==> i < n < t.len() && spanned(e, src@, t@, i as int, n as int),
        r matches Err(f) ==> f.span.within(src@.len()),
{
    parse_chain(src, t, i, DISJUNCTION)
}


} // verus!
