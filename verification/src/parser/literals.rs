//! What the literals of a source stand for: the value of a number, the bytes
//! of a string.

use crate::parser::lexer::{
    digit_value, hex_number_at, is_hex_digit, is_hex_number, Class, BACKSLASH, NEWLINE, QUOTE,
    RETURN, SMALL_X, TAB,
};
use crate::parser::span::Span;
use vstd::prelude::*;
use vstd::slice::slice_subrange;

verus! {

/// The number that digits write to a base, the first digit counting most.
pub open spec fn number(digits: Seq<u8>, base: nat) -> nat
    decreases digits.len(),
{
    if digits.len() == 0 {
        0
    } else {
        number(digits.drop_last(), base) * base + digit_value(digits.last())
    }
}

/// The first digits of a number write a number that is no larger.
pub proof fn lemma_number_grows(digits: Seq<u8>, k: int, base: nat)
    requires
        0 <= k <= digits.len(),
        base >= 1,
    ensures
        number(digits.take(k), base) <= number(digits, base),
    decreases digits.len() - k,
{
    if k < digits.len() {
        lemma_number_grows(digits, k + 1, base);
        assert(digits.take(k + 1).drop_last() =~= digits.take(k));
        let shorter = number(digits.take(k), base);
        assert(shorter <= shorter * base) by (nonlinear_arith)
            requires
                base >= 1,
        ;
    } else {
        assert(digits.take(k) =~= digits);
    }
}

/// What a digit counts.
pub fn digit_of(b: u8) -> (value: u64)
    ensures
        value == digit_value(b),
        value <= 15,
{
    if 0x30 <= b && b <= 0x39 {
        (b - 0x30) as u64
    } else if 0x41 <= b && b <= 0x46 {
        (b - 0x41 + 10) as u64
    } else if 0x61 <= b && b <= 0x66 {
        (b - 0x61 + 10) as u64
    } else {
        0
    }
}

/// The number that the digits write, if it fits in 64 bits with a sign.
pub open spec fn fitting(digits: Seq<u8>, base: nat) -> Option<i64> {
    if number(digits, base) <= i64::MAX {
        Some(number(digits, base) as i64)
    } else {
        None
    }
}

/// Reads the number that the digits write to a base.
pub fn read_number(digits: &[u8], base: u64) -> (value: Option<i64>)
    requires
        1 <= base <= 16,
    ensures
        value == fitting(digits@, base as nat),
{
    let mut acc: u64 = 0;
    let mut k: usize = 0;
    while k < digits.len()
        invariant
            k <= digits.len(),
            1 <= base <= 16,
            acc == number(digits@.take(k as int), base as nat),
            acc <= i64::MAX,
        decreases digits.len() - k,
    {
        let d = digit_of(digits[k]);
        proof {
            assert(digits@.take(k + 1).drop_last() =~= digits@.take(k as int));
            assert(digits@.take(k + 1).last() == digits@[k as int]);
        }
        let room: u64 = (i64::MAX as u64 - d) / base;
        if acc > room {
            proof {
                lemma_number_grows(digits@, k + 1, base as nat);
                assert(acc * base + d > i64::MAX) by (nonlinear_arith)
                    requires
                        acc > room,
                        room == (i64::MAX - d) / (base as int),
                        1 <= base,
                        d <= 15,
                ;
            }
            return None;
        }
        assert(acc * base + d <= i64::MAX) by (nonlinear_arith)
            requires
                acc <= room,
                room == (i64::MAX - d) / (base as int),
                1 <= base,
                d <= 15,
        ;
        acc = acc * base + d;
        k += 1;
    }
    proof {
        assert(digits@.take(k as int) =~= digits@);
    }
    Some(acc as i64)
}

/// The value of the number literal that stands at `span`, if it fits.
pub open spec fn number_at(src: Seq<u8>, span: Span) -> Option<i64> {
    if is_hex_number(src, span.start as int) {
        fitting(src.subrange(span.start + 2, span.end as int), 16)
    } else {
        fitting(src.subrange(span.start as int, span.end as int), 10)
    }
}

/// The value of a number literal is not negative.
pub proof fn lemma_number_at_is_positive(src: Seq<u8>, span: Span)
    ensures
        number_at(src, span) matches Some(v) ==> v >= 0,
{
}

/// Reads the number literal that stands at `span`.
pub fn read_number_at(src: &[u8], span: Span) -> (value: Option<i64>)
    requires
        span.start < span.end <= src.len(),
        is_hex_number(src@, span.start as int) ==> span.start + 2 <= span.end,
    ensures
        value == number_at(src@, span),
{
    if hex_number_at(src, span.start) {
        read_number(slice_subrange(src, span.start + 2, span.end), 16)
    } else {
        read_number(slice_subrange(src, span.start, span.end), 10)
    }
}

/// What a string literal stands for.
pub enum Text {
    /// These bytes.
    Bytes(Seq<u8>),
    /// Nothing: behind the backslash at this position nothing known follows.
    BadEscape(int),
}

/// The byte that an escape sequence stands for, and how many bytes behind
/// the backslash it takes: `\\`, `\"`, `\n`, `\r`, `\t`, and `\x` with two
/// hexadecimal digits.
pub open spec fn escape(body: Seq<u8>, k: int) -> Option<(u8, int)> {
    if !(0 <= k < body.len()) {
        None
    } else if body[k] == BACKSLASH || body[k] == QUOTE {
        Some((body[k], 1))
    } else if body[k] == 0x6e {
        Some((NEWLINE, 1))
    } else if body[k] == 0x72 {
        Some((RETURN, 1))
    } else if body[k] == 0x74 {
        Some((TAB, 1))
    } else if body[k] == SMALL_X && k + 2 < body.len() && is_hex_digit(body[k + 1])
        && is_hex_digit(body[k + 2]) {
        Some(((digit_value(body[k + 1]) * 16 + digit_value(body[k + 2])) as u8, 3))
    } else {
        None
    }
}

/// `bytes` in front of what the rest of a literal stands for.
pub open spec fn after(bytes: Seq<u8>, rest: Text) -> Text {
    match rest {
        Text::Bytes(more) => Text::Bytes(bytes + more),
        Text::BadEscape(at) => Text::BadEscape(at),
    }
}

/// What the body of a string literal stands for from position `k` on: each
/// byte for itself, each escape sequence for its byte.
pub open spec fn unescaped(body: Seq<u8>, k: int) -> Text
    decreases body.len() - k,
{
    if !(0 <= k < body.len()) {
        Text::Bytes(Seq::empty())
    } else if body[k] != BACKSLASH {
        after(seq![body[k]], unescaped(body, k + 1))
    } else {
        match escape(body, k + 1) {
            Some((byte, used)) => if 1 <= used && k + 1 + used <= body.len() {
                after(seq![byte], unescaped(body, k + 1 + used))
            } else {
                Text::BadEscape(k)
            },
            None => Text::BadEscape(k),
        }
    }
}

/// Reads the escape sequence whose backslash stands before `k`.
pub fn read_escape(body: &[u8], k: usize) -> (found: Option<(u8, usize)>)
    requires
        k <= body.len(),
    ensures
        match found {
            Some((byte, used)) => escape(body@, k as int) == Some((byte, used as int)) && 1 <= used
                && k + used <= body.len(),
            None => escape(body@, k as int) is None,
        },
{
    if k >= body.len() {
        return None;
    }
    let b = body[k];
    if b == BACKSLASH || b == QUOTE {
        Some((b, 1))
    } else if b == 0x6e {
        Some((NEWLINE, 1))
    } else if b == 0x72 {
        Some((RETURN, 1))
    } else if b == 0x74 {
        Some((TAB, 1))
    } else if b == SMALL_X && body.len() - k > 2 && Class::HexDigit.has(body[k + 1])
        && Class::HexDigit.has(body[k + 2]) {
        let high = digit_of(body[k + 1]);
        let low = digit_of(body[k + 2]);
        Some(((high * 16 + low) as u8, 3))
    } else {
        None
    }
}

/// Reads what the body of a string literal stands for: its bytes, or the
/// position of the backslash that begins no escape sequence.
pub fn unescape(body: &[u8]) -> (found: Result<Vec<u8>, usize>)
    ensures
        match found {
            Ok(bytes) => unescaped(body@, 0) == Text::Bytes(bytes@),
            Err(at) => unescaped(body@, 0) == Text::BadEscape(at as int) && at < body.len(),
        },
{
    let mut bytes: Vec<u8> = Vec::new();
    let mut k: usize = 0;
    while k < body.len()
        invariant
            k <= body.len(),
            unescaped(body@, 0) == after(bytes@, unescaped(body@, k as int)),
        decreases body.len() - k,
    {
        let ghost before = bytes@;
        let ghost here = k as int;
        if body[k] != BACKSLASH {
            bytes.push(body[k]);
            k += 1;
            proof {
                if let Text::Bytes(more) = unescaped(body@, k as int) {
                    assert(before + (seq![body@[here]] + more) =~= bytes@ + more);
                }
            }
        } else {
            match read_escape(body, k + 1) {
                None => {
                    return Err(k);
                },
                Some((byte, used)) => {
                    bytes.push(byte);
                    k = k + 1 + used;
                    proof {
                        if let Text::Bytes(more) = unescaped(body@, k as int) {
                            assert(before + (seq![byte] + more) =~= bytes@ + more);
                        }
                    }
                },
            }
        }
    }
    proof {
        assert(bytes@ + Seq::<u8>::empty() =~= bytes@);
    }
    Ok(bytes)
}

/// What the string literal that stands at `span`, quotes included, stands
/// for. A flawed escape sequence is reported at its place in the source.
pub open spec fn string_at(src: Seq<u8>, span: Span) -> Text {
    match unescaped(src.subrange(span.start + 1, span.end - 1), 0) {
        Text::Bytes(bytes) => Text::Bytes(bytes),
        Text::BadEscape(at) => Text::BadEscape(span.start + 1 + at),
    }
}

/// Reads the string literal that stands at `span`, quotes included.
pub fn read_string_at(src: &[u8], span: Span) -> (found: Result<Vec<u8>, usize>)
    requires
        span.start + 2 <= span.end <= src.len(),
    ensures
        match found {
            Ok(bytes) => string_at(src@, span) == Text::Bytes(bytes@),
            Err(at) => string_at(src@, span) == Text::BadEscape(at as int) && span.start < at
                < span.end,
        },
{
    match unescape(slice_subrange(src, span.start + 1, span.end - 1)) {
        Ok(bytes) => Ok(bytes),
        Err(at) => Err(span.start + 1 + at),
    }
}

} // verus!
