//! Hex patterns: what stands between the braces.
//!
//! ```text
//! hex_tokens := (hex_byte | hex_jump | `(` | `|` | `)`)*
//! hex_byte   := `~`? nibble nibble          nibble: a hexadecimal digit or `?`
//! hex_jump   := `[` (digit | ` ` | `-`)+ `]`, with one dash at most
//! ```
//!
//! White space separates what stands there. Parentheses must pair, a bar
//! stands between parentheses only, and a pattern holds one byte at least.

use crate::parser::lexer::{is_hex_digit, is_space, Class, NEWLINE, RETURN, SPACE, TAB};
use vstd::prelude::*;

verus! {

pub const QUESTION: u8 = 0x3f;

pub const TILDE: u8 = 0x7e;

pub const OPENING_BRACKET: u8 = 0x5b;

pub const CLOSING_BRACKET: u8 = 0x5d;

pub const OPENING_PARENTHESIS: u8 = 0x28;

pub const CLOSING_PARENTHESIS: u8 = 0x29;

pub const BAR: u8 = 0x7c;

pub const DASH: u8 = 0x2d;

/// A hexadecimal digit, or the mark for any.
pub open spec fn is_nibble(b: u8) -> bool {
    is_hex_digit(b) || b == QUESTION
}

/// Tells whether the byte is a hexadecimal digit or the mark for any.
pub fn nibble(b: u8) -> (r: bool)
    ensures
        r == is_nibble(b),
{
    Class::HexDigit.has(b) || b == QUESTION
}

/// Two nibbles stand at `k`.
pub open spec fn byte_at(body: Seq<u8>, k: int) -> bool {
    0 <= k && k + 1 < body.len() && is_nibble(body[k]) && is_nibble(body[k + 1])
}

/// Tells whether two nibbles stand at `k`.
pub fn has_byte(body: &[u8], k: usize) -> (r: bool)
    requires
        k <= body.len(),
    ensures
        r == byte_at(body@, k as int),
{
    k < body.len() && body.len() - k > 1 && nibble(body[k]) && nibble(body[k + 1])
}

/// The position behind the bracket that closes the jump whose inside
/// begins at `k`, where digits, spaces and one dash at most stand in it.
/// `dashes` tells how many dashes stood before `k`.
pub open spec fn jump_end(body: Seq<u8>, k: int, dashes: nat) -> Option<int>
    decreases body.len() - k,
{
    if !(0 <= k < body.len()) {
        None
    } else if body[k] == CLOSING_BRACKET {
        Some(k + 1)
    } else if body[k] == SPACE || (0x30 <= body[k] <= 0x39) {
        jump_end(body, k + 1, dashes)
    } else if body[k] == DASH && dashes == 0 {
        jump_end(body, k + 1, 1)
    } else {
        None
    }
}

/// Finds the end of the jump whose inside begins at `k`.
pub fn find_jump_end(body: &[u8], k: usize) -> (end: Option<usize>)
    requires
        k <= body.len(),
    ensures
        match end {
            Some(e) => jump_end(body@, k as int, 0) == Some(e as int) && k < e <= body.len(),
            None => jump_end(body@, k as int, 0) is None,
        },
{
    let mut at: usize = k;
    let mut dashes: usize = 0;
    while at < body.len()
        invariant
            k <= at <= body.len(),
            dashes <= 1,
            jump_end(body@, k as int, 0) == jump_end(body@, at as int, dashes as nat),
        decreases body.len() - at,
    {
        let b = body[at];
        if b == CLOSING_BRACKET {
            return Some(at + 1);
        } else if b == SPACE || (0x30 <= b && b <= 0x39) {
            at += 1;
        } else if b == DASH && dashes == 0 {
            dashes = 1;
            at += 1;
        } else {
            return None;
        }
    }
    None
}

/// The place of the first flaw of a hex pattern from `k` on, if it has one,
/// where `depth` parentheses are open and `seen` tells whether a byte stood
/// before `k`. A flaw that only the end shows stands at the end.
pub open spec fn hex_flaw(body: Seq<u8>, k: int, depth: nat, seen: bool) -> Option<int>
    decreases body.len() - k,
{
    if !(0 <= k < body.len()) {
        if depth == 0 && seen {
            None
        } else {
            Some(body.len() as int)
        }
    } else if is_space(body[k]) {
        hex_flaw(body, k + 1, depth, seen)
    } else if body[k] == TILDE {
        if byte_at(body, k + 1) {
            hex_flaw(body, k + 3, depth, true)
        } else {
            Some(k)
        }
    } else if is_nibble(body[k]) {
        if byte_at(body, k) {
            hex_flaw(body, k + 2, depth, true)
        } else {
            Some(k)
        }
    } else if body[k] == OPENING_BRACKET {
        match jump_end(body, k + 1, 0) {
            Some(end) => if k + 2 < end <= body.len() {
                hex_flaw(body, end, depth, seen)
            } else {
                Some(k)
            },
            None => Some(k),
        }
    } else if body[k] == OPENING_PARENTHESIS {
        hex_flaw(body, k + 1, depth + 1, seen)
    } else if body[k] == CLOSING_PARENTHESIS && depth > 0 {
        hex_flaw(body, k + 1, (depth - 1) as nat, seen)
    } else if body[k] == BAR && depth > 0 {
        hex_flaw(body, k + 1, depth, seen)
    } else {
        Some(k)
    }
}

/// Finds the first flaw of a hex pattern, given what stands between its
/// braces.
pub fn find_hex_flaw(body: &[u8]) -> (flaw: Option<usize>)
    ensures
        match flaw {
            Some(at) => hex_flaw(body@, 0, 0, false) == Some(at as int) && at <= body.len(),
            None => hex_flaw(body@, 0, 0, false) is None,
        },
{
    let mut k: usize = 0;
    let mut depth: usize = 0;
    let mut seen = false;
    while k < body.len()
        invariant
            k <= body.len(),
            depth <= k,
            hex_flaw(body@, 0, 0, false) == hex_flaw(body@, k as int, depth as nat, seen),
        decreases body.len() - k,
    {
        let b = body[k];
        if b == SPACE || b == TAB || b == NEWLINE || b == RETURN {
            k += 1;
        } else if b == TILDE {
            if has_byte(body, k + 1) {
                k += 3;
                seen = true;
            } else {
                return Some(k);
            }
        } else if nibble(b) {
            if has_byte(body, k) {
                k += 2;
                seen = true;
            } else {
                return Some(k);
            }
        } else if b == OPENING_BRACKET {
            match find_jump_end(body, k + 1) {
                Some(end) => {
                    if end - k > 2 {
                        k = end;
                    } else {
                        return Some(k);
                    }
                },
                None => {
                    return Some(k);
                },
            }
        } else if b == OPENING_PARENTHESIS {
            depth += 1;
            k += 1;
        } else if b == CLOSING_PARENTHESIS && depth > 0 {
            depth -= 1;
            k += 1;
        } else if b == BAR && depth > 0 {
            k += 1;
        } else {
            return Some(k);
        }
    }
    if depth == 0 && seen {
        None
    } else {
        Some(body.len())
    }
}

} // verus!
