//! Where a place of a source stands, by line and column, and how a report
//! marks it.
//!
//! Text in colour is painted by the `ansi_term` crate.

use crate::parser::lexer::{text_at, text_of, NEWLINE};
use crate::parser::span::Span;
use vstd::prelude::*;

verus! {

/// The colours of a report.
#[derive(Clone, Copy, Debug, PartialEq, Eq, Structural)]
pub enum Colour {
    Red,
    Green,
    Yellow,
    Blue,
}

/// The number of a colour in the escape sequence that selects it.
pub open spec fn colour_code(colour: Colour) -> Seq<char> {
    match colour {
        Colour::Red => "31"@,
        Colour::Green => "32"@,
        Colour::Yellow => "33"@,
        Colour::Blue => "34"@,
    }
}

/// The text between the escape sequence that selects the colour and the
/// one that resets it.
pub open spec fn painted(colour: Colour, text: Seq<char>) -> Seq<char> {
    "\x1B["@ + colour_code(colour) + "m"@ + text + "\x1B[0m"@
}

/// `Colour::paint` of the `ansi_term` crate, written out with `to_string`:
/// the escape sequence that selects the colour, the text, and the escape
/// sequence that resets.
#[verifier::external_body]
pub(crate) fn paint(colour: Colour, text: &str) -> (out: String)
    ensures
        out@ == painted(colour, text@),
{
    let colour = match colour {
        Colour::Red => ansi_term::Colour::Red,
        Colour::Green => ansi_term::Colour::Green,
        Colour::Yellow => ansi_term::Colour::Yellow,
        Colour::Blue => ansi_term::Colour::Blue,
    };
    colour.paint(text).to_string()
}

/// The text as a report shows it: painted where colours are wanted, as it
/// is where not.
pub open spec fn shown(colorize: bool, colour: Colour, text: Seq<char>) -> Seq<char> {
    if colorize {
        painted(colour, text)
    } else {
        text
    }
}

/// Paints the text where colours are wanted.
pub fn show(colorize: bool, colour: Colour, text: &str) -> (out: String)
    ensures
        out@ == shown(colorize, colour, text@),
{
    if colorize {
        paint(colour, text)
    } else {
        String::from_str(text)
    }
}

/// Where the line begins that holds the offset: behind the last newline
/// before the offset, or at the start of the source.
pub open spec fn line_start(src: Seq<u8>, offset: int) -> int
    decreases offset,
{
    if offset <= 0 || offset > src.len() {
        0
    } else if src[offset - 1] == NEWLINE {
        offset
    } else {
        line_start(src, offset - 1)
    }
}

/// Where the line ends that holds the offset: at the first newline from
/// the offset on, or at the end of the source.
pub open spec fn line_end(src: Seq<u8>, offset: int) -> int
    decreases src.len() - offset,
{
    if offset < 0 || offset >= src.len() {
        src.len() as int
    } else if src[offset] == NEWLINE {
        offset
    } else {
        line_end(src, offset + 1)
    }
}

/// How many newlines stand before the offset.
pub open spec fn newlines_before(src: Seq<u8>, offset: int) -> nat
    decreases offset,
{
    if offset <= 0 || offset > src.len() {
        0
    } else if src[offset - 1] == NEWLINE {
        newlines_before(src, offset - 1) + 1
    } else {
        newlines_before(src, offset - 1)
    }
}

/// The offset, or the length of the source where the offset lies behind
/// its end; in a source that fills the address space, not its very end,
/// so that lines and columns can be counted from one.
pub open spec fn within(src: Seq<u8>, offset: usize) -> int {
    if offset <= src.len() && offset < usize::MAX {
        offset as int
    } else if src.len() < usize::MAX {
        src.len() as int
    } else {
        usize::MAX - 1
    }
}

/// The offset, or the end of the source where the offset lies behind it.
pub fn clamp(src: &[u8], offset: usize) -> (at: usize)
    ensures
        at == within(src@, offset),
        at <= src@.len(),
        at < usize::MAX,
{
    if offset <= src.len() && offset < usize::MAX {
        offset
    } else if src.len() < usize::MAX {
        src.len()
    } else {
        usize::MAX - 1
    }
}

/// Where the line that holds an offset begins and ends. An offset behind
/// the end of the source counts as its end.
pub fn line_bounds(src: &[u8], offset: usize) -> (bounds: Span)
    ensures
        bounds.start == line_start(src@, within(src@, offset)),
        bounds.end == line_end(src@, within(src@, offset)),
        bounds.start <= within(src@, offset) <= bounds.end <= src@.len(),
{
    let at = clamp(src, offset);
    let mut start: usize = at;
    while start > 0 && src[start - 1] != NEWLINE
        invariant
            start <= at <= src@.len(),
            line_start(src@, at as int) == line_start(src@, start as int),
        decreases start,
    {
        start -= 1;
    }
    let mut end: usize = at;
    while end < src.len() && src[end] != NEWLINE
        invariant
            at <= end <= src@.len(),
            line_end(src@, at as int) == line_end(src@, end as int),
        decreases src@.len() - end,
    {
        end += 1;
    }
    Span::new(start, end)
}

/// The number of the line that holds an offset, and the column of the
/// offset in it, both counted from one.
pub fn line_and_column(src: &[u8], offset: usize) -> (place: (usize, usize))
    ensures
        place.0 == newlines_before(src@, within(src@, offset)) + 1,
        place.1 == within(src@, offset) - line_start(src@, within(src@, offset)) + 1,
{
    let at = clamp(src, offset);
    let mut line: usize = 1;
    let mut i: usize = 0;
    while i < at
        invariant
            i <= at <= src@.len(),
            at < usize::MAX,
            line == newlines_before(src@, i as int) + 1,
            line <= i + 1,
        decreases at - i,
    {
        if src[i] == NEWLINE {
            line += 1;
        }
        i += 1;
    }
    let bounds = line_bounds(src, offset);
    (line, at - bounds.start + 1)
}

/// The digit that writes a number below ten.
pub open spec fn digit(d: nat) -> char {
    if d == 0 {
        '0'
    } else if d == 1 {
        '1'
    } else if d == 2 {
        '2'
    } else if d == 3 {
        '3'
    } else if d == 4 {
        '4'
    } else if d == 5 {
        '5'
    } else if d == 6 {
        '6'
    } else if d == 7 {
        '7'
    } else if d == 8 {
        '8'
    } else {
        '9'
    }
}

/// A number in decimal.
pub open spec fn decimal(n: nat) -> Seq<char>
    decreases n,
{
    if n < 10 {
        seq![digit(n)]
    } else {
        decimal(n / 10).push(digit(n % 10))
    }
}

/// The digit that writes a number below ten, as a text.
pub fn digit_text(d: usize) -> (text: &'static str)
    requires
        d < 10,
    ensures
        text@ == seq![digit(d as nat)],
{
    proof {
        reveal_strlit("0");
        reveal_strlit("1");
        reveal_strlit("2");
        reveal_strlit("3");
        reveal_strlit("4");
        reveal_strlit("5");
        reveal_strlit("6");
        reveal_strlit("7");
        reveal_strlit("8");
        reveal_strlit("9");
    }
    let text = if d == 0 {
        "0"
    } else if d == 1 {
        "1"
    } else if d == 2 {
        "2"
    } else if d == 3 {
        "3"
    } else if d == 4 {
        "4"
    } else if d == 5 {
        "5"
    } else if d == 6 {
        "6"
    } else if d == 7 {
        "7"
    } else if d == 8 {
        "8"
    } else {
        "9"
    };
    assert(text@ =~= seq![digit(d as nat)]);
    text
}

/// Writes a number in decimal.
pub fn decimal_text(n: usize) -> (text: String)
    ensures
        text@ == decimal(n as nat),
    decreases n,
{
    if n < 10 {
        String::from_str(digit_text(n))
    } else {
        let mut text = decimal_text(n / 10);
        text.append(digit_text(n % 10));
        assert(text@ =~= decimal(n as nat));
        text
    }
}

/// A text written `n` times.
pub open spec fn repeated(unit: Seq<char>, n: nat) -> Seq<char>
    decreases n,
{
    if n == 0 {
        Seq::empty()
    } else {
        repeated(unit, (n - 1) as nat) + unit
    }
}

/// Writes a text `n` times.
pub fn repeat(unit: &str, n: usize) -> (text: String)
    ensures
        text@ == repeated(unit@, n as nat),
{
    let mut text = String::new();
    let mut i: usize = 0;
    assert(text@ =~= repeated(unit@, 0));
    while i < n
        invariant
            i <= n,
            text@ == repeated(unit@, i as nat),
        decreases n - i,
    {
        text.append(unit);
        i += 1;
    }
    text
}

/// How many marks stand under a span: one for each of its bytes, and one
/// where it has none.
pub open spec fn mark_width(span: Span) -> nat {
    if span.end > span.start + 1 {
        (span.end - span.start) as nat
    } else {
        1
    }
}

/// A label of a report: where the span begins, by origin, line and column;
/// the line of the source; and under it marks below the span, with the
/// text of the label behind them.
pub open spec fn label_text(
    src: Seq<u8>,
    origin: Seq<char>,
    span: Span,
    text: Seq<char>,
    colorize: bool,
) -> Seq<char> {
    let at = within(src, span.start);
    let start = line_start(src, at);
    let line = Span { start: start as usize, end: line_end(src, at) as usize };
    " "@ + shown(colorize, Colour::Blue, "-->"@) + " "@ + origin + ":"@ + decimal(
        newlines_before(src, at) + 1,
    ) + ":"@ + decimal((at - start + 1) as nat) + "\n  | "@ + text_at(src, line) + "\n  | "@
        + repeated(" "@, (at - start) as nat) + repeated("^"@, mark_width(span)) + " "@ + text
}

/// Writes a label of a report.
pub fn label(src: &[u8], origin: &str, span: Span, text: &str, colorize: bool) -> (out: String)
    ensures
        out@ == label_text(src@, origin@, span, text@, colorize),
{
    let (line, column) = line_and_column(src, span.start);
    let bounds = line_bounds(src, span.start);
    let width = if span.end > span.start && span.end - span.start > 1 {
        span.end - span.start
    } else {
        1
    };
    let mut out = String::from_str(" ");
    out.append(show(colorize, Colour::Blue, "-->").as_str());
    out.append(" ");
    out.append(origin);
    out.append(":");
    out.append(decimal_text(line).as_str());
    out.append(":");
    out.append(decimal_text(column).as_str());
    out.append("\n  | ");
    out.append(text_of(src, bounds).as_str());
    out.append("\n  | ");
    out.append(repeat(" ", column - 1).as_str());
    out.append(repeat("^", width).as_str());
    out.append(" ");
    out.append(text);
    out
}

/// The first line of a report: what kind of report it is, and its title.
pub open spec fn headline(kind: Seq<char>, colour: Colour, title: Seq<char>, colorize: bool) -> Seq<
    char,
> {
    shown(colorize, colour, kind) + ": "@ + title
}

/// Writes the first line of a report.
pub fn titled(kind: &str, colour: Colour, title: &str, colorize: bool) -> (out: String)
    ensures
        out@ == headline(kind@, colour, title@, colorize),
{
    let mut out = show(colorize, colour, kind);
    out.append(": ");
    out.append(title);
    out
}

} // verus!
