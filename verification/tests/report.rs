use yara_x::parser::report::{
    clamp, decimal_text, digit_text, label, line_and_column, line_bounds, repeat, show, titled,
    Colour,
};
use yara_x::parser::span::Span;

#[test]
fn lines_and_columns_count_from_one() {
    let src = b"ab\ncd\n";
    assert_eq!(line_and_column(src, 0), (1, 1));
    assert_eq!(line_and_column(src, 1), (1, 2));
    // A newline is the last column of its line.
    assert_eq!(line_and_column(src, 2), (1, 3));
    assert_eq!(line_and_column(src, 3), (2, 1));
    assert_eq!(line_and_column(src, 4), (2, 2));
    assert_eq!(line_and_column(src, 6), (3, 1));
    // An offset behind the end counts as the end.
    assert_eq!(line_and_column(src, 100), (3, 1));
    assert_eq!(line_and_column(src, usize::MAX), (3, 1));
    assert_eq!(line_and_column(b"", 0), (1, 1));
    assert_eq!(line_and_column(b"\n\n\nx", 3), (4, 1));
    assert_eq!(clamp(src, 4), 4);
    assert_eq!(clamp(src, 7), 6);
}

#[test]
fn the_line_that_holds_an_offset() {
    let src = b"ab\ncd\n";
    assert_eq!(line_bounds(src, 0), Span::new(0, 2));
    assert_eq!(line_bounds(src, 2), Span::new(0, 2));
    assert_eq!(line_bounds(src, 3), Span::new(3, 5));
    assert_eq!(line_bounds(src, 4), Span::new(3, 5));
    assert_eq!(line_bounds(src, 6), Span::new(6, 6));
    assert_eq!(line_bounds(src, 60), Span::new(6, 6));
    assert_eq!(line_bounds(b"one line", 4), Span::new(0, 8));
    assert_eq!(line_bounds(b"", 0), Span::new(0, 0));
}

#[test]
fn numbers_in_decimal() {
    for n in [0usize, 1, 7, 9, 10, 11, 99, 100, 101, 1234567890, usize::MAX] {
        assert_eq!(decimal_text(n), n.to_string());
    }
    for d in 0..10usize {
        assert_eq!(digit_text(d), d.to_string());
    }
    assert_eq!(repeat("ab", 3), "ababab");
    assert_eq!(repeat("x", 0), "");
    assert_eq!(repeat("", 5), "");
    assert_eq!(repeat("^", 1), "^");
}

#[test]
fn text_in_colour() {
    assert_eq!(show(false, Colour::Red, "error"), "error");
    assert_eq!(show(true, Colour::Red, "error"), "\x1b[31merror\x1b[0m");
    assert_eq!(show(true, Colour::Green, "PASS"), "\x1b[32mPASS\x1b[0m");
    assert_eq!(show(true, Colour::Yellow, "warning"), "\x1b[33mwarning\x1b[0m");
    assert_eq!(show(true, Colour::Blue, "-->"), "\x1b[34m-->\x1b[0m");
    assert_eq!(show(true, Colour::Blue, ""), "\x1b[34m\x1b[0m");
    assert_eq!(titled("error", Colour::Red, "syntax error", false), "error: syntax error");
    assert_eq!(
        titled("warning", Colour::Yellow, "unused string `$a`", true),
        "\x1b[33mwarning\x1b[0m: unused string `$a`"
    );
}

#[test]
fn labels_mark_their_span() {
    let src = b"rule r {\n  condition: nothing\n}";
    assert_eq!(
        label(src, "f.yar", Span::new(22, 29), "here", false),
        " --> f.yar:2:14\n  |   condition: nothing\n  |              ^^^^^^^ here"
    );
    assert_eq!(
        label(src, "f.yar", Span::new(0, 4), "", true),
        " \x1b[34m-->\x1b[0m f.yar:1:1\n  | rule r {\n  | ^^^^ "
    );
    // A span without bytes gets one mark.
    assert_eq!(
        label(src, "x", Span::new(30, 30), "end", false),
        " --> x:3:1\n  | }\n  | ^ end"
    );
    assert_eq!(
        label(src, "x", Span::new(31, 31), "end", false),
        " --> x:3:2\n  | }\n  |  ^ end"
    );
    assert_eq!(label(src, "x", Span::new(7, 3), "", false), " --> x:1:8\n  | rule r {\n  |        ^ ");
    // What is no text is shown with the replacement character.
    assert_eq!(
        label(&[b'a', 0xff, b'b'], "x", Span::new(2, 3), "", false),
        " --> x:1:3\n  | a\u{fffd}b\n  |   ^ "
    );
}
