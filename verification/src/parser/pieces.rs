//! What holds of the pieces of a source: without the white space and the
//! comments they are its tokens.

use crate::parser::failure::Failure;
use crate::parser::grammar::GrammarRule;
use crate::parser::lexer::{
    behind, block_stop, is_space, line_stop, pair_at, pieces, pieces_from, run_end, significant,
    span_of, token_at, tokens, tokens_from, trivia_at, trivia_end, Class, Lexed, Mode, Token,
    NEWLINE, SLASH, STAR,
};
use vstd::prelude::*;

verus! {

/// A run ends between where it begins and the end of the source.
pub proof fn lemma_run_end(src: Seq<u8>, pos: int, class: Class)
    requires
        0 <= pos <= src.len(),
    ensures
        pos <= run_end(src, pos, class) <= src.len(),
    decreases src.len() - pos,
{
    if pos < src.len() && class.holds(src[pos]) {
        lemma_run_end(src, pos + 1, class);
    }
}

/// What is skipped from a position on is skipped from the end of the white
/// space that begins there.
pub proof fn lemma_skip_space(src: Seq<u8>, pos: int)
    requires
        0 <= pos <= src.len(),
    ensures
        trivia_end(src, pos, Mode::Code) == trivia_end(
            src,
            run_end(src, pos, Class::Space),
            Mode::Code,
        ),
    decreases src.len() - pos,
{
    if pos < src.len() && is_space(src[pos]) {
        lemma_skip_space(src, pos + 1);
    }
}

/// A comment that runs to the end of its line is skipped up to there.
pub proof fn lemma_skip_line(src: Seq<u8>, pos: int)
    requires
        0 <= pos <= src.len(),
    ensures
        pos <= line_stop(src, pos) <= src.len(),
        trivia_end(src, pos, Mode::LineComment) == trivia_end(
            src,
            line_stop(src, pos),
            Mode::Code,
        ),
    decreases src.len() - pos,
{
    if pos < src.len() && src[pos] != NEWLINE {
        lemma_skip_line(src, pos + 1);
    }
}

/// A comment between `/*` and `*/` is skipped up to behind its end; one
/// that does not end is not skipped.
pub proof fn lemma_skip_block(src: Seq<u8>, pos: int)
    requires
        0 <= pos <= src.len(),
    ensures
        match block_stop(src, pos) {
            Some(end) => pos + 2 <= end <= src.len() && trivia_end(src, pos, Mode::BlockComment)
                == trivia_end(src, end, Mode::Code),
            None => trivia_end(src, pos, Mode::BlockComment) is None,
        },
    decreases src.len() - pos,
{
    if pos < src.len() && !pair_at(src, pos, STAR, SLASH) {
        lemma_skip_block(src, pos + 1);
    }
}

/// Skipping never goes back.
pub proof fn lemma_skip_forward(src: Seq<u8>, pos: int, mode: Mode)
    requires
        0 <= pos,
    ensures
        trivia_end(src, pos, mode) matches Some(start) ==> pos <= start,
    decreases src.len() - pos,
{
    if pos < src.len() {
        lemma_skip_forward(src, pos + 1, Mode::Code);
        lemma_skip_forward(src, pos + 1, Mode::LineComment);
        lemma_skip_forward(src, pos + 1, Mode::BlockComment);
        if pos + 2 <= src.len() {
            lemma_skip_forward(src, pos + 2, Mode::Code);
            lemma_skip_forward(src, pos + 2, Mode::LineComment);
            lemma_skip_forward(src, pos + 2, Mode::BlockComment);
        }
    }
}

/// No token is white space or a comment.
pub proof fn lemma_token_is_no_trivia(src: Seq<u8>, pos: int, prev: GrammarRule)
    ensures
        token_at(src, pos, prev) matches Lexed::Token(rule, _) ==> !rule.is_trivia(),
{
}

/// Where the white space or comment that begins at `pos` ends at `end`,
/// the tokens from `pos` on are those from `end` on.
pub proof fn lemma_tokens_behind_trivia(src: Seq<u8>, pos: int, prev: GrammarRule)
    requires
        0 <= pos <= src.len(),
        trivia_at(src, pos) is Piece,
    ensures
        pos < trivia_at(src, pos)->Piece_1 <= src.len(),
        trivia_at(src, pos)->Piece_0.is_trivia(),
        tokens_from(src, trivia_at(src, pos)->Piece_1, prev) is Ok ==> tokens_from(src, pos, prev)
            == tokens_from(src, trivia_at(src, pos)->Piece_1, prev),
{
    let end = trivia_at(src, pos)->Piece_1;
    if is_space(src[pos]) {
        lemma_run_end(src, pos + 1, Class::Space);
        lemma_skip_space(src, pos);
    } else if pair_at(src, pos, SLASH, SLASH) {
        lemma_skip_line(src, pos + 2);
    } else {
        lemma_skip_block(src, pos + 2);
    }
    assert(trivia_end(src, pos, Mode::Code) == trivia_end(src, end, Mode::Code));
    lemma_skip_forward(src, end, Mode::Code);
}

/// The tokens among a piece and the pieces behind it.
pub proof fn lemma_significant_behind(piece: Token, more: Seq<Token>)
    ensures
        significant(seq![piece] + more) == if piece.rule.is_trivia() {
            significant(more)
        } else {
            seq![piece] + significant(more)
        },
        significant(seq![piece]) == if piece.rule.is_trivia() {
            Seq::<Token>::empty()
        } else {
            seq![piece]
        },
{
    reveal_with_fuel(significant, 3);
    assert((seq![piece] + more).drop_first() =~= more);
    assert(seq![piece].drop_first() =~= Seq::<Token>::empty());
    assert(seq![piece] + Seq::<Token>::empty() =~= seq![piece]);
}

/// Where no white space and no comment begins at `pos`, nothing is skipped
/// there.
pub proof fn lemma_nothing_to_skip(src: Seq<u8>, pos: int)
    requires
        0 <= pos <= src.len(),
        trivia_at(src, pos) is Nothing,
    ensures
        trivia_end(src, pos, Mode::Code) == Some(pos),
{
}

/// Without the white space and the comments, the pieces of a source from
/// a position on are its tokens from there on.
pub proof fn lemma_significant_pieces_from(src: Seq<u8>, pos: int, prev: GrammarRule)
    requires
        0 <= pos <= src.len(),
    ensures
        pieces_from(src, pos, prev) matches Ok(all) ==> tokens_from(src, pos, prev) == Ok::<
            Seq<Token>,
            Failure,
        >(significant(all)),
    decreases src.len() - pos,
{
    let trivia = trivia_at(src, pos);
    if trivia is Piece {
        let rule = trivia->Piece_0;
        let end = trivia->Piece_1;
        lemma_tokens_behind_trivia(src, pos, prev);
        lemma_significant_pieces_from(src, end, prev);
        let piece = Token { rule, span: span_of(pos, end) };
        assert(pieces_from(src, pos, prev) == behind(seq![piece], pieces_from(src, end, prev)));
        if let Ok(more) = pieces_from(src, end, prev) {
            lemma_significant_behind(piece, more);
        }
    } else if trivia is Nothing {
        lemma_token_is_no_trivia(src, pos, prev);
        lemma_nothing_to_skip(src, pos);
        let lexed = token_at(src, pos, prev);
        if lexed is Token {
            let rule = lexed->Token_0;
            let end = lexed->Token_1;
            let token = Token { rule, span: span_of(pos, end) };
            if rule != GrammarRule::EOI && pos < end <= src.len() {
                lemma_significant_pieces_from(src, end, rule);
                assert(pieces_from(src, pos, prev) == behind(
                    seq![token],
                    pieces_from(src, end, rule),
                ));
                assert(tokens_from(src, pos, prev) == behind(
                    seq![token],
                    tokens_from(src, end, rule),
                ));
                if let Ok(more) = pieces_from(src, end, rule) {
                    lemma_significant_behind(token, more);
                }
            } else {
                assert(pieces_from(src, pos, prev) == Ok::<Seq<Token>, Failure>(seq![token]));
                assert(tokens_from(src, pos, prev) == Ok::<Seq<Token>, Failure>(seq![token]));
                lemma_significant_behind(token, Seq::empty());
            }
        }
    }
}

/// Without the white space and the comments, the pieces of a source are
/// its tokens: what the parser reads is what the splitter keeps, and the
/// splitter keeps what the parser passes over.
pub proof fn lemma_significant_pieces(src: Seq<u8>)
    ensures
        pieces(src) matches Ok(all) ==> tokens(src) == Ok::<Seq<Token>, Failure>(significant(all)),
{
    lemma_significant_pieces_from(src, 0, GrammarRule::EOI);
}

} // verus!
