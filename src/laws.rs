//! Properties of the token stream as a whole, proved over the grammar that
//! `Tokenizer::next`, `Tokenizer::scan` and `Tokenizer::tokenize` follow.
use vstd::prelude::*;

use crate::grammar::{
    comment_opens, is_word_byte, is_word_start, lemma_lex_at_progress, lemma_run_end, lex_at,
    lemma_longest_operator, operator_at, run_end, spells_at, token_at, tokens_from, ByteClass,
};
use crate::keyword::{keyword_lookup_exact, Keyword};
use crate::operator::Operator;
use crate::token::{KindView, TokenView};

verus! {

/// The raw texts of `ts`, one after the other.
pub open spec fn joined(ts: Seq<TokenView>) -> Seq<u8>
    decreases ts.len(),
{
    if ts.len() == 0 {
        Seq::empty()
    } else {
        ts[0].text + joined(ts.drop_first())
    }
}

/// Lossless round trip from any offset: the raw texts of the tokens that a
/// source makes from `pos` on concatenate to exactly the source from `pos`.
pub proof fn round_trip_from(src: Seq<u8>, pos: int)
    requires
        0 <= pos <= src.len(),
    ensures
        joined(tokens_from(src, pos)) == src.subrange(pos, src.len() as int),
    decreases src.len() - pos,
{
    if pos < src.len() {
        lemma_lex_at_progress(src, pos);
        let end = lex_at(src, pos).1;
        let ts = tokens_from(src, pos);
        round_trip_from(src, end);
        assert(ts.drop_first() =~= tokens_from(src, end));
        assert(src.subrange(pos, end) + src.subrange(end, src.len() as int) =~= src.subrange(
            pos,
            src.len() as int,
        ));
    } else {
        assert(src.subrange(pos, src.len() as int) =~= Seq::<u8>::empty());
    }
}

/// Lossless round trip: the raw texts of all the tokens of a source, layout
/// and comments included, concatenate to exactly that source.
pub proof fn round_trip(src: Seq<u8>)
    ensures
        joined(tokens_from(src, 0)) == src,
{
    round_trip_from(src, 0);
    assert(src.subrange(0, src.len() as int) =~= src);
}

/// Span tiling from any offset: the tokens a source makes from `pos` on are
/// the tokens that start at their own offsets, and their spans cover
/// `[pos, src.len())` in order, without gaps or overlaps.
pub proof fn spans_tile_from(src: Seq<u8>, pos: int)
    requires
        0 <= pos <= src.len(),
    ensures
        ({
            let ts = tokens_from(src, pos);
            &&& ts.len() == 0 <==> pos == src.len()
            &&& ts.len() > 0 ==> ts[0].start == pos && ts.last().end == src.len()
            &&& forall|i: int|
                0 <= i < ts.len() ==> pos <= #[trigger] ts[i].start < ts[i].end <= src.len()
            &&& forall|i: int| 0 <= i < ts.len() ==> #[trigger] ts[i] == token_at(src, ts[i].start)
            &&& forall|i: int| 0 <= i < ts.len() - 1 ==> #[trigger] ts[i].end == ts[i + 1].start
            &&& forall|i: int, j: int|
                0 <= i < j < ts.len() ==> #[trigger] ts[i].end <= #[trigger] ts[j].start
        }),
    decreases src.len() - pos,
{
    if pos < src.len() {
        lemma_lex_at_progress(src, pos);
        let end = lex_at(src, pos).1;
        spans_tile_from(src, end);
        let ts = tokens_from(src, pos);
        let rest = tokens_from(src, end);
        assert(ts.drop_first() =~= rest);
        assert forall|i: int| 0 <= i < ts.len() implies #[trigger] ts[i] == token_at(
            src,
            ts[i].start,
        ) && pos <= ts[i].start < ts[i].end <= src.len() by {
            if i > 0 {
                assert(ts[i] == rest[i - 1]);
            }
        }
        assert forall|i: int| 0 <= i < ts.len() - 1 implies #[trigger] ts[i].end == ts[i
            + 1].start by {
            if i > 0 {
                assert(ts[i] == rest[i - 1]);
                assert(ts[i + 1] == rest[i]);
            }
        }
        assert forall|i: int, j: int| 0 <= i < j < ts.len() implies #[trigger] ts[i].end
            <= #[trigger] ts[j].start by {
            assert(ts[j] == rest[j - 1]);
            if i > 0 {
                assert(ts[i] == rest[i - 1]);
            }
        }
        if rest.len() > 0 {
            assert(ts.last() == rest.last());
        }
    }
}

/// Span tiling: the spans of the tokens of a source have strictly increasing
/// starts, do not overlap, leave no gap between them, and together cover
/// exactly the offsets `[0, src.len())`.
pub proof fn spans_tile(src: Seq<u8>)
    ensures
        ({
            let ts = tokens_from(src, 0);
            &&& ts.len() == 0 <==> src.len() == 0
            &&& ts.len() > 0 ==> ts[0].start == 0 && ts.last().end == src.len()
            &&& forall|i: int| 0 <= i < ts.len() ==> #[trigger] ts[i].start < ts[i].end
            &&& forall|i: int| 0 <= i < ts.len() - 1 ==> #[trigger] ts[i].end == ts[i + 1].start
            &&& forall|i: int, j: int|
                0 <= i < j < ts.len() ==> #[trigger] ts[i].end <= #[trigger] ts[j].start
            &&& forall|i: int, j: int|
                0 <= i < j < ts.len() ==> #[trigger] ts[i].start < #[trigger] ts[j].start
        }),
{
    spans_tile_from(src, 0);
    let ts = tokens_from(src, 0);
    assert forall|i: int, j: int| 0 <= i < j < ts.len() implies #[trigger] ts[i].start
        < #[trigger] ts[j].start by {
        assert(ts[i].start < ts[i].end);
        assert(ts[i].end <= ts[j].start);
    }
}

/// Longest match: where the spelling of an operator stands at `pos`, the
/// resolver picks an operator whose spelling stands there too and is at least
/// as long; and unless a comment opens at `pos` (`//` or `/*` goes first),
/// that operator is the token at `pos`.
pub proof fn longest_match(src: Seq<u8>, pos: int, op: Operator)
    requires
        0 <= pos < src.len(),
        spells_at(src, pos, op.spec_spelling()),
    ensures
        operator_at(src, pos) matches Some(found) && {
            &&& spells_at(src, pos, found.spec_spelling())
            &&& found.spec_spelling().len() >= op.spec_spelling().len()
            &&& !comment_opens(src, pos) ==> lex_at(src, pos) == (
                KindView::Operator(found),
                pos + found.spec_spelling().len(),
            )
        },
{
    lemma_longest_operator(src, pos);
}

/// Keyword exactness: a run of letters, digits and underscores that starts
/// with a letter or underscore lexes as the keyword `k` exactly when it
/// spells `k` byte for byte, and as an identifier carrying the run otherwise.
pub proof fn keyword_exact(src: Seq<u8>, pos: int, k: Keyword)
    requires
        0 <= pos < src.len(),
        is_word_start(src[pos]),
    ensures
        ({
            let end = run_end(src, pos, ByteClass::Word);
            let word = src.subrange(pos, end);
            &&& lex_at(src, pos).1 == end
            &&& end == src.len() || !is_word_byte(src[end])
            &&& forall|i: int| pos <= i < end ==> is_word_byte(#[trigger] src[i])
            &&& lex_at(src, pos).0 == KindView::Keyword(k) <==> word == k.spec_spelling()
            &&& lex_at(src, pos).0 is Keyword || lex_at(src, pos).0 == KindView::Identifier(word)
        }),
{
    lemma_run_end(src, pos, ByteClass::Word);
    let end = run_end(src, pos, ByteClass::Word);
    keyword_lookup_exact(src.subrange(pos, end), k);
}

proof fn operator_token(src: Seq<u8>, p: int, op: Operator)
    requires
        0 <= p < src.len(),
        spells_at(src, p, op.spec_spelling()),
        !comment_opens(src, p),
    ensures
        token_at(src, p).kind matches KindView::Operator(found) && {
            &&& token_at(src, p).text == found.spec_spelling()
            &&& found.spec_spelling().len() >= op.spec_spelling().len()
        },
{
    longest_match(src, p, op);
    let found = operator_at(src, p).unwrap();
    let n = found.spec_spelling().len();
    assert(src.subrange(p, p + n) =~= found.spec_spelling());
}

/// Longest match over a stream: for every token of the stream a source makes
/// from `pos` on, where an operator's spelling stands at the token's start,
/// either a comment opens there or the token is an operator, its raw text is
/// that operator's spelling, and that spelling is at least as long.
pub proof fn longest_match_in_stream(src: Seq<u8>, pos: int, i: int, op: Operator)
    requires
        0 <= pos <= src.len(),
        0 <= i < tokens_from(src, pos).len(),
        spells_at(src, tokens_from(src, pos)[i].start, op.spec_spelling()),
    ensures
        ({
            let t = tokens_from(src, pos)[i];
            ||| comment_opens(src, t.start)
            ||| t.kind matches KindView::Operator(found) && {
                &&& t.text == found.spec_spelling()
                &&& found.spec_spelling().len() >= op.spec_spelling().len()
            }
        }),
{
    spans_tile_from(src, pos);
    let t = tokens_from(src, pos)[i];
    assert(t == token_at(src, t.start));
    if !comment_opens(src, t.start) {
        operator_token(src, t.start, op);
    }
}

/// Keyword exactness over a stream: every token of the stream a source makes
/// from `pos` on that starts with a letter or underscore covers the maximal
/// run of letters, digits and underscores there, and is the keyword `k`
/// exactly when its raw text spells `k`, else an identifier carrying that text.
pub proof fn keyword_exact_in_stream(src: Seq<u8>, pos: int, i: int, k: Keyword)
    requires
        0 <= pos <= src.len(),
        0 <= i < tokens_from(src, pos).len(),
        is_word_start(src[tokens_from(src, pos)[i].start]),
    ensures
        ({
            let t = tokens_from(src, pos)[i];
            &&& t.end == src.len() || !is_word_byte(src[t.end])
            &&& forall|j: int| t.start <= j < t.end ==> is_word_byte(#[trigger] src[j])
            &&& t.kind == KindView::Keyword(k) <==> t.text == k.spec_spelling()
            &&& t.kind is Keyword || t.kind == KindView::Identifier(t.text)
        }),
{
    spans_tile_from(src, pos);
    let t = tokens_from(src, pos)[i];
    assert(t == token_at(src, t.start));
    keyword_exact(src, t.start, k);
}

} // verus!
