//! The lexical grammar as mathematics: which token starts at a given offset
//! of a source, where it ends, and the stream of tokens a whole source makes.
use vstd::prelude::*;

use crate::keyword::keyword_of;
use crate::operator::Operator;
use crate::token::{ErrorKind, KindView, TokenView};

verus! {

pub const NEWLINE: u8 = 10;

pub const TAB: u8 = 9;

pub const CARRIAGE_RETURN: u8 = 13;

pub const SPACE: u8 = 32;

pub const QUOTE: u8 = 34;

pub const STAR: u8 = 42;

pub const SLASH: u8 = 47;

pub const BACKSLASH: u8 = 92;

pub const UNDERSCORE: u8 = 95;

pub const DIGIT_ZERO: u8 = 48;

/// Space, tab and carriage return: the blanks that make `Whitespace` tokens.
pub open spec fn is_blank(b: u8) -> bool {
    b == SPACE || b == TAB || b == CARRIAGE_RETURN
}

pub open spec fn is_digit(b: u8) -> bool {
    48 <= b <= 57
}

pub open spec fn is_letter(b: u8) -> bool {
    (65 <= b <= 90) || (97 <= b <= 122)
}

/// A byte that may start an identifier or keyword.
pub open spec fn is_word_start(b: u8) -> bool {
    is_letter(b) || b == UNDERSCORE
}

/// A byte that may continue an identifier or keyword.
pub open spec fn is_word_byte(b: u8) -> bool {
    is_word_start(b) || is_digit(b)
}

/// Whether `b` may start an identifier or keyword.
pub fn starts_word(b: u8) -> (r: bool)
    ensures
        r == is_word_start(b),
{
    (65 <= b && b <= 90) || (97 <= b && b <= 122) || b == UNDERSCORE
}

/// The kinds of byte runs that a token may consist of.
#[derive(Clone, Copy, Debug, PartialEq, Eq, Structural)]
pub enum ByteClass {
    Blank,
    Digit,
    Word,
    /// Any byte but a newline: the body of a line comment.
    LineBody,
}

impl ByteClass {
    pub open spec fn spec_contains(self, b: u8) -> bool {
        match self {
            ByteClass::Blank => is_blank(b),
            ByteClass::Digit => is_digit(b),
            ByteClass::Word => is_word_byte(b),
            ByteClass::LineBody => b != NEWLINE,
        }
    }

    pub fn contains(&self, b: u8) -> (r: bool)
        ensures
            r == self.spec_contains(b),
    {
        match self {
            ByteClass::Blank => b == SPACE || b == TAB || b == CARRIAGE_RETURN,
            ByteClass::Digit => 48 <= b && b <= 57,
            ByteClass::Word => starts_word(b) || (48 <= b && b <= 57),
            ByteClass::LineBody => b != NEWLINE,
        }
    }
}

/// The offset just past the maximal run of bytes of class `c` that starts at `i`.
pub open spec fn run_end(src: Seq<u8>, i: int, c: ByteClass) -> int
    decreases src.len() - i,
{
    if 0 <= i < src.len() && c.spec_contains(src[i]) {
        run_end(src, i + 1, c)
    } else {
        i
    }
}

/// Whether the byte at offset `i` exists and is `c`.
pub open spec fn byte_is(src: Seq<u8>, i: int, c: u8) -> bool {
    0 <= i < src.len() && src[i] == c
}

/// The line (from 1) on which offset `pos` stands: one more than the newlines before it.
pub open spec fn line_at(src: Seq<u8>, pos: int) -> int
    decreases pos,
{
    if pos <= 0 {
        1
    } else {
        line_at(src, pos - 1) + if src[pos - 1] == NEWLINE {
            1int
        } else {
            0int
        }
    }
}

/// The column (from 0) of offset `pos`: the bytes between it and the newline before it.
pub open spec fn column_at(src: Seq<u8>, pos: int) -> int
    decreases pos,
{
    if pos <= 0 {
        0
    } else if src[pos - 1] == NEWLINE {
        0
    } else {
        column_at(src, pos - 1) + 1
    }
}

/// The value of a string of decimal digits.
pub open spec fn decimal_value(digits: Seq<u8>) -> int
    decreases digits.len(),
{
    if digits.len() == 0 {
        0
    } else {
        10 * decimal_value(digits.drop_last()) + (digits.last() - DIGIT_ZERO)
    }
}

/// An integer literal, or an overflow error where its value does not fit in `i64`.
pub open spec fn integer_kind(digits: Seq<u8>) -> KindView {
    if decimal_value(digits) <= i64::MAX {
        KindView::Integer(decimal_value(digits) as i64)
    } else {
        KindView::Error(ErrorKind::IntegerOverflow)
    }
}

/// A keyword where the word spells one exactly, else an identifier.
pub open spec fn word_kind(word: Seq<u8>) -> KindView {
    match keyword_of(word) {
        Some(k) => KindView::Keyword(k),
        None => KindView::Identifier(word),
    }
}

/// What the escape sequence `\e` stands for in a string literal. An escape the
/// language does not define stands for itself, backslash included.
pub open spec fn escaped(e: u8) -> Seq<u8> {
    if e == 110 {
        seq![NEWLINE]  // \n
    } else if e == 116 {
        seq![TAB]  // \t
    } else if e == 114 {
        seq![CARRIAGE_RETURN]  // \r
    } else if e == 48 {
        seq![0u8]  // \0
    } else if e == QUOTE || e == BACKSLASH {
        seq![e]
    } else {
        seq![BACKSLASH, e]
    }
}

/// The rest of a string literal from offset `i`, having decoded `acc` so far:
/// the token's kind and the offset just past it.
pub open spec fn string_rest(src: Seq<u8>, i: int, acc: Seq<u8>) -> (KindView, int)
    decreases src.len() - i,
{
    if i >= src.len() {
        (KindView::Error(ErrorKind::UnterminatedString), src.len() as int)
    } else if src[i] == QUOTE {
        (KindView::String(acc), i + 1)
    } else if src[i] == BACKSLASH {
        if i + 1 >= src.len() {
            (KindView::Error(ErrorKind::UnterminatedString), src.len() as int)
        } else {
            string_rest(src, i + 2, acc + escaped(src[i + 1]))
        }
    } else {
        string_rest(src, i + 1, acc.push(src[i]))
    }
}

/// The offset of the first `*/` at or after `i`, if there is one.
pub open spec fn block_close(src: Seq<u8>, i: int) -> Option<int>
    decreases src.len() - i,
{
    if i + 1 >= src.len() {
        None
    } else if src[i] == STAR && src[i + 1] == SLASH {
        Some(i)
    } else {
        block_close(src, i + 1)
    }
}

/// A block comment opened at `pos`: its kind and the offset just past it.
pub open spec fn block_comment_at(src: Seq<u8>, pos: int) -> (KindView, int) {
    match block_close(src, pos + 2) {
        Some(j) => (KindView::BlockComment(src.subrange(pos + 2, j)), j + 2),
        None => (KindView::Error(ErrorKind::UnterminatedBlockComment), src.len() as int),
    }
}

/// Whether a comment opens at `pos` (`//` or `/*`).
pub open spec fn comment_opens(src: Seq<u8>, pos: int) -> bool {
    byte_is(src, pos, SLASH) && (byte_is(src, pos + 1, SLASH) || byte_is(src, pos + 1, STAR))
}

/// Whether the bytes `s` stand in the source from offset `pos` on.
pub open spec fn spells_at(src: Seq<u8>, pos: int, s: Seq<u8>) -> bool {
    &&& 0 <= pos
    &&& pos + s.len() <= src.len()
    &&& forall|k: int| 0 <= k < s.len() ==> src[pos + k] == s[k]
}

/// The operator that starts at `pos`, by longest match, if its first byte leads one.
pub open spec fn operator_at(src: Seq<u8>, pos: int) -> Option<Operator> {
    let b = src[pos];
    let eq_next = byte_is(src, pos + 1, 61);
    if b == 43 {
        // +
        Some(if eq_next { Operator::PlusAssign } else { Operator::Plus })
    } else if b == 45 {
        // -
        Some(
            if eq_next {
                Operator::MinusAssign
            } else if byte_is(src, pos + 1, 62) {
                Operator::SingleArrow
            } else {
                Operator::Minus
            },
        )
    } else if b == 42 {
        // *
        Some(if eq_next { Operator::MultiplyAssign } else { Operator::Asterisk })
    } else if b == 47 {
        // /
        Some(if eq_next { Operator::DivideAssign } else { Operator::Solidus })
    } else if b == 37 {
        // %
        Some(if eq_next { Operator::SurplusAssign } else { Operator::Percent })
    } else if b == 94 {
        // ^
        Some(if eq_next { Operator::XorAssign } else { Operator::Circumflex })
    } else if b == 38 {
        // &
        Some(if eq_next { Operator::AndAssign } else { Operator::Ampersand })
    } else if b == 124 {
        // |
        Some(if eq_next { Operator::OrAssign } else { Operator::VerticalLine })
    } else if b == 33 {
        // !
        Some(if eq_next { Operator::NotEqual } else { Operator::Exclamation })
    } else if b == 61 {
        // =
        Some(
            if eq_next {
                Operator::Equal
            } else if byte_is(src, pos + 1, 62) {
                Operator::DoubleArrow
            } else {
                Operator::Assign
            },
        )
    } else if b == 60 {
        // <
        Some(
            if eq_next {
                Operator::LessEqual
            } else if byte_is(src, pos + 1, 60) {
                if byte_is(src, pos + 2, 61) {
                    Operator::LeftShiftAssign
                } else {
                    Operator::LeftShift
                }
            } else {
                Operator::LessThan
            },
        )
    } else if b == 62 {
        // >
        Some(
            if eq_next {
                Operator::GreaterEqual
            } else if byte_is(src, pos + 1, 62) {
                if byte_is(src, pos + 2, 61) {
                    Operator::RightShiftAssign
                } else {
                    Operator::RightShift
                }
            } else {
                Operator::GreaterThan
            },
        )
    } else if b == 92 {
        Some(Operator::ReverseSolidus)
    } else if b == 64 {
        Some(Operator::AtMark)
    } else if b == 35 {
        Some(Operator::Hashtag)
    } else if b == 36 {
        Some(Operator::Dollar)
    } else if b == 126 {
        Some(Operator::Tilde)
    } else if b == 39 {
        Some(Operator::Apostrophe)
    } else if b == 40 {
        Some(Operator::LeftParen)
    } else if b == 41 {
        Some(Operator::RightParen)
    } else if b == 91 {
        Some(Operator::LeftSquareBracket)
    } else if b == 93 {
        Some(Operator::RightSquareBracket)
    } else if b == 123 {
        Some(Operator::LeftCurlyBracket)
    } else if b == 125 {
        Some(Operator::RightCurlyBracket)
    } else if b == 46 {
        Some(Operator::FullStop)
    } else if b == 44 {
        Some(Operator::Comma)
    } else if b == 63 {
        Some(Operator::Question)
    } else if b == 58 {
        Some(Operator::Colon)
    } else if b == 59 {
        Some(Operator::Semicolon)
    } else {
        None
    }
}

/// The token that starts at offset `pos`: its kind and the offset just past it.
pub open spec fn lex_at(src: Seq<u8>, pos: int) -> (KindView, int) {
    let b = src[pos];
    if b == NEWLINE {
        (KindView::Newline, pos + 1)
    } else if is_blank(b) {
        (KindView::Whitespace, run_end(src, pos, ByteClass::Blank))
    } else if is_digit(b) {
        let end = run_end(src, pos, ByteClass::Digit);
        (integer_kind(src.subrange(pos, end)), end)
    } else if is_word_start(b) {
        let end = run_end(src, pos, ByteClass::Word);
        (word_kind(src.subrange(pos, end)), end)
    } else if b == QUOTE {
        string_rest(src, pos + 1, Seq::empty())
    } else if comment_opens(src, pos) && src[pos + 1] == SLASH {
        let end = run_end(src, pos + 2, ByteClass::LineBody);
        (KindView::LineComment(src.subrange(pos + 2, end)), end)
    } else if comment_opens(src, pos) {
        block_comment_at(src, pos)
    } else {
        match operator_at(src, pos) {
            Some(op) => (KindView::Operator(op), pos + op.spec_spelling().len()),
            None => (KindView::Error(ErrorKind::InvalidByte), pos + 1),
        }
    }
}

/// The token that starts at offset `pos`, with its text and span.
pub open spec fn token_at(src: Seq<u8>, pos: int) -> TokenView {
    let (kind, end) = lex_at(src, pos);
    TokenView {
        kind,
        text: src.subrange(pos, end),
        start: pos,
        end,
        line: line_at(src, pos),
        column_start: column_at(src, pos),
        column_end: column_at(src, end - 1) + 1,
    }
}

/// The tokens that a source makes from offset `pos` to its end, in order.
pub open spec fn tokens_from(src: Seq<u8>, pos: int) -> Seq<TokenView>
    decreases src.len() - pos,
    via tokens_from_decreases
{
    if 0 <= pos < src.len() {
        seq![token_at(src, pos)] + tokens_from(src, lex_at(src, pos).1)
    } else {
        Seq::empty()
    }
}

#[via_fn]
proof fn tokens_from_decreases(src: Seq<u8>, pos: int) {
    if 0 <= pos < src.len() {
        lemma_lex_at_progress(src, pos);
    }
}

pub proof fn lemma_run_end(src: Seq<u8>, i: int, c: ByteClass)
    requires
        0 <= i <= src.len(),
    ensures
        i <= run_end(src, i, c) <= src.len(),
        run_end(src, i, c) < src.len() ==> !c.spec_contains(src[run_end(src, i, c)]),
        forall|k: int| i <= k < run_end(src, i, c) ==> c.spec_contains(#[trigger] src[k]),
    decreases src.len() - i,
{
    if i < src.len() && c.spec_contains(src[i]) {
        lemma_run_end(src, i + 1, c);
    }
}

pub proof fn lemma_string_rest(src: Seq<u8>, i: int, acc: Seq<u8>)
    requires
        0 <= i <= src.len(),
    ensures
        i <= string_rest(src, i, acc).1 <= src.len(),
        i < src.len() ==> i < string_rest(src, i, acc).1,
    decreases src.len() - i,
{
    if i < src.len() && src[i] != QUOTE {
        if src[i] == BACKSLASH {
            if i + 1 < src.len() {
                lemma_string_rest(src, i + 2, acc + escaped(src[i + 1]));
            }
        } else {
            lemma_string_rest(src, i + 1, acc.push(src[i]));
        }
    }
}

pub proof fn lemma_block_close(src: Seq<u8>, i: int)
    requires
        0 <= i,
    ensures
        block_close(src, i) matches Some(j) ==> i <= j && j + 1 < src.len() && src[j] == STAR
            && src[j + 1] == SLASH,
        block_close(src, i) is None ==> forall|k: int|
            i <= k < src.len() - 1 ==> !(#[trigger] src[k] == STAR && src[k + 1] == SLASH),
    decreases src.len() - i,
{
    if i + 1 < src.len() && !(src[i] == STAR && src[i + 1] == SLASH) {
        lemma_block_close(src, i + 1);
    }
}

pub proof fn lemma_operator_fits(src: Seq<u8>, pos: int)
    requires
        0 <= pos < src.len(),
    ensures
        operator_at(src, pos) matches Some(op) ==> pos + op.spec_spelling().len() <= src.len(),
{
}

/// Each token covers at least one byte, and no byte past the end of the source.
pub proof fn lemma_lex_at_progress(src: Seq<u8>, pos: int)
    requires
        0 <= pos < src.len(),
    ensures
        pos < lex_at(src, pos).1 <= src.len(),
{
    let b = src[pos];
    lemma_run_end(src, pos, ByteClass::Blank);
    lemma_run_end(src, pos, ByteClass::Digit);
    lemma_run_end(src, pos, ByteClass::Word);
    lemma_string_rest(src, pos + 1, Seq::empty());
    if comment_opens(src, pos) {
        lemma_run_end(src, pos + 2, ByteClass::LineBody);
        lemma_block_close(src, pos + 2);
    }
    lemma_operator_fits(src, pos);
}

/// The resolver's rule picks the longest operator whose spelling stands at
/// `pos`, and finds none only where no operator's spelling stands there.
pub proof fn lemma_longest_operator(src: Seq<u8>, pos: int)
    requires
        0 <= pos < src.len(),
    ensures
        operator_at(src, pos) matches Some(found) ==> {
            &&& spells_at(src, pos, found.spec_spelling())
            &&& forall|op: Operator|
                spells_at(src, pos, #[trigger] op.spec_spelling()) ==> op.spec_spelling().len()
                    <= found.spec_spelling().len()
        },
        operator_at(src, pos) is None ==> forall|op: Operator|
            !spells_at(src, pos, #[trigger] op.spec_spelling()),
{
    assert forall|op: Operator| spells_at(src, pos, #[trigger] op.spec_spelling()) implies ({
        &&& operator_at(src, pos) is Some
        &&& op.spec_spelling().len() <= operator_at(src, pos).unwrap().spec_spelling().len()
    }) by {
        let s = op.spec_spelling();
        assert(src[pos] == s[0]);
        if s.len() > 1 {
            assert(src[pos + 1] == s[1]);
        }
        if s.len() > 2 {
            assert(src[pos + 2] == s[2]);
        }
    }
    if let Some(found) = operator_at(src, pos) {
        let s = found.spec_spelling();
        assert(forall|k: int| 0 <= k < s.len() ==> src[pos + k] == s[k]);
    }
}

} // verus!
