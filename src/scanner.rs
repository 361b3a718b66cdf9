//! The sub-scanners and the operator resolver. Each consumes exactly the
//! bytes of one token from the cursor and returns the token's kind.
use vstd::prelude::*;

use crate::cursor::SourceCursor;
use crate::grammar::{
    block_comment_at, block_close, byte_is, decimal_value, escaped, integer_kind, is_digit,
    is_word_start, lemma_longest_operator, lemma_run_end, operator_at, spells_at, run_end, string_rest, word_kind, ByteClass,
    BACKSLASH, CARRIAGE_RETURN, DIGIT_ZERO, NEWLINE, QUOTE, SLASH, STAR, TAB,
};
use crate::keyword::{keyword_lookup_exact, keyword_of, lookup_keyword, Keyword};
use crate::operator::Operator;
use crate::token::{ErrorKind, KindView, TokenKind};

verus! {

impl SourceCursor {
    /// Scans a maximal run of decimal digits into its `i64` value, or into an
    /// overflow error where the value exceeds `i64::MAX`.
    pub fn scan_integer(&mut self) -> (r: TokenKind)
        requires
            old(self).wf(),
            old(self).position() < old(self).source().len(),
            is_digit(old(self).source()[old(self).position()]),
        ensures
            final(self).wf(),
            final(self).source() == old(self).source(),
            final(self).position() == run_end(old(self).source(), old(self).position(), ByteClass::Digit),
            r@ == integer_kind(old(self).source().subrange(old(self).position(), final(self).position())),
    {
        let ghost src = self.source();
        let first = self.offset();
        let ghost start = first as int;
        let mut value: i64 = 0;
        let mut overflow = false;
        assert(src.subrange(start, start) =~= Seq::<u8>::empty());
        loop
            invariant
                self.wf(),
                self.source() == src,
                src == old(self).source(),
                0 <= value,
                start == old(self).position(),
                0 <= start <= self.position() <= src.len(),
                run_end(src, self.position(), ByteClass::Digit) == run_end(src, start, ByteClass::Digit),
                !overflow ==> value == decimal_value(src.subrange(start, self.position())),
                overflow ==> decimal_value(src.subrange(start, self.position())) > i64::MAX,
            ensures
                self.wf(),
                self.source() == src,
                self.position() == run_end(src, start, ByteClass::Digit),
                !overflow ==> value == decimal_value(src.subrange(start, self.position())),
                overflow ==> decimal_value(src.subrange(start, self.position())) > i64::MAX,
            decreases src.len() - self.position(),
        {
            let b = match self.peek() {
                Some(b) if ByteClass::Digit.contains(b) => b,
                _ => break,
            };
            let ghost before = src.subrange(start, self.position());
            self.advance();
            let ghost after = src.subrange(start, self.position());
            assert(after.drop_last() =~= before);
            if !overflow {
                let next: u128 = (value as u128) * 10 + ((b - DIGIT_ZERO) as u128);
                if next <= i64::MAX as u128 {
                    value = next as i64;
                } else {
                    overflow = true;
                }
            }
        }
        if overflow {
            TokenKind::Error(ErrorKind::IntegerOverflow)
        } else {
            TokenKind::Integer(value)
        }
    }

    /// Scans a maximal run of letters, digits and underscores: a keyword where
    /// the run spells one exactly, else an identifier.
    pub fn scan_word(&mut self) -> (r: TokenKind)
        requires
            old(self).wf(),
            old(self).position() < old(self).source().len(),
            is_word_start(old(self).source()[old(self).position()]),
        ensures
            final(self).wf(),
            final(self).source() == old(self).source(),
            final(self).position() == run_end(old(self).source(), old(self).position(), ByteClass::Word),
            r@ == word_kind(old(self).source().subrange(old(self).position(), final(self).position())),
            forall|k: Keyword|
                r@ == KindView::Keyword(k) <==> old(self).source().subrange(
                    old(self).position(),
                    final(self).position(),
                ) == #[trigger] k.spec_spelling(),
            r@ is Keyword || r@ == KindView::Identifier(
                old(self).source().subrange(old(self).position(), final(self).position()),
            ),
    {
        let start = self.offset();
        self.take_while(ByteClass::Word);
        proof {
            lemma_run_end(self.source(), start as int, ByteClass::Word);
            let word = self.source().subrange(start as int, self.position());
            assert forall|k: Keyword| #[trigger] keyword_of(word) == Some(k) <==> word
                == k.spec_spelling() by {
                keyword_lookup_exact(word, k);
            }
        }
        let word = self.text(start, self.offset());
        match lookup_keyword(&word) {
            Some(k) => TokenKind::Keyword(k),
            None => TokenKind::Identifier(word),
        }
    }

    /// Scans a string literal from its opening quote to its closing one,
    /// resolving escape sequences, or to the end of input where it is not closed.
    pub fn scan_string(&mut self) -> (r: TokenKind)
        requires
            old(self).wf(),
            old(self).position() < old(self).source().len(),
            old(self).source()[old(self).position()] == QUOTE,
        ensures
            final(self).wf(),
            final(self).source() == old(self).source(),
            (r@, final(self).position()) == string_rest(
                old(self).source(),
                old(self).position() + 1,
                Seq::empty(),
            ),
    {
        let ghost src = self.source();
        let first = self.offset();
        let ghost start = first as int;
        self.advance();
        let mut content: Vec<u8> = Vec::new();
        loop
            invariant
                self.wf(),
                self.source() == src,
                start == old(self).position(),
                src == old(self).source(),
                start < self.position() <= src.len(),
                string_rest(src, self.position(), content@) == string_rest(src, start + 1, Seq::empty()),
            decreases src.len() - self.position(),
        {
            match self.advance() {
                None => {
                    return TokenKind::Error(ErrorKind::UnterminatedString);
                },
                Some(b) => {
                    if b == QUOTE {
                        return TokenKind::String(content);
                    } else if b == BACKSLASH {
                        match self.advance() {
                            None => {
                                return TokenKind::Error(ErrorKind::UnterminatedString);
                            },
                            Some(e) => {
                                let ghost acc = content@;
                                push_escaped(&mut content, e);
                                assert(content@ =~= acc + escaped(e));
                            },
                        }
                    } else {
                        content.push(b);
                    }
                },
            }
        }
    }

    /// Scans a line comment from its `//` up to, not including, the next
    /// newline or the end of input.
    pub fn scan_line_comment(&mut self) -> (r: TokenKind)
        requires
            old(self).wf(),
            old(self).position() + 1 < old(self).source().len(),
            old(self).source()[old(self).position()] == SLASH,
            old(self).source()[old(self).position() + 1] == SLASH,
        ensures
            final(self).wf(),
            final(self).source() == old(self).source(),
            final(self).position() == run_end(
                old(self).source(),
                old(self).position() + 2,
                ByteClass::LineBody,
            ),
            r@ == KindView::LineComment(
                old(self).source().subrange(old(self).position() + 2, final(self).position()),
            ),
    {
        let start = self.offset();
        self.advance_by(2);
        self.take_while(ByteClass::LineBody);
        proof {
            lemma_run_end(self.source(), start + 2, ByteClass::LineBody);
        }
        TokenKind::LineComment(self.text(start + 2, self.offset()))
    }

    /// Scans a block comment from its `/*` to the first `*/`, or to the end of
    /// input where it is not closed. Comments do not nest.
    pub fn scan_block_comment(&mut self) -> (r: TokenKind)
        requires
            old(self).wf(),
            old(self).position() + 1 < old(self).source().len(),
            old(self).source()[old(self).position()] == SLASH,
            old(self).source()[old(self).position() + 1] == STAR,
        ensures
            final(self).wf(),
            final(self).source() == old(self).source(),
            (r@, final(self).position()) == block_comment_at(old(self).source(), old(self).position()),
    {
        let ghost src = self.source();
        let start = self.offset();
        self.advance_by(2);
        loop
            invariant
                self.wf(),
                self.source() == src,
                start == old(self).position(),
                src == old(self).source(),
                start + 2 <= self.position() <= src.len(),
                block_close(src, self.position()) == block_close(src, start + 2),
            decreases src.len() - self.position(),
        {
            let here = self.offset();
            if self.peek_nth(1).is_none() {
                let rest = self.len() - here;
                self.advance_by(rest);
                return TokenKind::Error(ErrorKind::UnterminatedBlockComment);
            }
            if self.peek() == Some(STAR) && self.peek_nth(1) == Some(SLASH) {
                let content = self.text(start + 2, here);
                self.advance_by(2);
                return TokenKind::BlockComment(content);
            }
            self.advance();
        }
    }

    /// Whether the byte `n` places after the current offset exists and is `c`.
    pub fn next_is(&self, n: usize, c: u8) -> (r: bool)
        requires
            self.wf(),
        ensures
            r == byte_is(self.source(), self.position() + n, c),
    {
        match self.peek_nth(n) {
            Some(b) => b == c,
            None => false,
        }
    }

    /// The operator at the current offset by longest match, looking at most
    /// two bytes ahead and consuming nothing.
    pub fn resolve_operator(&self) -> (r: Option<Operator>)
        requires
            self.wf(),
            self.position() < self.source().len(),
        ensures
            r == operator_at(self.source(), self.position()),
            r matches Some(found) ==> {
                &&& spells_at(self.source(), self.position(), found.spec_spelling())
                &&& forall|op: Operator|
                    spells_at(self.source(), self.position(), #[trigger] op.spec_spelling())
                        ==> op.spec_spelling().len() <= found.spec_spelling().len()
            },
            r is None ==> forall|op: Operator|
                !spells_at(self.source(), self.position(), #[trigger] op.spec_spelling()),
    {
        let b = match self.peek() {
            Some(b) => b,
            None => return None,
        };
        proof {
            lemma_longest_operator(self.source(), self.position());
        }
        let eq_next = self.next_is(1, 61);
        if b == 43 {
            Some(if eq_next { Operator::PlusAssign } else { Operator::Plus })
        } else if b == 45 {
            Some(
                if eq_next {
                    Operator::MinusAssign
                } else if self.next_is(1, 62) {
                    Operator::SingleArrow
                } else {
                    Operator::Minus
                },
            )
        } else if b == 42 {
            Some(if eq_next { Operator::MultiplyAssign } else { Operator::Asterisk })
        } else if b == 47 {
            Some(if eq_next { Operator::DivideAssign } else { Operator::Solidus })
        } else if b == 37 {
            Some(if eq_next { Operator::SurplusAssign } else { Operator::Percent })
        } else if b == 94 {
            Some(if eq_next { Operator::XorAssign } else { Operator::Circumflex })
        } else if b == 38 {
            Some(if eq_next { Operator::AndAssign } else { Operator::Ampersand })
        } else if b == 124 {
            Some(if eq_next { Operator::OrAssign } else { Operator::VerticalLine })
        } else if b == 33 {
            Some(if eq_next { Operator::NotEqual } else { Operator::Exclamation })
        } else if b == 61 {
            Some(
                if eq_next {
                    Operator::Equal
                } else if self.next_is(1, 62) {
                    Operator::DoubleArrow
                } else {
                    Operator::Assign
                },
            )
        } else if b == 60 {
            Some(
                if eq_next {
                    Operator::LessEqual
                } else if self.next_is(1, 60) {
                    if self.next_is(2, 61) {
                        Operator::LeftShiftAssign
                    } else {
                        Operator::LeftShift
                    }
                } else {
                    Operator::LessThan
                },
            )
        } else if b == 62 {
            Some(
                if eq_next {
                    Operator::GreaterEqual
                } else if self.next_is(1, 62) {
                    if self.next_is(2, 61) {
                        Operator::RightShiftAssign
                    } else {
                        Operator::RightShift
                    }
                } else {
                    Operator::GreaterThan
                },
            )
        } else if b == 92 {
            Some(Operator::ReverseSolidus)
        } else if b == 64 {
            Some(Operator::AtMark)
        } else if b == 35 {
            Some(Operator::Hashtag)
        } else if b == 36 {
            Some(Operator::Dollar)
        } else if b == 126 {
            Some(Operator::Tilde)
        } else if b == 39 {
            Some(Operator::Apostrophe)
        } else if b == 40 {
            Some(Operator::LeftParen)
        } else if b == 41 {
            Some(Operator::RightParen)
        } else if b == 91 {
            Some(Operator::LeftSquareBracket)
        } else if b == 93 {
            Some(Operator::RightSquareBracket)
        } else if b == 123 {
            Some(Operator::LeftCurlyBracket)
        } else if b == 125 {
            Some(Operator::RightCurlyBracket)
        } else if b == 46 {
            Some(Operator::FullStop)
        } else if b == 44 {
            Some(Operator::Comma)
        } else if b == 63 {
            Some(Operator::Question)
        } else if b == 58 {
            Some(Operator::Colon)
        } else if b == 59 {
            Some(Operator::Semicolon)
        } else {
            None
        }
    }
}

/// Appends what the escape sequence `\e` stands for.
fn push_escaped(content: &mut Vec<u8>, e: u8)
    ensures
        final(content)@ == old(content)@ + escaped(e),
{
    let ghost before = content@;
    if e == 110 {
        content.push(NEWLINE);
    } else if e == 116 {
        content.push(TAB);
    } else if e == 114 {
        content.push(CARRIAGE_RETURN);
    } else if e == 48 {
        content.push(0u8);
    } else if e == QUOTE || e == BACKSLASH {
        content.push(e);
    } else {
        content.push(BACKSLASH);
        content.push(e);
    }
    assert(content@ =~= before + escaped(e));
}

} // verus!
