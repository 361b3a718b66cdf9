//! The lexer driver: classifies the next byte, hands it to a sub-scanner or
//! the operator resolver, and assembles tokens with their spans.
use vstd::prelude::*;

use crate::cursor::SourceCursor;
use crate::grammar::{
    lemma_lex_at_progress, lex_at, starts_word, token_at, tokens_from, ByteClass, NEWLINE, QUOTE,
    SLASH, STAR,
};
use crate::token::{ErrorKind, Span, Token, TokenKind, TokenView};

verus! {

/// Whether `span` holds the offsets, line and columns of `t`.
pub open spec fn span_of(span: Span, t: TokenView) -> bool {
    &&& span.start_offset == t.start
    &&& span.end_offset == t.end
    &&& span.line == t.line
    &&& span.column_start == t.column_start
    &&& span.column_end == t.column_end
}

/// A single pass of lexical analysis over one source buffer.
///
/// A `-` is always lexed as an operator of its own, also before a digit:
/// integer literals are unsigned, and folding a sign into a literal is left
/// to the parser, which knows whether the `-` negates or subtracts.
#[derive(Debug)]
pub struct Tokenizer {
    cursor: SourceCursor,
}

impl Tokenizer {
    /// The source being lexed.
    pub closed spec fn source(&self) -> Seq<u8> {
        self.cursor.source()
    }

    /// The offset at which the next token starts.
    pub closed spec fn position(&self) -> int {
        self.cursor.position()
    }

    /// The next token starts within the source, and the line and column
    /// tracked for it agree with its offset.
    pub open spec fn wf(&self) -> bool {
        &&& self.cursor_agrees()
        &&& 0 <= self.position() <= self.source().len()
    }

    /// The cursor's offset, line and column agree with one another.
    pub closed spec fn cursor_agrees(&self) -> bool {
        self.cursor.wf()
    }

    pub fn new(source: Vec<u8>) -> (r: Tokenizer)
        requires
            source@.len() < usize::MAX,
        ensures
            r.wf(),
            r.source() == source@,
            r.position() == 0,
            r.position() <= r.source().len(),
    {
        Tokenizer { cursor: SourceCursor::new(source) }
    }

    /// The next token, or `None` once the whole source has been consumed.
    pub fn next(&mut self) -> (r: Option<Token>)
        requires
            old(self).wf(),
        ensures
            final(self).wf(),
            final(self).source() == old(self).source(),
            0 <= final(self).position() <= final(self).source().len(),
            old(self).position() < old(self).source().len() ==> {
                &&& r matches Some(t)
                &&& t@ == token_at(old(self).source(), old(self).position())
                &&& final(self).position() == lex_at(old(self).source(), old(self).position()).1
                &&& final(self).position() > old(self).position()
            },
            old(self).position() >= old(self).source().len() ==> {
                &&& r is None
                &&& final(self).position() == old(self).position()
            },
    {
        let cursor = &mut self.cursor;
        let b = match cursor.peek() {
            Some(b) => b,
            None => return None,
        };
        let ghost src = cursor.source();
        let start = cursor.offset();
        let line = cursor.line();
        let column_start = cursor.column();
        proof {
            lemma_lex_at_progress(src, start as int);
        }
        let kind = if b == NEWLINE {
            cursor.advance();
            TokenKind::Newline
        } else if ByteClass::Blank.contains(b) {
            cursor.take_while(ByteClass::Blank);
            TokenKind::Whitespace
        } else if ByteClass::Digit.contains(b) {
            cursor.scan_integer()
        } else if starts_word(b) {
            cursor.scan_word()
        } else if b == QUOTE {
            cursor.scan_string()
        } else if b == SLASH && cursor.next_is(1, SLASH) {
            cursor.scan_line_comment()
        } else if b == SLASH && cursor.next_is(1, STAR) {
            cursor.scan_block_comment()
        } else {
            match cursor.resolve_operator() {
                Some(op) => {
                    cursor.advance_by(op.width());
                    TokenKind::Operator(op)
                },
                None => {
                    cursor.advance();
                    TokenKind::Error(ErrorKind::InvalidByte)
                },
            }
        };
        let end = cursor.offset();
        let text = cursor.text(start, end);
        let span = Span::new(start, end, line, column_start, cursor.last_column() + 1);
        Some(Token::new(kind, text, span))
    }

    /// Every remaining token, in order.
    pub fn scan(&mut self) -> (r: Vec<Token>)
        requires
            old(self).wf(),
        ensures
            final(self).wf(),
            final(self).source() == old(self).source(),
            final(self).position() == final(self).source().len(),
            r@.map_values(|t: Token| t@) == tokens_from(old(self).source(), old(self).position()),
    {
        let ghost src = self.source();
        let ghost start = self.position();
        let mut tokens: Vec<Token> = Vec::new();
        loop
            invariant
                self.wf(),
                self.source() == src,
                src == old(self).source(),
                start == old(self).position(),
                0 <= self.position() <= src.len(),
                tokens@.map_values(|t: Token| t@) + tokens_from(src, self.position())
                    == tokens_from(src, start),
            ensures
                self.wf(),
                self.source() == src,
                self.position() == src.len(),
                tokens@.map_values(|t: Token| t@) == tokens_from(src, start),
            decreases src.len() - self.position(),
        {
            let ghost here = self.position();
            let ghost done = tokens@.map_values(|t: Token| t@);
            match self.next() {
                Some(t) => {
                    proof {
                        lemma_lex_at_progress(src, here);
                    }
                    tokens.push(t);
                    assert(tokens@.map_values(|t: Token| t@) =~= done.push(token_at(src, here)));
                    assert(done.push(token_at(src, here)) + tokens_from(src, self.position()) =~= done
                        + tokens_from(src, here));
                },
                None => {
                    assert(done =~= done + tokens_from(src, here));
                    break;
                },
            }
        }
        tokens
    }

    /// Every remaining token as two parallel sequences: the kinds, and in
    /// the same order the spans.
    pub fn tokenize(&mut self) -> (r: (Vec<TokenKind>, Vec<Span>))
        requires
            old(self).wf(),
        ensures
            final(self).wf(),
            final(self).source() == old(self).source(),
            final(self).position() == final(self).source().len(),
            ({
                let ts = tokens_from(old(self).source(), old(self).position());
                &&& r.0@.len() == ts.len()
                &&& r.1@.len() == ts.len()
                &&& forall|i: int|
                    0 <= i < ts.len() ==> #[trigger] r.0@[i]@ == ts[i].kind && span_of(
                        r.1@[i],
                        ts[i],
                    )
            }),
    {
        let ghost src = self.source();
        let ghost start = self.position();
        let ghost mut done: Seq<TokenView> = Seq::empty();
        let mut kinds: Vec<TokenKind> = Vec::new();
        let mut spans: Vec<Span> = Vec::new();
        loop
            invariant
                self.wf(),
                self.source() == src,
                src == old(self).source(),
                start == old(self).position(),
                0 <= self.position() <= src.len(),
                done + tokens_from(src, self.position()) == tokens_from(src, start),
                kinds@.len() == done.len(),
                spans@.len() == done.len(),
                forall|i: int|
                    0 <= i < done.len() ==> #[trigger] kinds@[i]@ == done[i].kind && span_of(
                        spans@[i],
                        done[i],
                    ),
            ensures
                self.wf(),
                self.source() == src,
                self.position() == src.len(),
                done == tokens_from(src, start),
                kinds@.len() == done.len(),
                spans@.len() == done.len(),
                forall|i: int|
                    0 <= i < done.len() ==> #[trigger] kinds@[i]@ == done[i].kind && span_of(
                        spans@[i],
                        done[i],
                    ),
            decreases src.len() - self.position(),
        {
            let ghost here = self.position();
            match self.next() {
                Some(t) => {
                    proof {
                        lemma_lex_at_progress(src, here);
                        assert(done.push(t@) + tokens_from(src, self.position()) =~= done
                            + tokens_from(src, here));
                        done = done.push(t@);
                    }
                    kinds.push(t.kind);
                    spans.push(t.span);
                },
                None => {
                    assert(done =~= done + tokens_from(src, here));
                    break;
                },
            }
        }
        (kinds, spans)
    }
}

} // verus!
