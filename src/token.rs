use vstd::prelude::*;

use crate::keyword::Keyword;
use crate::operator::Operator;

verus! {

/// The recoverable conditions the lexer reports as `Error` tokens.
#[derive(Clone, Copy, Debug, PartialEq, Eq, Structural)]
pub enum ErrorKind {
    /// A byte that starts no token.
    InvalidByte,
    /// A string literal with no closing quote before the end of input.
    UnterminatedString,
    /// A block comment with no closing `*/` before the end of input.
    UnterminatedBlockComment,
    /// A run of decimal digits whose value exceeds `i64::MAX`.
    IntegerOverflow,
}

/// The category of a token, with the decoded value of literals and comments.
#[derive(Debug, PartialEq, Eq)]
pub enum TokenKind {
    Keyword(Keyword),
    /// An identifier, with its name.
    Identifier(Vec<u8>),
    /// A decimal integer literal, with its value.
    Integer(i64),
    /// A string literal, with its content after escapes are resolved.
    String(Vec<u8>),
    /// A line comment, with everything after `//`.
    LineComment(Vec<u8>),
    /// A block comment, with everything between `/*` and `*/`.
    BlockComment(Vec<u8>),
    Operator(Operator),
    /// A run of spaces, tabs and carriage returns.
    Whitespace,
    /// A single `\n`.
    Newline,
    Error(ErrorKind),
}

/// The mathematical value of a `TokenKind`: byte buffers become sequences.
pub enum KindView {
    Keyword(Keyword),
    Identifier(Seq<u8>),
    Integer(i64),
    String(Seq<u8>),
    LineComment(Seq<u8>),
    BlockComment(Seq<u8>),
    Operator(Operator),
    Whitespace,
    Newline,
    Error(ErrorKind),
}

impl View for TokenKind {
    type V = KindView;

    open spec fn view(&self) -> KindView {
        match self {
            TokenKind::Keyword(k) => KindView::Keyword(*k),
            TokenKind::Identifier(s) => KindView::Identifier(s@),
            TokenKind::Integer(v) => KindView::Integer(*v),
            TokenKind::String(s) => KindView::String(s@),
            TokenKind::LineComment(s) => KindView::LineComment(s@),
            TokenKind::BlockComment(s) => KindView::BlockComment(s@),
            TokenKind::Operator(o) => KindView::Operator(*o),
            TokenKind::Whitespace => KindView::Whitespace,
            TokenKind::Newline => KindView::Newline,
            TokenKind::Error(e) => KindView::Error(*e),
        }
    }
}

/// Where a token stands in the source: the byte range `[start_offset, end_offset)`,
/// the line (from 1) on which it starts, the column (from 0) of its first byte,
/// and one more than the column of its last byte, on that byte's line (a
/// `Newline` token at column `c` spans the columns `[c, c + 1)`).
#[derive(Clone, Copy, Debug, PartialEq, Eq, Structural)]
pub struct Span {
    pub start_offset: usize,
    pub end_offset: usize,
    pub line: usize,
    pub column_start: usize,
    pub column_end: usize,
}

impl Span {
    pub fn new(
        start_offset: usize,
        end_offset: usize,
        line: usize,
        column_start: usize,
        column_end: usize,
    ) -> (r: Span)
        ensures
            r == (Span { start_offset, end_offset, line, column_start, column_end }),
    {
        Span { start_offset, end_offset, line, column_start, column_end }
    }
}

/// A classified, positioned piece of the source.
#[derive(Debug, PartialEq, Eq)]
pub struct Token {
    pub kind: TokenKind,
    /// The raw source bytes the token covers.
    pub text: Vec<u8>,
    pub span: Span,
}

/// The mathematical value of a `Token`, with the span's numbers as integers.
pub struct TokenView {
    pub kind: KindView,
    pub text: Seq<u8>,
    pub start: int,
    pub end: int,
    pub line: int,
    pub column_start: int,
    pub column_end: int,
}

impl View for Token {
    type V = TokenView;

    open spec fn view(&self) -> TokenView {
        TokenView {
            kind: self.kind@,
            text: self.text@,
            start: self.span.start_offset as int,
            end: self.span.end_offset as int,
            line: self.span.line as int,
            column_start: self.span.column_start as int,
            column_end: self.span.column_end as int,
        }
    }
}

impl Token {
    pub fn new(kind: TokenKind, text: Vec<u8>, span: Span) -> (r: Token)
        ensures
            r == (Token { kind, text, span }),
    {
        Token { kind, text, span }
    }
}

} // verus!
