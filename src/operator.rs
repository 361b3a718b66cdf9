use vstd::prelude::*;

verus! {

/// Operators and punctuation, from one to three bytes long.
#[derive(Clone, Copy, Debug, PartialEq, Eq, Structural)]
pub enum Operator {
    Plus,
    Minus,
    Asterisk,
    Solidus,
    ReverseSolidus,
    Ampersand,
    AtMark,
    Hashtag,
    Dollar,
    Percent,
    Tilde,
    Circumflex,
    VerticalLine,
    Apostrophe,
    LeftParen,
    RightParen,
    LeftSquareBracket,
    RightSquareBracket,
    LeftCurlyBracket,
    RightCurlyBracket,
    LessThan,
    GreaterThan,
    FullStop,
    Comma,
    Exclamation,
    Question,
    Colon,
    Semicolon,
    Assign,
    Equal,
    LessEqual,
    GreaterEqual,
    NotEqual,
    PlusAssign,
    MinusAssign,
    MultiplyAssign,
    DivideAssign,
    SurplusAssign,
    XorAssign,
    AndAssign,
    OrAssign,
    SingleArrow,
    DoubleArrow,
    LeftShift,
    RightShift,
    LeftShiftAssign,
    RightShiftAssign,
}

impl Operator {
    /// The exact bytes that spell this operator in source text.
    pub open spec fn spec_spelling(self) -> Seq<u8> {
        match self {
            Operator::Plus => seq![43u8],  // +
            Operator::Minus => seq![45u8],  // -
            Operator::Asterisk => seq![42u8],  // *
            Operator::Solidus => seq![47u8],  // /
            Operator::ReverseSolidus => seq![92u8],  // \
            Operator::Ampersand => seq![38u8],  // &
            Operator::AtMark => seq![64u8],  // @
            Operator::Hashtag => seq![35u8],  // #
            Operator::Dollar => seq![36u8],  // $
            Operator::Percent => seq![37u8],  // %
            Operator::Tilde => seq![126u8],  // ~
            Operator::Circumflex => seq![94u8],  // ^
            Operator::VerticalLine => seq![124u8],  // |
            Operator::Apostrophe => seq![39u8],  // '
            Operator::LeftParen => seq![40u8],  // (
            Operator::RightParen => seq![41u8],  // )
            Operator::LeftSquareBracket => seq![91u8],  // [
            Operator::RightSquareBracket => seq![93u8],  // ]
            Operator::LeftCurlyBracket => seq![123u8],  // {
            Operator::RightCurlyBracket => seq![125u8],  // }
            Operator::LessThan => seq![60u8],  // <
            Operator::GreaterThan => seq![62u8],  // >
            Operator::FullStop => seq![46u8],  // .
            Operator::Comma => seq![44u8],  // ,
            Operator::Exclamation => seq![33u8],  // !
            Operator::Question => seq![63u8],  // ?
            Operator::Colon => seq![58u8],  // :
            Operator::Semicolon => seq![59u8],  // ;
            Operator::Assign => seq![61u8],  // =
            Operator::Equal => seq![61u8, 61],  // ==
            Operator::LessEqual => seq![60u8, 61],  // <=
            Operator::GreaterEqual => seq![62u8, 61],  // >=
            Operator::NotEqual => seq![33u8, 61],  // !=
            Operator::PlusAssign => seq![43u8, 61],  // +=
            Operator::MinusAssign => seq![45u8, 61],  // -=
            Operator::MultiplyAssign => seq![42u8, 61],  // *=
            Operator::DivideAssign => seq![47u8, 61],  // /=
            Operator::SurplusAssign => seq![37u8, 61],  // %=
            Operator::XorAssign => seq![94u8, 61],  // ^=
            Operator::AndAssign => seq![38u8, 61],  // &=
            Operator::OrAssign => seq![124u8, 61],  // |=
            Operator::SingleArrow => seq![45u8, 62],  // ->
            Operator::DoubleArrow => seq![61u8, 62],  // =>
            Operator::LeftShift => seq![60u8, 60],  // <<
            Operator::RightShift => seq![62u8, 62],  // >>
            Operator::LeftShiftAssign => seq![60u8, 60, 61],  // <<=
            Operator::RightShiftAssign => seq![62u8, 62, 61],  // >>=
        }
    }

    /// The exact bytes that spell this operator in source text.
    pub fn spelling(&self) -> (r: Vec<u8>)
        ensures
            r@ == self.spec_spelling(),
    {
        match self {
            Operator::Plus => vec![43u8],
            Operator::Minus => vec![45u8],
            Operator::Asterisk => vec![42u8],
            Operator::Solidus => vec![47u8],
            Operator::ReverseSolidus => vec![92u8],
            Operator::Ampersand => vec![38u8],
            Operator::AtMark => vec![64u8],
            Operator::Hashtag => vec![35u8],
            Operator::Dollar => vec![36u8],
            Operator::Percent => vec![37u8],
            Operator::Tilde => vec![126u8],
            Operator::Circumflex => vec![94u8],
            Operator::VerticalLine => vec![124u8],
            Operator::Apostrophe => vec![39u8],
            Operator::LeftParen => vec![40u8],
            Operator::RightParen => vec![41u8],
            Operator::LeftSquareBracket => vec![91u8],
            Operator::RightSquareBracket => vec![93u8],
            Operator::LeftCurlyBracket => vec![123u8],
            Operator::RightCurlyBracket => vec![125u8],
            Operator::LessThan => vec![60u8],
            Operator::GreaterThan => vec![62u8],
            Operator::FullStop => vec![46u8],
            Operator::Comma => vec![44u8],
            Operator::Exclamation => vec![33u8],
            Operator::Question => vec![63u8],
            Operator::Colon => vec![58u8],
            Operator::Semicolon => vec![59u8],
            Operator::Assign => vec![61u8],
            Operator::Equal => vec![61u8, 61],
            Operator::LessEqual => vec![60u8, 61],
            Operator::GreaterEqual => vec![62u8, 61],
            Operator::NotEqual => vec![33u8, 61],
            Operator::PlusAssign => vec![43u8, 61],
            Operator::MinusAssign => vec![45u8, 61],
            Operator::MultiplyAssign => vec![42u8, 61],
            Operator::DivideAssign => vec![47u8, 61],
            Operator::SurplusAssign => vec![37u8, 61],
            Operator::XorAssign => vec![94u8, 61],
            Operator::AndAssign => vec![38u8, 61],
            Operator::OrAssign => vec![124u8, 61],
            Operator::SingleArrow => vec![45u8, 62],
            Operator::DoubleArrow => vec![61u8, 62],
            Operator::LeftShift => vec![60u8, 60],
            Operator::RightShift => vec![62u8, 62],
            Operator::LeftShiftAssign => vec![60u8, 60, 61],
            Operator::RightShiftAssign => vec![62u8, 62, 61],
        }
    }

    /// The number of bytes of the operator's spelling.
    pub fn width(&self) -> (r: usize)
        ensures
            r == self.spec_spelling().len(),
            1 <= r <= 3,
    {
        match self {
            Operator::Plus => 1,
            Operator::Minus => 1,
            Operator::Asterisk => 1,
            Operator::Solidus => 1,
            Operator::ReverseSolidus => 1,
            Operator::Ampersand => 1,
            Operator::AtMark => 1,
            Operator::Hashtag => 1,
            Operator::Dollar => 1,
            Operator::Percent => 1,
            Operator::Tilde => 1,
            Operator::Circumflex => 1,
            Operator::VerticalLine => 1,
            Operator::Apostrophe => 1,
            Operator::LeftParen => 1,
            Operator::RightParen => 1,
            Operator::LeftSquareBracket => 1,
            Operator::RightSquareBracket => 1,
            Operator::LeftCurlyBracket => 1,
            Operator::RightCurlyBracket => 1,
            Operator::LessThan => 1,
            Operator::GreaterThan => 1,
            Operator::FullStop => 1,
            Operator::Comma => 1,
            Operator::Exclamation => 1,
            Operator::Question => 1,
            Operator::Colon => 1,
            Operator::Semicolon => 1,
            Operator::Assign => 1,
            Operator::Equal => 2,
            Operator::LessEqual => 2,
            Operator::GreaterEqual => 2,
            Operator::NotEqual => 2,
            Operator::PlusAssign => 2,
            Operator::MinusAssign => 2,
            Operator::MultiplyAssign => 2,
            Operator::DivideAssign => 2,
            Operator::SurplusAssign => 2,
            Operator::XorAssign => 2,
            Operator::AndAssign => 2,
            Operator::OrAssign => 2,
            Operator::SingleArrow => 2,
            Operator::DoubleArrow => 2,
            Operator::LeftShift => 2,
            Operator::RightShift => 2,
            Operator::LeftShiftAssign => 3,
            Operator::RightShiftAssign => 3,
        }
    }
}

} // verus!
