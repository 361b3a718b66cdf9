use lexer::keyword::Keyword;
use lexer::operator::Operator;
use lexer::token::{ErrorKind, Span, Token, TokenKind};
use lexer::tokenizer::Tokenizer;

fn kinds(src: &str) -> Vec<TokenKind> {
    Tokenizer::new(src.into()).scan().into_iter().map(|t| t.kind).collect()
}

fn all_tokens(src: &[u8]) -> Vec<Token> {
    Tokenizer::new(src.to_vec()).scan()
}

#[test]
fn test_tokenize() {
    let input = "";
    let output = Tokenizer::new(input.into()).tokenize();
    assert_eq!((vec![], vec![]), output)
}

#[test]
fn test_parse_line_comment() {
    let input = "// This is the first line comment.\n// This is the second line comment.";
    let (tokens, spans) = Tokenizer::new(input.into()).tokenize();

    let token = tokens.get(2).unwrap();
    let expect_second_token =
        TokenKind::LineComment(String::from(" This is the second line comment.").into_bytes());
    assert_eq!(token, &expect_second_token);

    let span = spans.get(2).unwrap();
    let expect_second_token = Span::new(35, 70, 2, 0, 35);
    assert_eq!(span, &expect_second_token);
}

#[test]
fn test_parse_block_comment() {
    let input =
        "/* This is the first line comment. */\n/* This is\nthe second line comment. */";
    let (tokens, spans) = Tokenizer::new(input.into()).tokenize();

    let token = tokens.get(2).unwrap();
    let expect_second_token =
        TokenKind::BlockComment(String::from(" This is\nthe second line comment. ").into_bytes());
    assert_eq!(token, &expect_second_token);

    // The comment covers offsets 38..76: it starts on line 2, right after the
    // newline at offset 37, and ends on line 3 at column 27.
    let span = spans.get(2).unwrap();
    let expect_second_token = Span::new(38, 76, 2, 0, 27);
    assert_eq!(span, &expect_second_token);
}

#[test]
fn test_tokenizer() {
    let source = r#"
            x = 1
            y = 2
            z = x + y
        "#
    .trim();
    let mut tokenizer = Tokenizer::new(source.into());
    let tokens = tokenizer.scan();
    println!("{tokens:?}");
    assert!(tokenizer.next().is_none());
}

#[test]
fn plus_assign_scenario() {
    assert_eq!(
        kinds("a+=1"),
        vec![
            TokenKind::Identifier(b"a".to_vec()),
            TokenKind::Operator(Operator::PlusAssign),
            TokenKind::Integer(1),
        ]
    );
}

#[test]
fn line_comment_then_newline_scenario() {
    assert_eq!(
        kinds("// hi\nx"),
        vec![
            TokenKind::LineComment(b" hi".to_vec()),
            TokenKind::Newline,
            TokenKind::Identifier(b"x".to_vec()),
        ]
    );
}

#[test]
fn unterminated_block_comment_scenario() {
    let tokens = all_tokens(b"/* abc");
    assert_eq!(tokens.len(), 1);
    assert_eq!(tokens[0].kind, TokenKind::Error(ErrorKind::UnterminatedBlockComment));
    assert_eq!(tokens[0].span.start_offset, 0);
    assert_eq!(tokens[0].span.end_offset, 6);
}

#[test]
fn left_shift_assign_scenario() {
    let tokens = all_tokens(b"<<=");
    assert_eq!(tokens.len(), 1);
    assert_eq!(tokens[0].kind, TokenKind::Operator(Operator::LeftShiftAssign));
    assert_eq!((tokens[0].span.start_offset, tokens[0].span.end_offset), (0, 3));
}

#[test]
fn escaped_string_scenario() {
    let tokens = all_tokens(br#""ab\"c""#);
    assert_eq!(tokens.len(), 1);
    assert_eq!(tokens[0].kind, TokenKind::String(b"ab\"c".to_vec()));
    assert_eq!(tokens[0].text, br#""ab\"c""#.to_vec());
}

#[test]
fn round_trip_reproduces_input() {
    let inputs: Vec<&[u8]> = vec![
        b"let x = 10;\n  y <<= x // shift\n/* multi\nline */ \"s\\n\" \x80 `",
        b"\"open string",
        b"a-1 => b->c != d",
        b"",
        b"\t\r \n\n",
    ];
    for input in inputs {
        let joined: Vec<u8> = all_tokens(input).into_iter().flat_map(|t| t.text).collect();
        assert_eq!(joined, input.to_vec());
    }
}

#[test]
fn spans_tile_the_input() {
    let input = b"fn f(a, b) {\n  return a >>= 2; // done\n}\n\"x\" 99 ?";
    let tokens = all_tokens(input);
    let mut expected_start = 0;
    for t in &tokens {
        assert_eq!(t.span.start_offset, expected_start);
        assert!(t.span.start_offset < t.span.end_offset);
        assert_eq!(t.text, input[t.span.start_offset..t.span.end_offset].to_vec());
        expected_start = t.span.end_offset;
    }
    assert_eq!(expected_start, input.len());
}

#[test]
fn longest_match_prefers_longer_operators() {
    assert_eq!(
        kinds("<<= << <= < >>= >> >= > == => = != ! -> -= -"),
        vec![
            TokenKind::Operator(Operator::LeftShiftAssign),
            TokenKind::Whitespace,
            TokenKind::Operator(Operator::LeftShift),
            TokenKind::Whitespace,
            TokenKind::Operator(Operator::LessEqual),
            TokenKind::Whitespace,
            TokenKind::Operator(Operator::LessThan),
            TokenKind::Whitespace,
            TokenKind::Operator(Operator::RightShiftAssign),
            TokenKind::Whitespace,
            TokenKind::Operator(Operator::RightShift),
            TokenKind::Whitespace,
            TokenKind::Operator(Operator::GreaterEqual),
            TokenKind::Whitespace,
            TokenKind::Operator(Operator::GreaterThan),
            TokenKind::Whitespace,
            TokenKind::Operator(Operator::Equal),
            TokenKind::Whitespace,
            TokenKind::Operator(Operator::DoubleArrow),
            TokenKind::Whitespace,
            TokenKind::Operator(Operator::Assign),
            TokenKind::Whitespace,
            TokenKind::Operator(Operator::NotEqual),
            TokenKind::Whitespace,
            TokenKind::Operator(Operator::Exclamation),
            TokenKind::Whitespace,
            TokenKind::Operator(Operator::SingleArrow),
            TokenKind::Whitespace,
            TokenKind::Operator(Operator::MinusAssign),
            TokenKind::Whitespace,
            TokenKind::Operator(Operator::Minus),
        ]
    );
}

#[test]
fn compound_assignments() {
    assert_eq!(
        kinds("+=*=/=%=^=&=|="),
        vec![
            TokenKind::Operator(Operator::PlusAssign),
            TokenKind::Operator(Operator::MultiplyAssign),
            TokenKind::Operator(Operator::DivideAssign),
            TokenKind::Operator(Operator::SurplusAssign),
            TokenKind::Operator(Operator::XorAssign),
            TokenKind::Operator(Operator::AndAssign),
            TokenKind::Operator(Operator::OrAssign),
        ]
    );
}

#[test]
fn single_byte_punctuation() {
    let expected = [
        Operator::Plus,
        Operator::Minus,
        Operator::Asterisk,
        Operator::Solidus,
        Operator::ReverseSolidus,
        Operator::Ampersand,
        Operator::AtMark,
        Operator::Hashtag,
        Operator::Dollar,
        Operator::Percent,
        Operator::Tilde,
        Operator::Circumflex,
        Operator::VerticalLine,
        Operator::Apostrophe,
        Operator::LeftParen,
        Operator::RightParen,
        Operator::LeftSquareBracket,
        Operator::RightSquareBracket,
        Operator::LeftCurlyBracket,
        Operator::RightCurlyBracket,
        Operator::LessThan,
        Operator::GreaterThan,
        Operator::FullStop,
        Operator::Comma,
        Operator::Exclamation,
        Operator::Question,
        Operator::Colon,
        Operator::Semicolon,
        Operator::Assign,
    ];
    let got = kinds("+ - * / \\ & @ # $ % ~ ^ | ' ( ) [ ] { } < > . , ! ? : ; =");
    let ops: Vec<TokenKind> = got.into_iter().filter(|k| *k != TokenKind::Whitespace).collect();
    let want: Vec<TokenKind> = expected.iter().map(|o| TokenKind::Operator(*o)).collect();
    assert_eq!(ops, want);
}

#[test]
fn operator_spelling_matches_source_text() {
    for t in all_tokens(b"<<= >>= -> => != + { } \\") {
        if let TokenKind::Operator(op) = t.kind {
            assert_eq!(op.spelling(), t.text);
            assert_eq!(op.width(), t.text.len());
        }
    }
    assert_eq!(Operator::RightCurlyBracket.spelling(), b"}".to_vec());
    assert_eq!(Operator::SurplusAssign.spelling(), b"%=".to_vec());
    assert_eq!(Operator::AndAssign.spelling(), b"&=".to_vec());
}

#[test]
fn keywords_are_exact() {
    assert_eq!(kinds("let"), vec![TokenKind::Keyword(Keyword::Let)]);
    assert_eq!(kinds("lets"), vec![TokenKind::Identifier(b"lets".to_vec())]);
    assert_eq!(kinds("Let"), vec![TokenKind::Identifier(b"Let".to_vec())]);
    assert_eq!(kinds("_let"), vec![TokenKind::Identifier(b"_let".to_vec())]);
    assert_eq!(kinds("let1"), vec![TokenKind::Identifier(b"let1".to_vec())]);
    let words = "let mut const if elif else for of while when case and or fn break continue \
                 return trait ext impl enum as export";
    let expected = [
        Keyword::Let,
        Keyword::Mut,
        Keyword::Const,
        Keyword::If,
        Keyword::Elif,
        Keyword::Else,
        Keyword::For,
        Keyword::Of,
        Keyword::While,
        Keyword::When,
        Keyword::Case,
        Keyword::And,
        Keyword::Or,
        Keyword::Fn,
        Keyword::Break,
        Keyword::Continue,
        Keyword::Return,
        Keyword::Trait,
        Keyword::Ext,
        Keyword::Impl,
        Keyword::Enum,
        Keyword::As,
        Keyword::Export,
    ];
    let got: Vec<TokenKind> =
        kinds(words).into_iter().filter(|k| *k != TokenKind::Whitespace).collect();
    let want: Vec<TokenKind> = expected.iter().map(|k| TokenKind::Keyword(*k)).collect();
    assert_eq!(got, want);
    for k in expected {
        assert_eq!(kinds(std::str::from_utf8(&k.spelling()).unwrap()), vec![TokenKind::Keyword(k)]);
    }
}

#[test]
fn minus_before_digit_is_an_operator() {
    assert_eq!(
        kinds("a-1"),
        vec![
            TokenKind::Identifier(b"a".to_vec()),
            TokenKind::Operator(Operator::Minus),
            TokenKind::Integer(1),
        ]
    );
}

#[test]
fn integer_bounds() {
    assert_eq!(kinds("9223372036854775807"), vec![TokenKind::Integer(i64::MAX)]);
    assert_eq!(kinds("0042"), vec![TokenKind::Integer(42)]);
    let tokens = all_tokens(b"9223372036854775808 7");
    assert_eq!(tokens[0].kind, TokenKind::Error(ErrorKind::IntegerOverflow));
    assert_eq!(tokens[0].text, b"9223372036854775808".to_vec());
    assert_eq!(tokens[2].kind, TokenKind::Integer(7));
    assert_eq!(
        kinds("123456789012345678901234567890"),
        vec![TokenKind::Error(ErrorKind::IntegerOverflow)]
    );
}

#[test]
fn invalid_bytes_are_reported_and_skipped() {
    let tokens = all_tokens(b"a`\x80b");
    assert_eq!((tokens[2].span.start_offset, tokens[2].span.end_offset), (2, 3));
    let got: Vec<TokenKind> = tokens.into_iter().map(|t| t.kind).collect();
    assert_eq!(
        got,
        vec![
            TokenKind::Identifier(b"a".to_vec()),
            TokenKind::Error(ErrorKind::InvalidByte),
            TokenKind::Error(ErrorKind::InvalidByte),
            TokenKind::Identifier(b"b".to_vec()),
        ]
    );
}

#[test]
fn unterminated_string_runs_to_end() {
    let tokens = all_tokens(b"x \"abc\\\"");
    assert_eq!(tokens.len(), 3);
    assert_eq!(tokens[2].kind, TokenKind::Error(ErrorKind::UnterminatedString));
    assert_eq!((tokens[2].span.start_offset, tokens[2].span.end_offset), (2, 8));
    assert_eq!(kinds("\"\\"), vec![TokenKind::Error(ErrorKind::UnterminatedString)]);
}

#[test]
fn string_escapes_are_decoded() {
    let tokens = all_tokens(b"\"a\\nb\\tc\\\\d\\re\\0f\\qg\nh\"");
    assert_eq!(tokens.len(), 1);
    assert_eq!(tokens[0].kind, TokenKind::String(b"a\nb\tc\\d\re\0f\\qg\nh".to_vec()));
    assert_eq!(tokens[0].span.line, 1);
    assert_eq!(kinds("\"\""), vec![TokenKind::String(vec![])]);
}

#[test]
fn whitespace_is_coalesced() {
    let tokens = all_tokens(b" \t\r x\n");
    assert_eq!(tokens.len(), 3);
    assert_eq!(tokens[0].kind, TokenKind::Whitespace);
    assert_eq!(tokens[0].text, b" \t\r ".to_vec());
    assert_eq!(tokens[2].kind, TokenKind::Newline);
}

#[test]
fn lines_and_columns_follow_newlines() {
    let tokens = all_tokens(b"ab\n  cd /* x\ny */ e");
    let ab = &tokens[0];
    assert_eq!(ab.span, Span::new(0, 2, 1, 0, 2));
    let cd = &tokens[3];
    assert_eq!(cd.kind, TokenKind::Identifier(b"cd".to_vec()));
    assert_eq!(cd.span, Span::new(5, 7, 2, 2, 4));
    let comment = &tokens[5];
    assert_eq!(comment.kind, TokenKind::BlockComment(b" x\ny ".to_vec()));
    assert_eq!(comment.span, Span::new(8, 17, 2, 5, 4));
    let e = &tokens[7];
    assert_eq!(e.span, Span::new(18, 19, 3, 5, 6));
}

#[test]
fn comments_take_priority_over_division() {
    assert_eq!(
        kinds("a/b/=c//d"),
        vec![
            TokenKind::Identifier(b"a".to_vec()),
            TokenKind::Operator(Operator::Solidus),
            TokenKind::Identifier(b"b".to_vec()),
            TokenKind::Operator(Operator::DivideAssign),
            TokenKind::Identifier(b"c".to_vec()),
            TokenKind::LineComment(b"d".to_vec()),
        ]
    );
    assert_eq!(kinds("/**/"), vec![TokenKind::BlockComment(vec![])]);
    assert_eq!(kinds("/*/"), vec![TokenKind::Error(ErrorKind::UnterminatedBlockComment)]);
    assert_eq!(
        kinds("/* a */ */"),
        vec![
            TokenKind::BlockComment(b" a ".to_vec()),
            TokenKind::Whitespace,
            TokenKind::Operator(Operator::Asterisk),
            TokenKind::Operator(Operator::Solidus),
        ]
    );
}

#[test]
fn next_yields_tokens_one_at_a_time() {
    let mut tokenizer = Tokenizer::new(b"x 1".to_vec());
    let first = tokenizer.next().unwrap();
    assert_eq!(
        first,
        Token::new(TokenKind::Identifier(b"x".to_vec()), b"x".to_vec(), Span::new(0, 1, 1, 0, 1))
    );
    assert_eq!(tokenizer.next().unwrap().kind, TokenKind::Whitespace);
    assert_eq!(tokenizer.next().unwrap().kind, TokenKind::Integer(1));
    assert!(tokenizer.next().is_none());
    assert!(tokenizer.scan().is_empty());
}

#[test]
fn tokenize_keeps_every_token() {
    let (kinds, spans) = Tokenizer::new(b"a \n// c\nb".to_vec()).tokenize();
    assert_eq!(
        kinds,
        vec![
            TokenKind::Identifier(b"a".to_vec()),
            TokenKind::Whitespace,
            TokenKind::Newline,
            TokenKind::LineComment(b" c".to_vec()),
            TokenKind::Newline,
            TokenKind::Identifier(b"b".to_vec()),
        ]
    );
    assert_eq!(spans[2], Span::new(2, 3, 1, 2, 3));
    assert_eq!(spans[5], Span::new(8, 9, 3, 0, 1));
}

#[test]
fn tokenize_line_comment_scenario() {
    let (kinds, spans) = Tokenizer::new(b"// hi\nx".to_vec()).tokenize();
    assert_eq!(
        kinds,
        vec![
            TokenKind::LineComment(b" hi".to_vec()),
            TokenKind::Newline,
            TokenKind::Identifier(b"x".to_vec()),
        ]
    );
    let offsets: Vec<(usize, usize)> =
        spans.iter().map(|s| (s.start_offset, s.end_offset)).collect();
    assert_eq!(offsets, vec![(0, 5), (5, 6), (6, 7)]);
}

#[test]
fn tokenize_keeps_whitespace_between_operators() {
    let (kinds, spans) = Tokenizer::new(b"%= =>".to_vec()).tokenize();
    assert_eq!(
        kinds,
        vec![
            TokenKind::Operator(Operator::SurplusAssign),
            TokenKind::Whitespace,
            TokenKind::Operator(Operator::DoubleArrow),
        ]
    );
    let offsets: Vec<(usize, usize)> =
        spans.iter().map(|s| (s.start_offset, s.end_offset)).collect();
    assert_eq!(offsets, vec![(0, 2), (2, 3), (3, 5)]);
}

#[test]
fn tokenize_spans_cover_a_lone_space() {
    let (kinds, spans) = Tokenizer::new(b" ".to_vec()).tokenize();
    assert_eq!(kinds, vec![TokenKind::Whitespace]);
    assert_eq!(spans, vec![Span::new(0, 1, 1, 0, 1)]);
}

#[test]
fn newline_spans_one_column() {
    let tokens = all_tokens(b"ab\n\n");
    assert_eq!(tokens[1].span, Span::new(2, 3, 1, 2, 3));
    assert_eq!(tokens[2].span, Span::new(3, 4, 2, 0, 1));
    let unterminated = all_tokens(b"\"a\n");
    assert_eq!(unterminated[0].span, Span::new(0, 3, 1, 0, 3));
}
