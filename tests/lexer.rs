use clex::{Lexer, LexerError, Token};

fn lexer(text: &str) -> Lexer {
    Lexer::new(text, "test.c".to_string())
}

fn ident(t: Result<Token, LexerError>) -> String {
    match t {
        Ok(Token::ID(s)) => s,
        other => panic!("expected an identifier, got {:?}", other),
    }
}

fn is_eof(t: &Result<Token, LexerError>) -> bool {
    matches!(t, Ok(Token::EOF))
}

#[test]
fn blank_input_is_end_of_input() {
    for text in ["", " ", "   \n\t  \r\n", "\u{00A0}\u{3000}"] {
        let mut lx = lexer(text);
        for _ in 0..3 {
            assert!(is_eof(&lx.get_token()), "input {:?}", text);
        }
    }
}

#[test]
fn fixed_text_round_trip() {
    let cases: Vec<(&str, Token)> = vec![
        ("+", Token::Plus),
        ("-", Token::Minus),
        ("*", Token::Multiply),
        ("/", Token::Divide),
        ("%", Token::Mod),
        ("&", Token::And),
        ("|", Token::Or),
        ("^", Token::Xor),
        ("<<", Token::ShiftLeft),
        (">>", Token::ShiftRight),
        ("=", Token::Equal),
        ("==", Token::EqualEqual),
        ("!=", Token::NotEqual),
        ("<", Token::Less),
        ("<=", Token::LessEqual),
        (">", Token::Greater),
        (">=", Token::GreaterEqual),
        ("&&", Token::AndAnd),
        ("||", Token::OrOr),
        ("++", Token::PlusPlus),
        ("--", Token::MinusMinus),
        ("+=", Token::PlusEqual),
        ("-=", Token::MinusEqual),
        ("*=", Token::MultiplyEqual),
        ("/=", Token::DivideEqual),
        ("%=", Token::ModEqual),
        ("|=", Token::OrEqual),
        ("^=", Token::XorEqual),
        ("<<=", Token::ShiftLeftEqual),
        (">>=", Token::ShiftRightEqual),
        ("->", Token::Arrow),
        ("(", Token::OParen),
        (")", Token::CParen),
        ("{", Token::OCurly),
        ("}", Token::CCurly),
        (",", Token::Comma),
        (";", Token::SemiColon),
    ];
    for (text, kind) in cases {
        let mut lx = lexer(text);
        let first = lx.get_token().unwrap();
        assert!(first == kind, "{:?} gave {:?}", text, first);
        assert!(is_eof(&lx.get_token()), "{:?} left input", text);
    }
}

#[test]
fn identifiers_take_the_longest_run() {
    let mut lx = lexer("foo123 bar");
    assert_eq!(ident(lx.get_token()), "foo123");
    assert_eq!(ident(lx.get_token()), "bar");
    assert!(is_eof(&lx.get_token()));
}

#[test]
fn identifiers_with_underscores_and_unicode() {
    let mut lx = lexer("_a_1 \u{00E9}t\u{00E9} x\u{0661}");
    assert_eq!(ident(lx.get_token()), "_a_1");
    assert_eq!(ident(lx.get_token()), "\u{00E9}t\u{00E9}");
    assert_eq!(ident(lx.get_token()), "x\u{0661}");
    assert!(is_eof(&lx.get_token()));
}

#[test]
fn integers_are_decimal() {
    let mut lx = lexer("42 007 0");
    assert!(matches!(lx.get_token(), Ok(Token::Int(42))));
    assert!(matches!(lx.get_token(), Ok(Token::Int(7))));
    assert!(matches!(lx.get_token(), Ok(Token::Int(0))));
    assert!(is_eof(&lx.get_token()));
}

#[test]
fn integer_limits() {
    let mut lx = lexer("2147483647 2147483648 99999999999999999999 1");
    assert!(matches!(lx.get_token(), Ok(Token::Int(2147483647))));
    assert!(matches!(lx.get_token(), Err(LexerError::NumericLiteralOverflow)));
    assert!(matches!(lx.get_token(), Err(LexerError::NumericLiteralOverflow)));
    assert!(matches!(lx.get_token(), Ok(Token::Int(1))));
}

#[test]
fn digits_then_letters_split() {
    let mut lx = lexer("12ab");
    assert!(matches!(lx.get_token(), Ok(Token::Int(12))));
    assert_eq!(ident(lx.get_token()), "ab");
}

#[test]
fn string_escape_decoding() {
    let mut lx = lexer("\"a\\tb\"");
    match lx.get_token() {
        Ok(Token::String(s)) => {
            assert_eq!(s, "a\tb");
            assert_eq!(s.chars().count(), 3);
        },
        other => panic!("got {:?}", other),
    }
    assert!(is_eof(&lx.get_token()));
}

#[test]
fn every_escape_decodes() {
    let mut lx = lexer("\"\\a\\b\\e\\f\\v\\?\\n\\r\\t\\'\\\"\\\\\"");
    match lx.get_token() {
        Ok(Token::String(s)) => {
            assert_eq!(s, "\u{07}\u{08}\u{1b}\u{0c}\u{0b}?\n\r\t'\"\\");
        },
        other => panic!("got {:?}", other),
    }
}

#[test]
fn empty_string_literal() {
    let mut lx = lexer("\"\" x");
    assert!(matches!(lx.get_token(), Ok(Token::String(s)) if s.is_empty()));
    assert_eq!(ident(lx.get_token()), "x");
}

#[test]
fn unterminated_string() {
    for text in ["\"abc", "\"", "\"abc\\"] {
        let mut lx = lexer(text);
        assert!(
            matches!(lx.get_token(), Err(LexerError::UnterminatedStringLiteral)),
            "input {:?}",
            text
        );
    }
}

#[test]
fn unknown_escape() {
    let mut lx = lexer("\"\\q\"");
    match lx.get_token() {
        Err(LexerError::UnknownEscapeSequence(s)) => assert_eq!(s, "\\q"),
        other => panic!("got {:?}", other),
    }
}

#[test]
fn character_literals() {
    let mut lx = lexer("'a' '\\n' '\\''");
    assert!(matches!(lx.get_token(), Ok(Token::Char('a'))));
    assert!(matches!(lx.get_token(), Ok(Token::Char('\n'))));
    assert!(matches!(lx.get_token(), Ok(Token::Char('\''))));
    assert!(is_eof(&lx.get_token()));
}

#[test]
fn malformed_character_literals() {
    for text in ["''", "'ab'", "'a", "'", "'\\"] {
        let mut lx = lexer(text);
        assert!(
            matches!(lx.get_token(), Err(LexerError::UnterminatedCharLiteral)),
            "input {:?}",
            text
        );
    }
    let mut lx = lexer("'\\z'");
    match lx.get_token() {
        Err(LexerError::UnknownEscapeSequence(s)) => assert_eq!(s, "\\z"),
        other => panic!("got {:?}", other),
    }
}

#[test]
fn operator_longest_match() {
    let mut lx = lexer("+=+");
    assert!(lx.get_token().unwrap() == Token::PlusEqual);
    assert!(lx.get_token().unwrap() == Token::Plus);
    assert!(is_eof(&lx.get_token()));

    let mut lx = lexer("++n");
    assert!(lx.get_token().unwrap() == Token::PlusPlus);
    assert_eq!(ident(lx.get_token()), "n");
    assert!(is_eof(&lx.get_token()));

    let mut lx = lexer("<<=<- >>>");
    assert!(lx.get_token().unwrap() == Token::ShiftLeftEqual);
    assert!(lx.get_token().unwrap() == Token::Less);
    assert!(lx.get_token().unwrap() == Token::Minus);
    assert!(lx.get_token().unwrap() == Token::ShiftRight);
    assert!(lx.get_token().unwrap() == Token::Greater);
}

#[test]
fn equal_sign_validation() {
    let mut lx = lexer("a = b ==c =1");
    assert_eq!(ident(lx.get_token()), "a");
    assert!(lx.get_token().unwrap() == Token::Equal);
    assert_eq!(ident(lx.get_token()), "b");
    assert!(lx.get_token().unwrap() == Token::EqualEqual);
    assert_eq!(ident(lx.get_token()), "c");
    assert!(lx.get_token().unwrap() == Token::Equal);
    assert!(matches!(lx.get_token(), Ok(Token::Int(1))));

    let mut lx = lexer("=(");
    assert!(matches!(lx.get_token(), Err(LexerError::UnknownToken('('))));
    assert!(lx.get_token().unwrap() == Token::OParen);
}

#[test]
fn unknown_characters() {
    let mut lx = lexer("@ ! #");
    assert!(matches!(lx.get_token(), Err(LexerError::UnknownToken('@'))));
    assert!(matches!(lx.get_token(), Err(LexerError::UnknownToken('!'))));
    assert!(matches!(lx.get_token(), Err(LexerError::UnknownToken('#'))));
    assert!(is_eof(&lx.get_token()));
}

#[test]
fn position_tracking() {
    let mut lx = lexer("a\nb");
    let start = lx.get_location();
    assert_eq!((start.row, start.col), (0, 0));
    assert_eq!(ident(lx.get_token()), "a");
    let loc = lx.get_location();
    assert_eq!((loc.row, loc.col), (0, 1));
    assert_eq!(ident(lx.get_token()), "b");
    let loc = lx.get_location();
    assert_eq!((loc.row, loc.col), (1, 1));

    let mut lx = lexer("a\n");
    assert_eq!(ident(lx.get_token()), "a");
    assert!(is_eof(&lx.get_token()));
    let loc = lx.get_location();
    assert_eq!((loc.row, loc.col), (1, 0));
    assert_eq!(loc.to_string(), "test.c:2:1");
    assert_eq!(loc.filepath, "test.c");
}

#[test]
fn columns_count_bytes() {
    let mut lx = lexer("\u{00E9}\u{00E9} x");
    assert_eq!(ident(lx.get_token()), "\u{00E9}\u{00E9}");
    let loc = lx.get_location();
    assert_eq!((loc.row, loc.col), (0, 4));
    assert_eq!(ident(lx.get_token()), "x");
    assert_eq!(lx.get_location().col, 6);
    assert_eq!(lx.get_location().to_string(), "test.c:1:7");
}

#[test]
fn location_text() {
    let loc = clex::Location { filepath: "hw.c".to_string(), row: 9, col: 119 };
    assert_eq!(loc.to_string(), "hw.c:10:120");
}

#[test]
fn expect_token_matches_kind_only() {
    let mut lx = lexer("(");
    let got = lx.expect_token(Token::OParen).unwrap();
    assert!(matches!(got, Some(Token::OParen)));
    assert!(is_eof(&lx.get_token()));

    let mut lx = lexer("(");
    let got = lx.expect_token(Token::CParen).unwrap();
    assert!(got.is_none());
    assert!(is_eof(&lx.get_token()));

    let mut lx = lexer("foo");
    let got = lx.expect_token(Token::ID("bar".to_string())).unwrap();
    assert!(matches!(got, Some(Token::ID(s)) if s == "foo"));

    let mut lx = lexer("\"x");
    assert!(matches!(
        lx.expect_token(Token::OParen),
        Err(LexerError::UnterminatedStringLiteral)
    ));
}

#[test]
fn token_equality_ignores_payload() {
    assert!(Token::ID("a".to_string()) == Token::ID("b".to_string()));
    assert!(Token::Int(1) == Token::Int(2));
    assert!(Token::Int(1) != Token::Plus);
    assert!(Token::String("a".to_string()) != Token::ID("a".to_string()));
    assert_eq!(Token::Plus.kind(), Token::Plus.kind());
    assert_ne!(Token::Plus.kind(), Token::PlusPlus.kind());
}

#[test]
fn statement_stream() {
    let mut lx = lexer("int x = 3;\nx += y->z;");
    let mut kinds = Vec::new();
    loop {
        let t = lx.get_token().unwrap();
        if t == Token::EOF {
            break;
        }
        kinds.push(t.kind());
    }
    let expected = vec![
        Token::ID(String::new()),
        Token::ID(String::new()),
        Token::Equal,
        Token::Int(0),
        Token::SemiColon,
        Token::ID(String::new()),
        Token::PlusEqual,
        Token::ID(String::new()),
        Token::Arrow,
        Token::ID(String::new()),
        Token::SemiColon,
    ];
    let expected: Vec<u8> = expected.iter().map(|t| t.kind()).collect();
    assert_eq!(kinds, expected);
    let loc = lx.get_location();
    assert_eq!((loc.row, loc.col), (1, 10));
}
