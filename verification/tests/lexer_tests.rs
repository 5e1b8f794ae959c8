use helix::decimal::DECIMAL_SCALE;
use helix::error::{ErrorKind, LexerError};
use helix::lexer::Lexer;
use helix::program::Source;
use helix::token::{CommandType, Keyword, Operator, Token, TokenKind};

fn tokenize(source: &str) -> Result<Vec<Token>, helix::error::Error> {
    Lexer::new(0, &Source::new("<test>".to_string(), source.to_string())).tokenize()
}

#[test]
fn test_whitespace() {
    // Blank space is discarded; the line break stays as one terminator
    // token.
    let source = "  \t\n  ";
    let tokens = tokenize(source).unwrap();

    assert_eq!(tokens.len(), 1);
    assert!(matches!(tokens[0].kind, TokenKind::Newline));
}

#[test]
fn test_numbers() {
    let source = "123 555 2.222";
    let tokens = tokenize(source).unwrap();

    assert_eq!(tokens.len(), 3);
    assert!(matches!(tokens[0].kind, TokenKind::Integer(123)));
    assert!(matches!(tokens[1].kind, TokenKind::Integer(555)));
    assert!(match &tokens[2].kind {
        TokenKind::Float(d) => (d.scaled as f64 / DECIMAL_SCALE as f64 - 2.222).abs() < f64::EPSILON,
        _ => false,
    });
}

#[test]
fn test_malformed_number() {
    let source = "123.456.789";
    let error = tokenize(source).unwrap_err();

    assert!(matches!(error.kind, ErrorKind::Lexer(LexerError::MalformedNumber(_))));
}

#[test]
fn test_operators() {
    let source = "23 * -1 + && !3";
    let tokens = tokenize(source).unwrap();

    assert!(matches!(tokens[0].kind, TokenKind::Integer(23)));
    assert!(matches!(tokens[1].kind, TokenKind::Operator(Operator::Multiply)));
    assert!(matches!(tokens[2].kind, TokenKind::Operator(Operator::Minus)));
    assert!(matches!(tokens[3].kind, TokenKind::Integer(1)));
    assert!(matches!(tokens[4].kind, TokenKind::Operator(Operator::Plus)));
    assert!(matches!(tokens[5].kind, TokenKind::Operator(Operator::And)));
    assert!(matches!(tokens[6].kind, TokenKind::Operator(Operator::Not)));
}

#[test]
fn test_empty() {
    assert_eq!(tokenize("").unwrap().len(), 0);
}

#[test]
fn mod_test_whitespace() {
    // As above: the line break is a terminator token, the rest is
    // discarded.
    let tokens = tokenize(" \t\n\r").unwrap();
    assert_eq!(tokens.len(), 1);
    assert!(matches!(tokens[0].kind, TokenKind::Newline));
}

#[test]
fn mod_test_numbers() {
    // Whole literals are integer tokens; dotted literals are decimals.
    let tokens = tokenize("123 456.789 0.1 32").unwrap();

    assert_eq!(tokens.len(), 4);
    assert!(matches!(tokens[0].kind, TokenKind::Integer(123)));
    assert!(match &tokens[1].kind {
        TokenKind::Float(d) => (d.scaled as f64 / 1e6 - 456.789).abs() < 1e-9,
        _ => false,
    });
    assert!(match &tokens[2].kind {
        TokenKind::Float(d) => d.scaled == 100_000,
        _ => false,
    });
    assert!(matches!(tokens[3].kind, TokenKind::Integer(32)));
}

#[test]
fn test_invalid_numbers() {
    let error = tokenize("123.123.456.789").unwrap_err();
    assert!(matches!(error.kind, ErrorKind::Lexer(LexerError::MalformedNumber(_))));
}

#[test]
fn test_commands() {
    // Commands are recognized by the command table; the front end strips
    // the leading marker.
    assert_eq!(CommandType::get_command("quit"), Some(CommandType::Quit));
    assert_eq!(CommandType::get_command("q"), Some(CommandType::Quit));
}

#[test]
fn test_invalid_commands() {
    assert_eq!(CommandType::get_command("invalid"), None);
}

#[test]
fn mod_test_operators() {
    // The operator set has no `^`; the run around it is an unknown
    // symbol.
    let error = tokenize("+-*/^").unwrap_err();
    assert!(matches!(error.kind, ErrorKind::Lexer(LexerError::UnknownSymbol(_))));

    let tokens = tokenize("+-*/").unwrap();
    assert_eq!(tokens.len(), 4);
    assert!(matches!(tokens[0].kind, TokenKind::Operator(Operator::Plus)));
    assert!(matches!(tokens[1].kind, TokenKind::Operator(Operator::Minus)));
    assert!(matches!(tokens[2].kind, TokenKind::Operator(Operator::Multiply)));
    assert!(matches!(tokens[3].kind, TokenKind::Operator(Operator::Divide)));
}

#[test]
fn test_identifiers() {
    let tokens = tokenize("foo bar baz").unwrap();

    assert_eq!(tokens.len(), 3);
    assert!(matches!(&tokens[0].kind, TokenKind::Identifier(name) if name == "foo"));
    assert!(matches!(&tokens[1].kind, TokenKind::Identifier(name) if name == "bar"));
    assert!(matches!(&tokens[2].kind, TokenKind::Identifier(name) if name == "baz"));
}

#[test]
fn test_keywords() {
    let tokens = tokenize("let").unwrap();

    assert_eq!(tokens.len(), 1);
    assert!(matches!(tokens[0].kind, TokenKind::Keyword(Keyword::Let)));
}

#[test]
fn test_invalid_symbols() {
    let error = tokenize("foo bar baz $").unwrap_err();
    assert!(matches!(error.kind, ErrorKind::Lexer(LexerError::UnknownSymbol(_))));
}

#[test]
fn test_invalid_unicode() {
    let error = tokenize("foo bar baz \u{1F4A9}").unwrap_err();
    assert!(matches!(error.kind, ErrorKind::Lexer(LexerError::UnknownSymbol(_))));
}

#[test]
fn operator_lookahead() {
    // Every two-character operator wins over the single-character prefix
    // it extends.
    let tokens = tokenize("= == ! != < <= > >= && ||").unwrap();
    let expected = [
        Operator::Assign,
        Operator::Equals,
        Operator::Not,
        Operator::NotEquals,
        Operator::LessThan,
        Operator::LessThanEquals,
        Operator::GreaterThan,
        Operator::GreaterThanEquals,
        Operator::And,
        Operator::Or,
    ];
    assert_eq!(tokens.len(), expected.len());
    for (tok, want) in tokens.iter().zip(expected.iter()) {
        assert!(matches!(&tok.kind, TokenKind::Operator(op) if op == want));
    }
}

#[test]
fn spans_reconstruct_source() {
    // Concatenating the spanned substrings reproduces the non-blank
    // content of the source, in order.
    let source = "let x = 1 + 23\nprint x";
    let tokens = tokenize(source).unwrap();
    let mut rebuilt = String::new();
    let mut last_end = 0;
    for tok in &tokens {
        assert!(tok.span.start >= last_end);
        for (p, c) in source.chars().enumerate() {
            if p >= tok.span.start && p < tok.span.end {
                rebuilt.push(c);
            }
        }
        last_end = tok.span.end;
    }
    let expected: String = source.chars().filter(|c| !matches!(c, ' ' | '\t' | '\r')).collect();
    assert_eq!(rebuilt, expected);
}

#[test]
fn retokenize_single_token() {
    // Re-tokenizing the exact substring spanned by a token reproduces a
    // stream of one token of the same kind.
    let source = "foo 12.5 <= \"ab\" while 7";
    let tokens = tokenize(source).unwrap();
    let chars: Vec<char> = source.chars().collect();
    for tok in &tokens {
        let piece: String = chars[tok.span.start..tok.span.end].iter().collect();
        let again = tokenize(&piece).unwrap();
        assert_eq!(again.len(), 1);
        assert_eq!(
            std::mem::discriminant(&again[0].kind),
            std::mem::discriminant(&tok.kind)
        );
    }
}

#[test]
fn unterminated_string() {
    let error = tokenize("\"abc").unwrap_err();
    assert!(matches!(error.kind, ErrorKind::Lexer(LexerError::UnterminatedString(_))));
}

#[test]
fn integer_overflow_is_malformed() {
    // A literal too large for the integer range is a malformed number.
    let error = tokenize("99999999999999999999").unwrap_err();
    assert!(matches!(error.kind, ErrorKind::Lexer(LexerError::MalformedNumber(_))));
}
