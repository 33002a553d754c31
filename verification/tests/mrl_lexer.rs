use monowiki::mrl::error::{MrlError, Span};
use monowiki::mrl::lexer::{tokenize, Lexer, SpannedToken, Token};

#[test]
fn test_keywords() {
    let source = "def staged show set live";
    let tokens = tokenize(source).unwrap();
    assert_eq!(tokens[0].token, Token::Def);
    assert_eq!(tokens[1].token, Token::Staged);
    assert_eq!(tokens[2].token, Token::Show);
    assert_eq!(tokens[3].token, Token::SetKw);
    assert_eq!(tokens[4].token, Token::Live);
}

#[test]
fn test_identifiers() {
    let source = "foo bar_baz test-name";
    let tokens = tokenize(source).unwrap();
    assert!(matches!(&tokens[0].token, Token::Identifier(s) if s == "foo"));
    assert!(matches!(&tokens[1].token, Token::Identifier(s) if s == "bar_baz"));
    assert!(matches!(&tokens[2].token, Token::Identifier(s) if s == "test-name"));
}

#[test]
fn test_literals() {
    let source = r#"42 3.14 "hello" 'symbol true false none"#;
    let tokens = tokenize(source).unwrap();
    assert!(matches!(&tokens[0].token, Token::IntLiteral(Some(42))));
    assert!(matches!(&tokens[1].token, Token::FloatLiteral(t) if t == "3.14"));
    assert!(matches!(&tokens[2].token, Token::StringLiteral(s) if s == "hello"));
    assert!(matches!(&tokens[3].token, Token::SymbolLiteral(s) if s == "symbol"));
    assert_eq!(tokens[4].token, Token::True);
    assert_eq!(tokens[5].token, Token::False);
    assert_eq!(tokens[6].token, Token::NoneLit);
}

#[test]
fn test_operators() {
    let source = "+ - * / % == != < <= > >= && || ! ++";
    let tokens = tokenize(source).unwrap();
    assert_eq!(tokens[0].token, Token::Plus);
    assert_eq!(tokens[1].token, Token::Minus);
    assert_eq!(tokens[2].token, Token::Star);
    assert_eq!(tokens[3].token, Token::Slash);
    assert_eq!(tokens[4].token, Token::Percent);
    assert_eq!(tokens[5].token, Token::EqEq);
    assert_eq!(tokens[6].token, Token::NotEq);
    assert_eq!(tokens[7].token, Token::Lt);
    assert_eq!(tokens[8].token, Token::Le);
    assert_eq!(tokens[9].token, Token::Gt);
    assert_eq!(tokens[10].token, Token::Ge);
    assert_eq!(tokens[11].token, Token::AndAnd);
    assert_eq!(tokens[12].token, Token::OrOr);
    assert_eq!(tokens[13].token, Token::Bang);
    assert_eq!(tokens[14].token, Token::PlusPlus);
}

#[test]
fn test_delimiters() {
    let source = "( ) [ ] { }";
    let tokens = tokenize(source).unwrap();
    assert_eq!(tokens[0].token, Token::LParen);
    assert_eq!(tokens[1].token, Token::RParen);
    assert_eq!(tokens[2].token, Token::LBracket);
    assert_eq!(tokens[3].token, Token::RBracket);
    assert_eq!(tokens[4].token, Token::LBrace);
    assert_eq!(tokens[5].token, Token::RBrace);
}

#[test]
fn test_punctuation() {
    let source = ", : = . $";
    let tokens = tokenize(source).unwrap();
    assert_eq!(tokens[0].token, Token::Comma);
    assert_eq!(tokens[1].token, Token::Colon);
    assert_eq!(tokens[2].token, Token::Eq);
    assert_eq!(tokens[3].token, Token::Dot);
    assert_eq!(tokens[4].token, Token::Dollar);
}

#[test]
fn test_tokenize_keywords() {
    let tokens = tokenize("def staged show set live quote").unwrap();
    assert!(matches!(tokens[0].token, Token::Def));
    assert!(matches!(tokens[1].token, Token::Staged));
    assert!(matches!(tokens[2].token, Token::Show));
    assert!(matches!(tokens[3].token, Token::SetKw));
    assert!(matches!(tokens[4].token, Token::Live));
    assert!(matches!(tokens[5].token, Token::Quote));
}

#[test]
fn test_tokenize_identifiers() {
    let tokens = tokenize("foo bar_baz test-123").unwrap();
    assert!(matches!(&tokens[0].token, Token::Identifier(s) if s == "foo"));
    assert!(matches!(&tokens[1].token, Token::Identifier(s) if s == "bar_baz"));
    assert!(matches!(&tokens[2].token, Token::Identifier(s) if s == "test-123"));
}

#[test]
fn test_tokenize_integers() {
    let tokens = tokenize("0 42 -100").unwrap();
    assert!(matches!(tokens[0].token, Token::IntLiteral(Some(0))));
    assert!(matches!(tokens[1].token, Token::IntLiteral(Some(42))));
    assert!(matches!(tokens[2].token, Token::IntLiteral(Some(-100))));
}

#[test]
fn test_tokenize_floats() {
    let tokens = tokenize("3.14 -2.5 0.0").unwrap();
    assert!(matches!(&tokens[0].token, Token::FloatLiteral(t) if t.parse::<f64>().is_ok()));
    assert!(matches!(&tokens[1].token, Token::FloatLiteral(t) if t.parse::<f64>().is_ok()));
    assert!(matches!(&tokens[2].token, Token::FloatLiteral(t) if t.parse::<f64>().is_ok()));
}

#[test]
fn test_tokenize_strings() {
    let tokens = tokenize(r#""hello" "world with spaces""#).unwrap();
    assert!(matches!(&tokens[0].token, Token::StringLiteral(s) if s == "hello"));
    assert!(matches!(&tokens[1].token, Token::StringLiteral(s) if s == "world with spaces"));
}

#[test]
fn test_tokenize_symbols() {
    let tokens = tokenize("'foo 'bar-baz").unwrap();
    assert!(matches!(&tokens[0].token, Token::SymbolLiteral(s) if s == "foo"));
    assert!(matches!(&tokens[1].token, Token::SymbolLiteral(s) if s == "bar-baz"));
}

#[test]
fn test_tokenize_operators() {
    let tokens = tokenize("+ - * / == != < <= > >=").unwrap();
    assert!(matches!(tokens[0].token, Token::Plus));
    assert!(matches!(tokens[1].token, Token::Minus));
    assert!(matches!(tokens[2].token, Token::Star));
    assert!(matches!(tokens[3].token, Token::Slash));
    assert!(matches!(tokens[4].token, Token::EqEq));
    assert!(matches!(tokens[5].token, Token::NotEq));
    assert!(matches!(tokens[6].token, Token::Lt));
    assert!(matches!(tokens[7].token, Token::Le));
    assert!(matches!(tokens[8].token, Token::Gt));
    assert!(matches!(tokens[9].token, Token::Ge));
}

#[test]
fn test_tokenize_delimiters() {
    let tokens = tokenize("( ) [ ] { }").unwrap();
    assert!(matches!(tokens[0].token, Token::LParen));
    assert!(matches!(tokens[1].token, Token::RParen));
    assert!(matches!(tokens[2].token, Token::LBracket));
    assert!(matches!(tokens[3].token, Token::RBracket));
    assert!(matches!(tokens[4].token, Token::LBrace));
    assert!(matches!(tokens[5].token, Token::RBrace));
}

#[test]
fn test_tokenize_complex_expression() {
    let tokens = tokenize(r#"foo(bar, "test", 42)"#).unwrap();
    assert!(matches!(&tokens[0].token, Token::Identifier(_)));
    assert!(matches!(tokens[1].token, Token::LParen));
    assert!(matches!(&tokens[2].token, Token::Identifier(_)));
    assert!(matches!(tokens[3].token, Token::Comma));
    assert!(matches!(&tokens[4].token, Token::StringLiteral(_)));
    assert!(matches!(tokens[5].token, Token::Comma));
    assert!(matches!(tokens[6].token, Token::IntLiteral(_)));
    assert!(matches!(tokens[7].token, Token::RParen));
}

#[test]
fn test_token_spans() {
    let source = "foo bar";
    let tokens = tokenize(source).unwrap();

    assert_eq!(tokens[0].span.start, 0);
    assert_eq!(tokens[0].span.end, 3);
    assert_eq!(&source[tokens[0].span.start..tokens[0].span.end], "foo");

    assert_eq!(tokens[1].span.start, 4);
    assert_eq!(tokens[1].span.end, 7);
    assert_eq!(&source[tokens[1].span.start..tokens[1].span.end], "bar");
}

#[test]
fn test_boolean_literals() {
    let tokens = tokenize("true false").unwrap();
    assert!(matches!(tokens[0].token, Token::True));
    assert!(matches!(tokens[1].token, Token::False));
}

#[test]
fn test_none_literal() {
    let tokens = tokenize("none").unwrap();
    assert!(matches!(tokens[0].token, Token::NoneLit));
}

#[test]
fn longest_match_and_keyword_priority() {
    let tokens = tokenize("define if-then x-1 a==b -5.25 --3 3. 'q").unwrap();
    assert!(matches!(&tokens[0].token, Token::Identifier(s) if s == "define"));
    assert!(matches!(&tokens[1].token, Token::Identifier(s) if s == "if-then"));
    assert!(matches!(&tokens[2].token, Token::Identifier(s) if s == "x-1"));
    assert!(matches!(&tokens[3].token, Token::Identifier(s) if s == "a"));
    assert_eq!(tokens[4].token, Token::EqEq);
    assert!(matches!(&tokens[5].token, Token::Identifier(s) if s == "b"));
    assert!(matches!(&tokens[6].token, Token::FloatLiteral(t) if t == "-5.25"));
    assert_eq!(tokens[7].token, Token::Minus);
    assert!(matches!(tokens[8].token, Token::IntLiteral(Some(-3))));
    assert!(matches!(tokens[9].token, Token::IntLiteral(Some(3))));
    assert_eq!(tokens[10].token, Token::Dot);
    assert!(matches!(&tokens[11].token, Token::SymbolLiteral(s) if s == "q"));
    assert_eq!(tokens[12].token, Token::Eof);
    assert_eq!(tokens.len(), 13);
}

#[test]
fn newlines_strings_and_eof() {
    let source = "x\n\t\"a \\\"b\\\" é\"";
    let tokens = tokenize(source).unwrap();
    assert!(matches!(&tokens[0].token, Token::Identifier(s) if s == "x"));
    assert_eq!(tokens[1].token, Token::Newline);
    assert_eq!(tokens[1].span, Span::new(1, 2));
    assert!(matches!(&tokens[2].token, Token::StringLiteral(s) if s == "a \\\"b\\\" é"));
    assert_eq!(tokens[3], SpannedToken::new(Token::Eof, Span::new(source.len(), source.len())));
    let empty = tokenize("").unwrap();
    assert_eq!(empty, vec![SpannedToken::new(Token::Eof, Span::new(0, 0))]);
}

#[test]
fn integer_overflow_gives_none() {
    let tokens = tokenize("9223372036854775807 9223372036854775808 -9223372036854775808 -9223372036854775809").unwrap();
    assert!(matches!(tokens[0].token, Token::IntLiteral(Some(i64::MAX))));
    assert!(matches!(tokens[1].token, Token::IntLiteral(None)));
    assert!(matches!(tokens[2].token, Token::IntLiteral(Some(i64::MIN))));
    assert!(matches!(tokens[3].token, Token::IntLiteral(None)));
}

#[test]
fn invalid_characters_are_lexer_errors() {
    match tokenize("a @ b") {
        Err(MrlError::LexerError { span, message }) => {
            assert_eq!(span, Span::new(2, 3));
            assert_eq!(message, "Invalid token: @");
        }
        other => panic!("expected a lexer error, got {:?}", other),
    }
    match tokenize("x é") {
        Err(MrlError::LexerError { span, message }) => {
            assert_eq!(span, Span::new(2, 4));
            assert_eq!(message, "Invalid token: é");
        }
        other => panic!("expected a lexer error, got {:?}", other),
    }
    assert!(tokenize("\"open").is_err());
    assert!(tokenize("a & b").is_err());
    assert!(tokenize("a\r\n").is_err());
}

#[test]
fn lexer_cursor() {
    let mut lexer = Lexer::new("a b");
    assert!(lexer.is_eof());
    let tokens = lexer.tokenize().unwrap();
    assert_eq!(tokens.len(), 3);
    assert!(!lexer.is_eof());
    assert!(matches!(&lexer.peek().unwrap().token, Token::Identifier(s) if s == "a"));
    assert!(matches!(&lexer.next().unwrap().token, Token::Identifier(s) if s == "a"));
    assert!(matches!(&lexer.next().unwrap().token, Token::Identifier(s) if s == "b"));
    assert!(lexer.is_eof());
    assert_eq!(lexer.next().unwrap().token, Token::Eof);
    assert!(lexer.next().is_none());
    assert!(Token::Where.is_keyword());
    assert!(!Token::Identifier("x".to_string()).is_keyword());
}
