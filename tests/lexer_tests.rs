use rue::{Lexer, Span, TokenKind};

#[test]
fn test_simple_tokens() {
    let mut lexer = Lexer::new("+ - * / %");
    let tokens = lexer.tokenize();

    assert_eq!(tokens[0].kind, TokenKind::Plus);
    assert_eq!(tokens[1].kind, TokenKind::Minus);
    assert_eq!(tokens[2].kind, TokenKind::Star);
    assert_eq!(tokens[3].kind, TokenKind::Slash);
    assert_eq!(tokens[4].kind, TokenKind::Percent);
    assert_eq!(tokens[5].kind, TokenKind::Eof);
}

#[test]
fn test_factorial() {
    let input = r#"
fn factorial(n) {
    if n <= 1 {
        1
    } else {
        n * factorial(n - 1)
    }
}
        "#;

    let mut lexer = Lexer::new(input);
    let tokens = lexer.tokenize();

    assert_eq!(tokens[0].kind, TokenKind::Fn);
    assert_eq!(tokens[1].kind, TokenKind::Ident("factorial".to_string()));
    assert_eq!(tokens[2].kind, TokenKind::LeftParen);
}

#[test]
fn lexer_spans_and_two_char_operators() {
    let mut lexer = Lexer::new("a<=b >= c == d != e < f > g = 12");
    let tokens = lexer.tokenize();
    let kinds: Vec<TokenKind> = tokens.iter().map(|t| t.kind.clone()).collect();
    assert_eq!(
        kinds,
        vec![
            TokenKind::Ident("a".to_string()),
            TokenKind::LessEqual,
            TokenKind::Ident("b".to_string()),
            TokenKind::GreaterEqual,
            TokenKind::Ident("c".to_string()),
            TokenKind::Equal,
            TokenKind::Ident("d".to_string()),
            TokenKind::NotEqual,
            TokenKind::Ident("e".to_string()),
            TokenKind::Less,
            TokenKind::Ident("f".to_string()),
            TokenKind::Greater,
            TokenKind::Ident("g".to_string()),
            TokenKind::Assign,
            TokenKind::Integer(12),
            TokenKind::Eof,
        ]
    );
    assert_eq!(tokens[1].span, Span { start: 1, end: 3 });
    assert_eq!(tokens[15].span, Span { start: 32, end: 32 });
}

#[test]
fn lexer_keywords_and_identifiers() {
    let mut lexer = Lexer::new("fn let if else while whiled _x9");
    let tokens = lexer.tokenize();
    assert_eq!(tokens[0].kind, TokenKind::Fn);
    assert_eq!(tokens[1].kind, TokenKind::Let);
    assert_eq!(tokens[2].kind, TokenKind::If);
    assert_eq!(tokens[3].kind, TokenKind::Else);
    assert_eq!(tokens[4].kind, TokenKind::While);
    assert_eq!(tokens[5].kind, TokenKind::Ident("whiled".to_string()));
    assert_eq!(tokens[6].kind, TokenKind::Ident("_x9".to_string()));
}

#[test]
fn lexer_empty_input_is_just_eof() {
    let mut lexer = Lexer::new("   \n\t ");
    let tokens = lexer.tokenize();
    assert_eq!(tokens.len(), 1);
    assert_eq!(tokens[0].kind, TokenKind::Eof);
    assert_eq!(tokens[0].span, Span { start: 6, end: 6 });
}

#[test]
fn lexer_largest_integer() {
    let mut lexer = Lexer::new("9223372036854775807");
    let tokens = lexer.try_tokenize().unwrap();
    assert_eq!(tokens[0].kind, TokenKind::Integer(i64::MAX));
}

#[test]
fn lexer_rejects_overflowing_integer() {
    let mut lexer = Lexer::new("x 9223372036854775808");
    assert_eq!(lexer.try_tokenize(), Err(2));
}

#[test]
fn lexer_rejects_unknown_character() {
    let mut lexer = Lexer::new("1 + $");
    assert_eq!(lexer.try_tokenize(), Err(4));
    let mut bang = Lexer::new("!x");
    assert_eq!(bang.try_tokenize(), Err(0));
}
