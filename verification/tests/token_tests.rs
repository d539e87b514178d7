use monkey::errors::{ParseError, ParseErrorKind};
use monkey::token::{keywords, lookup_ident, Token, TokenType};

#[test]
fn test_keywords_table() {
    let kw = keywords();
    let expected = vec![
        ("fn", TokenType::Function),
        ("let", TokenType::Let),
        ("true", TokenType::True),
        ("false", TokenType::False),
        ("if", TokenType::If),
        ("else", TokenType::Else),
        ("return", TokenType::Return),
    ];
    assert_eq!(kw.len(), expected.len());
    for (i, (lit, ty)) in expected.iter().enumerate() {
        assert_eq!(&kw[i].0, lit);
        assert_eq!(kw[i].1, *ty);
    }
}

#[test]
fn test_lookup_ident() {
    assert_eq!(lookup_ident("fn"), TokenType::Function);
    assert_eq!(lookup_ident("let"), TokenType::Let);
    assert_eq!(lookup_ident("true"), TokenType::True);
    assert_eq!(lookup_ident("false"), TokenType::False);
    assert_eq!(lookup_ident("if"), TokenType::If);
    assert_eq!(lookup_ident("else"), TokenType::Else);
    assert_eq!(lookup_ident("return"), TokenType::Return);
    assert_eq!(lookup_ident("foobar"), TokenType::Identifier);
    assert_eq!(lookup_ident("lets"), TokenType::Identifier);
    assert_eq!(lookup_ident(""), TokenType::Identifier);
}

#[test]
fn test_token_new() {
    let t = Token::new(TokenType::Assign, "=");
    assert_eq!(t.type_, TokenType::Assign);
    assert_eq!(t.literal, "=");
    let c = t.clone();
    assert_eq!(c.type_, t.type_);
    assert_eq!(c.literal, t.literal);
}

#[test]
fn test_token_type_symbols() {
    assert_eq!(TokenType::Illegal.symbol(), "ILLEGAL");
    assert_eq!(TokenType::EndOfInput.symbol(), "EOF");
    assert_eq!(TokenType::Identifier.symbol(), "Ident");
    assert_eq!(TokenType::Integer.symbol(), "int");
    assert_eq!(TokenType::Assign.symbol(), "=");
    assert_eq!(TokenType::Equal.symbol(), "==");
    assert_eq!(TokenType::NotEqual.symbol(), "!=");
    assert_eq!(TokenType::Function.symbol(), "FUNCTION");
    assert_eq!(TokenType::Let.symbol(), "LET");
    assert_eq!(TokenType::LBrace.symbol(), "{");
    assert_eq!(TokenType::RBrace.symbol(), "}");
}

#[test]
fn test_parse_error_new() {
    let e = ParseError::new(ParseErrorKind::UnexpectedToken, "boom".to_string());
    assert_eq!(e.kind, ParseErrorKind::UnexpectedToken);
    assert_eq!(e.msg, "boom");
    let c = e.clone();
    assert_eq!(c.kind, e.kind);
    assert_eq!(c.msg, e.msg);
}

#[test]
fn test_parse_error_rendering() {
    let e = ParseError::new(ParseErrorKind::UnexpectedToken, "boom".to_string());
    assert_eq!(e.to_string(), "Unexpected Token: boom");
    assert_eq!(ParseErrorKind::IllegalCharacter.describe(), "Illegal Character");
    assert_eq!(
        ParseErrorKind::IntegerLiteralOverflow.describe(),
        "Integer Literal Overflow"
    );
    assert_eq!(ParseErrorKind::NoPrefixParseRule.describe(), "No Prefix Parse Rule");
}
