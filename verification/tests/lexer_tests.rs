use monkey::lexer::Lexer;
use monkey::token::TokenType;

#[test]
fn test_next_token() {
    let input = "let five=5 ;
let ten = 10 ;
let add = fn ( x , y ) {
x + y ;
};
!-/*5 ;
5 < 10 >5 ;

if (5 < 10 ) {
return true;
} else {
return false;
}

10 == 10 ;
10 != 9 ;";

    let tests = vec![
        (TokenType::Let, "let"),
        (TokenType::Identifier, "five"),
        (TokenType::Assign, "="),
        (TokenType::Integer, "5"),
        (TokenType::Semicolon, ";"),
        (TokenType::Let, "let"),
        (TokenType::Identifier, "ten"),
        (TokenType::Assign, "="),
        (TokenType::Integer, "10"),
        (TokenType::Semicolon, ";"),
        (TokenType::Let, "let"),
        (TokenType::Identifier, "add"),
        (TokenType::Assign, "="),
        (TokenType::Function, "fn"),
        (TokenType::LParen, "("),
        (TokenType::Identifier, "x"),
        (TokenType::Comma, ","),
        (TokenType::Identifier, "y"),
        (TokenType::RParen, ")"),
        (TokenType::LBrace, "{"),
        (TokenType::Identifier, "x"),
        (TokenType::Plus, "+"),
        (TokenType::Identifier, "y"),
        (TokenType::Semicolon, ";"),
        (TokenType::RBrace, "}"),
        (TokenType::Semicolon, ";"),
        (TokenType::Bang, "!"),
        (TokenType::Minus, "-"),
        (TokenType::Slash, "/"),
        (TokenType::Asterisk, "*"),
        (TokenType::Integer, "5"),
        (TokenType::Semicolon, ";"),
        (TokenType::Integer, "5"),
        (TokenType::LessThan, "<"),
        (TokenType::Integer, "10"),
        (TokenType::GreaterThan, ">"),
        (TokenType::Integer, "5"),
        (TokenType::Semicolon, ";"),
        (TokenType::If, "if"),
        (TokenType::LParen, "("),
        (TokenType::Integer, "5"),
        (TokenType::LessThan, "<"),
        (TokenType::Integer, "10"),
        (TokenType::RParen, ")"),
        (TokenType::LBrace, "{"),
        (TokenType::Return, "return"),
        (TokenType::True, "true"),
        (TokenType::Semicolon, ";"),
        (TokenType::RBrace, "}"),
        (TokenType::Else, "else"),
        (TokenType::LBrace, "{"),
        (TokenType::Return, "return"),
        (TokenType::False, "false"),
        (TokenType::Semicolon, ";"),
        (TokenType::RBrace, "}"),
        (TokenType::Integer, "10"),
        (TokenType::Equal, "=="),
        (TokenType::Integer, "10"),
        (TokenType::Semicolon, ";"),
        (TokenType::Integer, "10"),
        (TokenType::NotEqual, "!="),
        (TokenType::Integer, "9"),
        (TokenType::Semicolon, ";"),
        (TokenType::EndOfInput, ""),
    ];

    let mut lexer = Lexer::new(input);

    for (i, (expected_token, expected_literal)) in tests.iter().enumerate() {
        let token = lexer.next_token();
        assert_eq!(
            token.type_, *expected_token,
            "tests[{}] - tokentype wrong. expected={:?} , got ={:?}",
            i, expected_token, token.type_
        );

        assert_eq!(
            &token.literal, *expected_literal,
            "tests[{}] - tokentype wrong. expected={:?} , got ={:?}",
            i, expected_literal, token.literal
        );
    }
}

#[test]
fn test_end_of_input_is_stable() {
    let mut lexer = Lexer::new("ab + cd");
    let mut guard = 0;
    loop {
        let token = lexer.next_token();
        if token.type_ == TokenType::EndOfInput {
            assert_eq!(token.literal, "");
            break;
        }
        guard += 1;
        assert!(guard < 100, "lexer did not reach EndOfInput");
    }
    for _ in 0..5 {
        let token = lexer.next_token();
        assert_eq!(token.type_, TokenType::EndOfInput);
        assert_eq!(token.literal, "");
    }
}

#[test]
fn test_empty_input_yields_end_of_input() {
    let mut lexer = Lexer::new("");
    let token = lexer.next_token();
    assert_eq!(token.type_, TokenType::EndOfInput);
    assert_eq!(token.literal, "");
}

#[test]
fn test_illegal_character_token() {
    let mut lexer = Lexer::new("@");
    let token = lexer.next_token();
    assert_eq!(token.type_, TokenType::Illegal);
    assert_eq!(token.literal, "@");
    let token = lexer.next_token();
    assert_eq!(token.type_, TokenType::EndOfInput);
}

#[test]
fn test_two_character_operators() {
    let mut lexer = Lexer::new("== != = !");
    let expected = vec![
        (TokenType::Equal, "=="),
        (TokenType::NotEqual, "!="),
        (TokenType::Assign, "="),
        (TokenType::Bang, "!"),
        (TokenType::EndOfInput, ""),
    ];
    for (ty, lit) in expected {
        let token = lexer.next_token();
        assert_eq!(token.type_, ty);
        assert_eq!(token.literal, lit);
    }
}

#[test]
fn test_underscore_and_digit_boundaries() {
    let mut lexer = Lexer::new("_foo1 9abc");
    let token = lexer.next_token();
    assert_eq!(token.type_, TokenType::Identifier);
    assert_eq!(token.literal, "_foo1");
    let token = lexer.next_token();
    assert_eq!(token.type_, TokenType::Integer);
    assert_eq!(token.literal, "9");
    let token = lexer.next_token();
    assert_eq!(token.type_, TokenType::Identifier);
    assert_eq!(token.literal, "abc");
    let token = lexer.next_token();
    assert_eq!(token.type_, TokenType::EndOfInput);
}

#[test]
fn test_is_letter() {
    assert!(monkey::lexer::is_letter('a'));
    assert!(monkey::lexer::is_letter('Z'));
    assert!(monkey::lexer::is_letter('_'));
    assert!(monkey::lexer::is_letter('0'));
    assert!(!monkey::lexer::is_letter(' '));
    assert!(!monkey::lexer::is_letter('+'));
}
