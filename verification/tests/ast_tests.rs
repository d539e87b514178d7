use monkey::ast::{Expression, Identifier, LetStatement, Node, Program, Statement};
use monkey::token::{Token, TokenType};

#[test]
fn test_program_string() {
    let program = Program {
        statements: vec![Statement::Let(LetStatement {
            token: Token { type_: TokenType::Let, literal: "let".to_string() },
            name: Identifier {
                token: Token { type_: TokenType::Identifier, literal: "myVar".to_string() },
                value: "myVar".to_string(),
            },
            value: Expression::Ident(Identifier {
                token: Token { type_: TokenType::Identifier, literal: "anotherVar".to_string() },
                value: "anotherVar".to_string(),
            }),
        })],
    };

    println!("Program: {:?}", program);
    println!("First statement: {:?}", program.statements[0]);
    let actual_output = program.to_string();
    println!("Actual output: '{}'", actual_output);

    assert_eq!(
        actual_output, "let myVar = anotherVar;",
        "program.to_string() wrong. got='{}'",
        actual_output
    );
}

#[test]
fn test_program_token_literal() {
    let program = Program {
        statements: vec![Statement::Let(LetStatement {
            token: Token { type_: TokenType::Let, literal: "let".to_string() },
            name: Identifier {
                token: Token { type_: TokenType::Identifier, literal: "x".to_string() },
                value: "x".to_string(),
            },
            value: Expression::Ident(Identifier {
                token: Token { type_: TokenType::Identifier, literal: "y".to_string() },
                value: "y".to_string(),
            }),
        })],
    };
    assert_eq!(program.token_literal(), "let");

    let empty = Program::new();
    assert_eq!(empty.token_literal(), "");
    assert_eq!(empty.to_string(), "");
}
