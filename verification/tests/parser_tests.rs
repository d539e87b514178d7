use monkey::ast::{Expression, Node, Statement};
use monkey::errors::ParseErrorKind;
use monkey::lexer::Lexer;
use monkey::parser::Parser;

fn check_parser_errors(p: &Parser) {
    let errs = p.errors();
    if errs.is_empty() {
        return;
    }
    println!("parser has {} errors", errs.len());

    for m in errs {
        println!("parser error {}", m.msg);
    }
    panic!("Fix above issues");
}

fn test_let_statement(stmt: &Statement, expected_identifier: &str) -> bool {
    if stmt.token_literal() != "let" {
        println!("stmt.token_literal not 'let'. got={}", stmt.token_literal());
        return false;
    }

    let let_stmt = match stmt {
        Statement::Let(ls) => ls,
        _ => {
            println!("stmt is not LetStatement. got={:?}", stmt);
            return false;
        }
    };

    if let_stmt.name.value != expected_identifier {
        println!(
            "let_stmt.name.value not '{}'. got={}",
            expected_identifier, let_stmt.name.value
        );
        return false;
    }

    if let_stmt.name.token_literal() != expected_identifier {
        println!(
            "let_stmt.name.token_literal() not '{}'. got={}",
            expected_identifier,
            let_stmt.name.token_literal()
        );
        return false;
    }

    true
}

#[test]
fn test_identifier_expression() {
    let input = "foobar;";
    let l = Lexer::new(input);
    let mut p = Parser::new(l);
    let program = p.parse_program();
    check_parser_errors(&p);

    assert_eq!(
        program.statements.len(),
        1,
        "program does not have enough statements. got ={}",
        program.statements.len()
    );
    let stmt = match &program.statements[0] {
        Statement::Expr(es) => es,
        _ => panic!("Program statement is not expresssion statement"),
    };

    let ident = match &stmt.expression {
        Expression::Ident(id) => id,
        _ => panic!("expression not identifier "),
    };

    assert_eq!(
        ident.value, "foobar",
        "ident value not {} got={}",
        "foobar", ident.value
    );

    assert_eq!(
        ident.token_literal(),
        "foobar",
        "ident token literal not {} got={}",
        "foobar",
        ident.token_literal()
    );
}

#[test]
fn test_let_statements() {
    let input = "
let x = 5 ; let y = 10 ; let foobar = 838383 ;
";

    println!("Lexer");
    let l = Lexer::new(input);
    println!("parser");
    let mut p = Parser::new(l);
    println!("program");
    let program = p.parse_program();
    check_parser_errors(&p);

    assert_eq!(
        program.statements.len(),
        3,
        "program.statements does not contain 3 statements. got={}",
        program.statements.len()
    );

    let tests = ["x", "y", "foobar"];

    for (i, expected_identifier) in tests.iter().enumerate() {
        let stmt = &program.statements[i];
        assert!(
            test_let_statement(stmt, expected_identifier),
            "test_let_statement failed for index {}",
            i
        );
    }
}

#[test]
fn test_ret_statements() {
    let input = "
        return 5 ; return 10 ; return 993322 ;
";

    println!("Lexer");
    let l = Lexer::new(input);
    println!("parser");
    let mut p = Parser::new(l);
    println!("program");
    let program = p.parse_program();
    check_parser_errors(&p);

    assert_eq!(
        program.statements.len(),
        3,
        "program.statements does not contain 3 statements. got={}",
        program.statements.len()
    );

    for stmt in &program.statements {
        let ret_statements = match stmt {
            Statement::Return(rs) => rs,
            _ => panic!("Statement not return statement got={:?}", stmt),
        };

        assert_eq!(
            ret_statements.token_literal(),
            "return",
            "returnStatemt.token_literla not 'return' got {}",
            ret_statements.token_literal()
        );
    }
}

fn parse(input: &str) -> (monkey::ast::Program, Parser) {
    let l = Lexer::new(input);
    let mut p = Parser::new(l);
    let program = p.parse_program();
    (program, p)
}

#[test]
fn test_whitespace_only_input_parses_empty() {
    for input in ["", " ", "   \t \n \r  ", "\n\n\n"] {
        let (program, p) = parse(input);
        assert_eq!(program.statements.len(), 0, "input {:?}", input);
        assert_eq!(p.errors().len(), 0, "input {:?}", input);
    }
}

#[test]
fn test_operator_precedence_strings() {
    let cases = vec![
        ("-a * b", "((-a) * b)"),
        ("a + b + c", "((a + b) + c)"),
        ("a + b * c", "(a + (b * c))"),
        ("3 > 5 == false", "((3 > 5) == false)"),
        ("1 + (2 + 3) + 4", "((1 + (2 + 3)) + 4)"),
        ("a + b - c", "((a + b) - c)"),
        ("a * b / c", "((a * b) / c)"),
        ("5 < 4 != 3 > 4", "((5 < 4) != (3 > 4))"),
        ("!-a", "(!(-a))"),
        ("(5 + 5) * 2", "((5 + 5) * 2)"),
        ("-(5 + 5)", "(-(5 + 5))"),
        ("!(true == true)", "(!(true == true))"),
        (
            "add(a, b, 1, 2 * 3, 4 + 5, add(6, 7 * 8))",
            "add(a, b, 1, (2 * 3), (4 + 5), add(6, (7 * 8)))",
        ),
        ("a + add(b * c) + d", "((a + add((b * c))) + d)"),
    ];
    for (input, expected) in cases {
        let (program, p) = parse(input);
        check_parser_errors(&p);
        assert_eq!(program.to_string(), expected, "input {:?}", input);
    }
}

#[test]
fn test_three_let_statements_compact() {
    let (program, p) = parse("let x = 5; let y = 10; let foobar = 838383;");
    check_parser_errors(&p);
    assert_eq!(program.statements.len(), 3);
    let expected = ["x", "y", "foobar"];
    for (i, name) in expected.iter().enumerate() {
        match &program.statements[i] {
            Statement::Let(ls) => assert_eq!(&ls.name.value, name),
            other => panic!("statement {} is not a let statement: {:?}", i, other),
        }
    }
}

#[test]
fn test_three_return_statements_compact() {
    let (program, p) = parse("return 5; return 10; return 993322;");
    check_parser_errors(&p);
    assert_eq!(program.statements.len(), 3);
    for stmt in &program.statements {
        assert!(matches!(stmt, Statement::Return(_)));
    }
}

#[test]
fn test_let_missing_assign_reports_unexpected_token() {
    let (program, p) = parse("let x 5;");
    for stmt in &program.statements {
        assert!(
            !matches!(stmt, Statement::Let(_)),
            "no let statement should have been bound"
        );
    }
    let errs = p.errors();
    assert!(!errs.is_empty());
    assert_eq!(errs[0].kind, ParseErrorKind::UnexpectedToken);
    assert_eq!(errs[0].msg, "expected next token to be = , got int instead");
}

#[test]
fn test_if_else_expression() {
    let (program, p) = parse("if (x < y) { x } else { y }");
    check_parser_errors(&p);
    assert_eq!(program.statements.len(), 1);
    let es = match &program.statements[0] {
        Statement::Expr(es) => es,
        other => panic!("not an expression statement: {:?}", other),
    };
    let fe = match &es.expression {
        Expression::If(fe) => fe,
        other => panic!("not an if expression: {:?}", other),
    };
    assert_eq!(fe.condition.to_string(), "(x < y)");
    assert_eq!(fe.consequence.statements.len(), 1);
    let alt = fe.alternative.as_ref().expect("alternative should be populated");
    assert_eq!(alt.statements.len(), 1);
    assert_eq!(program.to_string(), "if(x < y) xelse y");
}

#[test]
fn test_if_without_else() {
    let (program, p) = parse("if (x) { y }");
    check_parser_errors(&p);
    assert_eq!(program.statements.len(), 1);
    match &program.statements[0] {
        Statement::Expr(es) => match &es.expression {
            Expression::If(fe) => assert!(fe.alternative.is_none()),
            other => panic!("not an if expression: {:?}", other),
        },
        other => panic!("not an expression statement: {:?}", other),
    }
}

#[test]
fn test_integer_literal_values() {
    let (program, p) = parse("5; 9223372036854775807;");
    check_parser_errors(&p);
    assert_eq!(program.statements.len(), 2);
    let values: Vec<i64> = program
        .statements
        .iter()
        .map(|s| match s {
            Statement::Expr(es) => match &es.expression {
                Expression::Int(il) => il.value,
                other => panic!("not an integer literal: {:?}", other),
            },
            other => panic!("not an expression statement: {:?}", other),
        })
        .collect();
    assert_eq!(values, vec![5, 9223372036854775807]);
}

#[test]
fn test_integer_literal_overflow() {
    let (program, p) = parse("9223372036854775808;");
    assert_eq!(program.statements.len(), 0);
    let errs = p.errors();
    assert_eq!(errs.len(), 2);
    assert_eq!(errs[0].kind, ParseErrorKind::IntegerLiteralOverflow);
    assert_eq!(errs[0].msg, "could not parse 9223372036854775808 as integer");
    // the recovery pass resumes at the orphaned semicolon
    assert_eq!(errs[1].kind, ParseErrorKind::NoPrefixParseRule);
}

#[test]
fn test_illegal_character_diagnostic() {
    let (program, p) = parse("@;");
    assert_eq!(program.statements.len(), 0);
    let errs = p.errors();
    assert_eq!(errs.len(), 2);
    assert_eq!(errs[0].kind, ParseErrorKind::IllegalCharacter);
    assert_eq!(errs[0].msg, "illegal character @");
    // the recovery pass resumes at the orphaned semicolon
    assert_eq!(errs[1].kind, ParseErrorKind::NoPrefixParseRule);
    assert_eq!(errs[1].msg, "no prefix parse rule for ; found");
}

#[test]
fn test_no_prefix_rule_diagnostic() {
    let (program, p) = parse("+ 5;");
    assert_eq!(program.statements.len(), 1);
    let errs = p.errors();
    assert_eq!(errs.len(), 1);
    assert_eq!(errs[0].kind, ParseErrorKind::NoPrefixParseRule);
    assert_eq!(errs[0].msg, "no prefix parse rule for + found");
}

#[test]
fn test_multiple_errors_from_one_pass() {
    let (_program, p) = parse("let x 5; let = 10; let 838383;");
    let errs = p.errors();
    assert!(errs.len() >= 3, "expected several diagnostics, got {}", errs.len());
    let unexpected = errs
        .iter()
        .filter(|e| e.kind == ParseErrorKind::UnexpectedToken)
        .count();
    assert!(unexpected >= 3, "expected three unexpected-token diagnostics, got {}", unexpected);
}

#[test]
fn test_prefix_expressions() {
    let cases = vec![("!5;", "!", 5i64), ("-15;", "-", 15i64)];
    for (input, op, value) in cases {
        let (program, p) = parse(input);
        check_parser_errors(&p);
        assert_eq!(program.statements.len(), 1);
        match &program.statements[0] {
            Statement::Expr(es) => match &es.expression {
                Expression::Prefix(pe) => {
                    assert_eq!(pe.operator, op);
                    match pe.right.as_ref() {
                        Expression::Int(il) => assert_eq!(il.value, value),
                        other => panic!("operand not an integer: {:?}", other),
                    }
                }
                other => panic!("not a prefix expression: {:?}", other),
            },
            other => panic!("not an expression statement: {:?}", other),
        }
    }
}

#[test]
fn test_boolean_expressions() {
    let (program, p) = parse("true; false;");
    check_parser_errors(&p);
    assert_eq!(program.statements.len(), 2);
    let values: Vec<bool> = program
        .statements
        .iter()
        .map(|s| match s {
            Statement::Expr(es) => match &es.expression {
                Expression::Bool(bl) => bl.value,
                other => panic!("not a boolean literal: {:?}", other),
            },
            other => panic!("not an expression statement: {:?}", other),
        })
        .collect();
    assert_eq!(values, vec![true, false]);
}

#[test]
fn test_function_literal() {
    let (program, p) = parse("fn(x, y) { x + y; }");
    check_parser_errors(&p);
    assert_eq!(program.statements.len(), 1);
    match &program.statements[0] {
        Statement::Expr(es) => match &es.expression {
            Expression::Function(fl) => {
                assert_eq!(fl.parameters.len(), 2);
                assert_eq!(fl.parameters[0].value, "x");
                assert_eq!(fl.parameters[1].value, "y");
                assert_eq!(fl.body.statements.len(), 1);
            }
            other => panic!("not a function literal: {:?}", other),
        },
        other => panic!("not an expression statement: {:?}", other),
    }
    assert_eq!(program.to_string(), "fn(x, y) (x + y)");
}

#[test]
fn test_function_parameter_lists() {
    let cases = vec![
        ("fn() {};", vec![]),
        ("fn(x) {};", vec!["x"]),
        ("fn(x, y, z) {};", vec!["x", "y", "z"]),
    ];
    for (input, expected) in cases {
        let (program, p) = parse(input);
        check_parser_errors(&p);
        match &program.statements[0] {
            Statement::Expr(es) => match &es.expression {
                Expression::Function(fl) => {
                    let names: Vec<&str> =
                        fl.parameters.iter().map(|id| id.value.as_str()).collect();
                    assert_eq!(names, expected, "input {:?}", input);
                }
                other => panic!("not a function literal: {:?}", other),
            },
            other => panic!("not an expression statement: {:?}", other),
        }
    }
}

#[test]
fn test_call_expression() {
    let (program, p) = parse("add(1, 2 * 3, 4 + 5);");
    check_parser_errors(&p);
    assert_eq!(program.statements.len(), 1);
    match &program.statements[0] {
        Statement::Expr(es) => match &es.expression {
            Expression::Call(ce) => {
                match ce.function.as_ref() {
                    Expression::Ident(id) => assert_eq!(id.value, "add"),
                    other => panic!("function not an identifier: {:?}", other),
                }
                assert_eq!(ce.arguments.len(), 3);
                assert_eq!(ce.arguments[1].to_string(), "(2 * 3)");
            }
            other => panic!("not a call expression: {:?}", other),
        },
        other => panic!("not an expression statement: {:?}", other),
    }
    assert_eq!(program.to_string(), "add(1, (2 * 3), (4 + 5))");
}

#[test]
fn test_missing_closing_brace() {
    let (program, p) = parse("if (x) { y");
    assert_eq!(program.statements.len(), 0);
    let errs = p.errors();
    assert!(!errs.is_empty());
    assert_eq!(errs[0].kind, ParseErrorKind::UnexpectedToken);
    assert_eq!(errs[0].msg, "expected next token to be } , got EOF instead");
}

#[test]
fn test_return_without_value() {
    let (program, p) = parse("return;");
    check_parser_errors(&p);
    assert_eq!(program.statements.len(), 1);
    match &program.statements[0] {
        Statement::Return(rs) => assert!(rs.value.is_none()),
        other => panic!("not a return statement: {:?}", other),
    }
    assert_eq!(program.to_string(), "return ;");
}

#[test]
fn test_let_statement_rendering() {
    let (program, p) = parse("let x = 1 + 2;");
    check_parser_errors(&p);
    assert_eq!(program.to_string(), "let x = (1 + 2);");
}
