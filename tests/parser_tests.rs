use rue::{
    CstNode, CstRoot, ExpressionNode, Lexer, ParseError, StatementNode, TokenKind, parse,
};

fn lex_and_parse(source: &str) -> Result<CstRoot, ParseError> {
    let mut lexer = Lexer::new(source);
    let tokens = lexer.tokenize();
    parse(tokens)
}

#[test]
fn test_simple_number() {
    let result = lex_and_parse("42;");
    assert!(result.is_ok());
    let cst = result.unwrap();
    assert_eq!(cst.items.len(), 1);

    match &cst.items[0] {
        CstNode::Statement(stmt) => match &**stmt {
            StatementNode::Expression(expr_stmt) => match &expr_stmt.expression {
                ExpressionNode::Literal(token) => match &token.kind {
                    TokenKind::Integer(value) => assert_eq!(*value, 42),
                    _ => panic!("Expected integer token"),
                },
                _ => panic!("Expected literal expression"),
            },
            _ => panic!("Expected expression statement with literal"),
        },
        _ => panic!("Expected statement"),
    }
}

#[test]
fn test_simple_identifier() {
    let result = lex_and_parse("foo;");
    assert!(result.is_ok());
    let cst = result.unwrap();
    assert_eq!(cst.items.len(), 1);

    match &cst.items[0] {
        CstNode::Statement(stmt) => match &**stmt {
            StatementNode::Expression(expr_stmt) => match &expr_stmt.expression {
                ExpressionNode::Identifier(token) => match &token.kind {
                    TokenKind::Ident(name) => assert_eq!(name, "foo"),
                    _ => panic!("Expected identifier token"),
                },
                _ => panic!("Expected identifier expression"),
            },
            _ => panic!("Expected expression statement with identifier"),
        },
        _ => panic!("Expected statement"),
    }
}

#[test]
fn test_binary_expression() {
    let result = lex_and_parse("2 + 3;");
    assert!(result.is_ok());
    let cst = result.unwrap();
    assert_eq!(cst.items.len(), 1);

    match &cst.items[0] {
        CstNode::Statement(stmt) => match &**stmt {
            StatementNode::Expression(expr_stmt) => match &expr_stmt.expression {
                ExpressionNode::Binary(binary) => {
                    // Check left operand
                    match &*binary.left {
                        ExpressionNode::Literal(token) => match &token.kind {
                            TokenKind::Integer(value) => assert_eq!(*value, 2),
                            _ => panic!("Expected integer token for left operand"),
                        },
                        _ => panic!("Expected literal for left operand"),
                    }

                    // Check operator
                    assert_eq!(binary.operator.kind, TokenKind::Plus);

                    // Check right operand
                    match &*binary.right {
                        ExpressionNode::Literal(token) => match &token.kind {
                            TokenKind::Integer(value) => assert_eq!(*value, 3),
                            _ => panic!("Expected integer token for right operand"),
                        },
                        _ => panic!("Expected literal for right operand"),
                    }
                }
                _ => panic!("Expected binary expression"),
            },
            _ => panic!("Expected expression statement with binary expression"),
        },
        _ => panic!("Expected statement"),
    }
}

#[test]
fn test_function_call() {
    let result = lex_and_parse("factorial(5);");
    assert!(result.is_ok());
    let cst = result.unwrap();
    assert_eq!(cst.items.len(), 1);

    match &cst.items[0] {
        CstNode::Statement(stmt) => match &**stmt {
            StatementNode::Expression(expr_stmt) => match &expr_stmt.expression {
                ExpressionNode::Call(call) => {
                    // Check function name
                    match &*call.function {
                        ExpressionNode::Identifier(token) => match &token.kind {
                            TokenKind::Ident(name) => assert_eq!(name, "factorial"),
                            _ => panic!("Expected identifier token for function name"),
                        },
                        _ => panic!("Expected identifier for function name"),
                    }

                    // Check arguments
                    assert_eq!(call.args.len(), 1);
                    match &call.args[0] {
                        ExpressionNode::Literal(token) => match &token.kind {
                            TokenKind::Integer(value) => assert_eq!(*value, 5),
                            _ => panic!("Expected integer token for argument"),
                        },
                        _ => panic!("Expected literal for argument"),
                    }
                }
                _ => panic!("Expected function call"),
            },
            _ => panic!("Expected expression statement with function call"),
        },
        _ => panic!("Expected statement"),
    }
}

#[test]
fn test_let_statement() {
    let result = lex_and_parse("let x = 42;");
    assert!(result.is_ok());
    let cst = result.unwrap();
    assert_eq!(cst.items.len(), 1);

    match &cst.items[0] {
        CstNode::Statement(stmt) => match &**stmt {
            StatementNode::Let(let_stmt) => {
                // Check variable name
                match &let_stmt.name.kind {
                    TokenKind::Ident(name) => assert_eq!(name, "x"),
                    _ => panic!("Expected identifier token for variable name"),
                }

                // Check value
                match &let_stmt.value {
                    ExpressionNode::Literal(token) => match &token.kind {
                        TokenKind::Integer(value) => assert_eq!(*value, 42),
                        _ => panic!("Expected integer token for value"),
                    },
                    _ => panic!("Expected literal for value"),
                }
            }
            _ => panic!("Expected let statement"),
        },
        _ => panic!("Expected statement"),
    }
}

#[test]
fn test_simple_function() {
    let result = lex_and_parse("fn test(x) { x }");
    assert!(result.is_ok());
    let cst = result.unwrap();
    assert_eq!(cst.items.len(), 1);

    match &cst.items[0] {
        CstNode::Function(func) => {
            // Check function name
            match &func.name.kind {
                TokenKind::Ident(name) => assert_eq!(name, "test"),
                _ => panic!("Expected identifier token for function name"),
            }

            // Check parameter
            assert_eq!(func.param_list.params.len(), 1);
            match &func.param_list.params[0].kind {
                TokenKind::Ident(name) => assert_eq!(name, "x"),
                _ => panic!("Expected identifier token for parameter"),
            }

            // Check body has a final expression
            assert!(func.body.final_expr.is_some());
        }
        _ => panic!("Expected function"),
    }
}

#[test]
fn test_factorial_example() {
    let source = r#"
fn factorial(n) {
if n <= 1 {
    1
} else {
    n * factorial(n - 1)
}
}

fn main() {
factorial(5)
}
    "#;

    let result = lex_and_parse(source);
    assert!(result.is_ok());
    let cst = result.unwrap();
    assert_eq!(cst.items.len(), 2); // factorial function + main function

    // Check factorial function
    match &cst.items[0] {
        CstNode::Function(func) => {
            match &func.name.kind {
                TokenKind::Ident(name) => assert_eq!(name, "factorial"),
                _ => panic!("Expected identifier token for factorial function name"),
            }

            // Check that the body contains a final expression (the if expression)
            assert!(func.body.final_expr.is_some());
            match &func.body.final_expr {
                Some(ExpressionNode::If(_)) => {} // Success
                _ => panic!("Expected if expression in factorial function"),
            }
        }
        _ => panic!("Expected factorial function"),
    }

    // Check main function
    match &cst.items[1] {
        CstNode::Function(func) => {
            match &func.name.kind {
                TokenKind::Ident(name) => assert_eq!(name, "main"),
                _ => panic!("Expected identifier token for main function name"),
            }

            // Check that the body contains a function call as final expression
            assert!(func.body.final_expr.is_some());
            match &func.body.final_expr {
                Some(ExpressionNode::Call(_)) => {} // Success
                _ => panic!("Expected function call as final expression in main function"),
            }
        }
        _ => panic!("Expected main function"),
    }
}

#[test]
fn test_while_statement() {
    let result = lex_and_parse("while x <= 10 { x };");
    assert!(result.is_ok());
    let cst = result.unwrap();
    assert_eq!(cst.items.len(), 1);

    match &cst.items[0] {
        CstNode::Statement(stmt) => match &**stmt {
            StatementNode::Expression(expr_stmt) => match &expr_stmt.expression {
                ExpressionNode::While(while_stmt) => {
                    // Check condition is a binary expression
                    match &while_stmt.condition {
                        ExpressionNode::Binary(binary) => {
                            // Check left operand
                            match &*binary.left {
                                ExpressionNode::Identifier(token) => match &token.kind {
                                    TokenKind::Ident(name) => assert_eq!(name, "x"),
                                    _ => panic!("Expected identifier token for left operand"),
                                },
                                _ => panic!("Expected identifier for left operand"),
                            }

                            // Check operator
                            assert_eq!(binary.operator.kind, TokenKind::LessEqual);

                            // Check right operand
                            match &*binary.right {
                                ExpressionNode::Literal(token) => match &token.kind {
                                    TokenKind::Integer(value) => assert_eq!(*value, 10),
                                    _ => panic!("Expected integer token for right operand"),
                                },
                                _ => panic!("Expected literal for right operand"),
                            }
                        }
                        _ => panic!("Expected binary expression for condition"),
                    }

                    // Check body has final expression
                    assert!(while_stmt.body.final_expr.is_some());
                    match &while_stmt.body.final_expr {
                        Some(ExpressionNode::Identifier(token)) => match &token.kind {
                            TokenKind::Ident(name) => assert_eq!(name, "x"),
                            _ => panic!("Expected identifier token in body"),
                        },
                        _ => panic!("Expected identifier as final expression in body"),
                    }
                }
                _ => panic!("Expected while expression"),
            },
            _ => panic!("Expected expression statement with while expression"),
        },
        _ => panic!("Expected statement"),
    }
}

#[test]
fn test_assign_statement() {
    let result = lex_and_parse("x = 42;");
    assert!(result.is_ok());
    let cst = result.unwrap();
    assert_eq!(cst.items.len(), 1);

    match &cst.items[0] {
        CstNode::Statement(stmt) => match &**stmt {
            StatementNode::Assign(assign_stmt) => {
                // Check variable name
                match &assign_stmt.name.kind {
                    TokenKind::Ident(name) => assert_eq!(name, "x"),
                    _ => panic!("Expected identifier token for variable name"),
                }

                // Check value
                match &assign_stmt.value {
                    ExpressionNode::Literal(token) => match &token.kind {
                        TokenKind::Integer(value) => assert_eq!(*value, 42),
                        _ => panic!("Expected integer token for value"),
                    },
                    _ => panic!("Expected literal for value"),
                }
            }
            _ => panic!("Expected assign statement"),
        },
        _ => panic!("Expected statement"),
    }
}

#[test]
fn test_invalid_while_syntax() {
    let text = r#"
fn test_invalid() {
    while {
        42
    }
}
"#;

    let mut lexer = Lexer::new(text);
    let tokens = lexer.tokenize();
    let result = parse(tokens);

    assert!(
        result.is_err(),
        "Invalid while syntax should produce errors"
    );
}

#[test]
fn parser_reports_span_of_unexpected_token() {
    let result = lex_and_parse("let = 5;");
    let error = result.unwrap_err();
    assert_eq!(error.span.start, 4);
    assert_eq!(error.message, "Expected identifier, found Assign");
}

#[test]
fn parser_empty_program() {
    let cst = lex_and_parse("").unwrap();
    assert_eq!(cst.items.len(), 0);
}

#[test]
fn parser_precedence_multiplication_binds_tighter() {
    let cst = lex_and_parse("2 + 3 * 4;").unwrap();
    match &cst.items[0] {
        CstNode::Statement(stmt) => match &**stmt {
            StatementNode::Expression(es) => match &es.expression {
                ExpressionNode::Binary(b) => {
                    assert_eq!(b.operator.kind, TokenKind::Plus);
                    match &*b.right {
                        ExpressionNode::Binary(inner) => {
                            assert_eq!(inner.operator.kind, TokenKind::Star)
                        }
                        _ => panic!("Expected product on the right"),
                    }
                }
                _ => panic!("Expected binary expression"),
            },
            _ => panic!("Expected expression statement"),
        },
        _ => panic!("Expected statement"),
    }
}
