use ncalc_rs::expression::{Expression, ParseExpressionError};
use ncalc_rs::lexer::Lexer;
use ncalc_rs::parser::Parser;
use ncalc_rs::token::Token;

#[test]
fn test_basic_expressions() {
    let tests = vec![
        ("123", Expression::Int(123)),
        ("12.3", Expression::Double((12.3f64).to_bits())),
        (
            "-12",
            Expression::PrefixExpression {
                operator: Token::Minus,
                expression: Box::new(Expression::Int(12)),
            },
        ),
        ("\"m o_hit2\"", Expression::Str("m o_hit2".to_string())),
        ("(4)", Expression::Int(4)),
    ]
    .into_iter();
    for (input, expected) in tests {
        let mut parser = Parser::new(Lexer::from_input(input)).unwrap();
        let expression = parser.parse().unwrap();
        assert_eq!(expected, expression);
    }
}

#[test]
fn test_basic_infix_expressions() {
    let tests = vec![
        (
            "1+2",
            Expression::InfixExpression {
                operator: Token::Plus,
                left: Box::new(Expression::Int(1)),
                right: Box::new(Expression::Int(2)),
            },
        ),
        (
            "1-2",
            Expression::InfixExpression {
                operator: Token::Minus,
                left: Box::new(Expression::Int(1)),
                right: Box::new(Expression::Int(2)),
            },
        ),
        (
            "1*2",
            Expression::InfixExpression {
                operator: Token::Asterisk,
                left: Box::new(Expression::Int(1)),
                right: Box::new(Expression::Int(2)),
            },
        ),
        (
            "1 + (2 - 3)",
            Expression::InfixExpression {
                operator: Token::Plus,
                left: Box::new(Expression::Int(1)),
                right: Box::new(Expression::InfixExpression {
                    operator: Token::Minus,
                    left: Box::new(Expression::Int(2)),
                    right: Box::new(Expression::Int(3)),
                }),
            },
        ),
        (
            "1.23 + (2 * 3)",
            Expression::InfixExpression {
                operator: Token::Plus,
                left: Box::new(Expression::Double((1.23f64).to_bits())),
                right: Box::new(Expression::InfixExpression {
                    operator: Token::Asterisk,
                    left: Box::new(Expression::Int(2)),
                    right: Box::new(Expression::Int(3)),
                }),
            },
        ),
        (
            "println()",
            Expression::CallExpression {
                function: Box::new(Expression::Ident("println".to_string())),
                arguments: vec![],
            },
        ),
        (
            "add(1, 2)",
            Expression::CallExpression {
                function: Box::new(Expression::Ident("add".to_string())),
                arguments: vec![Box::new(Expression::Int(1)), Box::new(Expression::Int(2))],
            },
        ),
        (
            "add(-1, 2)",
            Expression::CallExpression {
                function: Box::new(Expression::Ident("add".to_string())),
                arguments: vec![
                    Box::new(Expression::PrefixExpression {
                        operator: Token::Minus,
                        expression: Box::new(Expression::Int(1)),
                    }),
                    Box::new(Expression::Int(2)),
                ],
            },
        ),
        (
            "println(\"foo\")",
            Expression::CallExpression {
                function: Box::new(Expression::Ident("println".to_string())),
                arguments: vec![Box::new(Expression::Str("foo".to_string()))],
            },
        ),
        ("[x]", Expression::Ident("x".to_string())),
        ("[x_]", Expression::Ident("x_".to_string())),
        ("[x1212_]", Expression::Ident("x1212_".to_string())),
    ]
    .into_iter();

    for (test, expected) in tests {
        let mut parser = Parser::new(Lexer::from_input(test)).unwrap();
        let expression = parser.parse().unwrap();
        assert_eq!(expected, expression);
    }
}

#[test]
fn multiplicative_binds_before_additive() {
    let mut parser = Parser::new(Lexer::from_input("1 + 2 * 3")).unwrap();
    assert_eq!(
        Expression::InfixExpression {
            operator: Token::Plus,
            left: Box::new(Expression::Int(1)),
            right: Box::new(Expression::InfixExpression {
                operator: Token::Asterisk,
                left: Box::new(Expression::Int(2)),
                right: Box::new(Expression::Int(3)),
            }),
        },
        parser.parse().unwrap()
    );
}

#[test]
fn or_binds_more_loosely_than_equality() {
    let mut parser = Parser::new(Lexer::from_input("[a] == [b] or [c]")).unwrap();
    assert_eq!(
        Expression::InfixExpression {
            operator: Token::Or,
            left: Box::new(Expression::InfixExpression {
                operator: Token::Equals,
                left: Box::new(Expression::Ident("a".to_string())),
                right: Box::new(Expression::Ident("b".to_string())),
            }),
            right: Box::new(Expression::Ident("c".to_string())),
        },
        parser.parse().unwrap()
    );
}

#[test]
fn trailing_comma_in_call_is_tolerated() {
    let mut parser = Parser::new(Lexer::from_input("f(1,)")).unwrap();
    assert_eq!(
        Expression::CallExpression {
            function: Box::new(Expression::Ident("f".to_string())),
            arguments: vec![Box::new(Expression::Int(1))],
        },
        parser.parse().unwrap()
    );
}

#[test]
fn missing_closing_paren_is_reported() {
    let mut parser = Parser::new(Lexer::from_input("(1 + 2")).unwrap();
    assert_eq!(
        Err(ParseExpressionError::ExpectedXFoundY { expected: "Token::RParen", found: Token::EOF }),
        parser.parse()
    );
}

#[test]
fn bracket_must_hold_identifier() {
    let mut parser = Parser::new(Lexer::from_input("[1]")).unwrap();
    assert_eq!(
        Err(ParseExpressionError::ExpectedXFoundY {
            expected: "Identifier",
            found: Token::IntLiteral(1),
        }),
        parser.parse()
    );
}

#[test]
fn whitespace_only_source_is_nothing_to_parse() {
    // A source with no token beyond end-of-input is rejected when the
    // parser is built, exactly like the empty source.
    let result = Parser::new(Lexer::from_input("   "));
    assert!(matches!(result, Err(ParseExpressionError::NothingToParse)));
}
