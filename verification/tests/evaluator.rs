use ncalc_rs::evaluator::{eval_input, EvalError};
use ncalc_rs::expression::{Expression, ParseExpressionError};
use ncalc_rs::object::{Context, Object};
use ncalc_rs::token::Token;

#[test]
fn basic_eval_tests() {
    let tests = [("!true", Object::Bool(false))].into_iter();
    for (test, expected) in tests {
        assert_eq!(expected, eval_input(test, Context::default()).unwrap());
    }
}

#[test]
fn evaluate_ident_for_expr() {
    let test = "[x] + 5";
    let context = Context::from_map(vec![("x".to_string(), Object::Int(10))]);
    assert_eq!(
        Object::Double((15.0f64).to_bits()),
        eval_input(test, context).unwrap()
    );

    let test = "[x] - 5";
    let context = Context::from_map(vec![("x".to_string(), Object::Int(10))]);
    assert_eq!(
        Object::Double((5.0f64).to_bits()),
        eval_input(test, context).unwrap()
    );

    let test = "[x] * 5";
    let context = Context::from_map(vec![("x".to_string(), Object::Int(10))]);
    assert_eq!(
        Object::Double((50.0f64).to_bits()),
        eval_input(test, context).unwrap()
    );

    let test = "[x] / [y]";
    let context = Context::from_map(vec![
        ("x".to_string(), Object::Int(10)),
        ("y".to_string(), Object::Int(2)),
    ]);
    assert_eq!(
        Object::Double((5.0f64).to_bits()),
        eval_input(test, context).unwrap()
    );

    let test = "[x] < [y]";
    let context = Context::from_map(vec![
        ("x".to_string(), Object::Int(10)),
        ("y".to_string(), Object::Int(2)),
    ]);
    assert_eq!(Object::Bool(false), eval_input(test, context).unwrap());

    let test = "[x] <= [y]";
    let context = Context::from_map(vec![
        ("x".to_string(), Object::Int(10)),
        ("y".to_string(), Object::Int(10)),
    ]);
    assert_eq!(Object::Bool(true), eval_input(test, context).unwrap());

    let test = "[x] <= [y]";
    let context = Context::from_map(vec![
        ("x".to_string(), Object::Int(11)),
        ("y".to_string(), Object::Int(10)),
    ]);
    assert_eq!(Object::Bool(false), eval_input(test, context).unwrap());

    let test = "[x] > [y]";
    let context = Context::from_map(vec![
        ("x".to_string(), Object::Int(11)),
        ("y".to_string(), Object::Int(10)),
    ]);
    assert_eq!(Object::Bool(true), eval_input(test, context).unwrap());

    let test = "[x] >= [y]";
    let context = Context::from_map(vec![
        ("x".to_string(), Object::Int(11)),
        ("y".to_string(), Object::Int(10)),
    ]);
    assert_eq!(Object::Bool(true), eval_input(test, context).unwrap());

    let test = "[x] >= [y]";
    let context = Context::from_map(vec![
        ("x".to_string(), Object::Int(9)),
        ("y".to_string(), Object::Int(10)),
    ]);
    assert_eq!(Object::Bool(false), eval_input(test, context).unwrap());

    let test = "[x] == [y]";
    let context = Context::from_map(vec![
        ("x".to_string(), Object::Bool(true)),
        ("y".to_string(), Object::Bool(false)),
    ]);
    assert_eq!(Object::Bool(false), eval_input(test, context).unwrap());

    let test = "[x] == [y]";
    let context = Context::from_map(vec![
        ("x".to_string(), Object::Bool(false)),
        ("y".to_string(), Object::Bool(false)),
    ]);
    assert_eq!(Object::Bool(true), eval_input(test, context).unwrap());

    let test = "[x] || [y]";
    let context = Context::from_map(vec![
        ("x".to_string(), Object::Bool(false)),
        ("y".to_string(), Object::Bool(false)),
    ]);
    assert_eq!(Object::Bool(false), eval_input(test, context).unwrap());

    let test = "[x] or [y]";
    let context = Context::from_map(vec![
        ("x".to_string(), Object::Bool(false)),
        ("y".to_string(), Object::Bool(false)),
    ]);
    assert_eq!(Object::Bool(false), eval_input(test, context).unwrap());
}

#[test]
fn evaluate_ident_for_bool() {
    let test = "![x]";
    let context = Context::from_map(vec![("x".to_string(), Object::Bool(true))]);
    assert_eq!(Object::Bool(false), eval_input(test, context).unwrap());
}

#[test]
fn evaluate_if_function() {
    let tests = vec![
        ("if(true, 1, 3)", Object::Int(1), vec![]),
        (
            "if ( [x] >= [y], [x], [y])",
            Object::Int(12),
            vec![
                ("x".to_string(), Object::Int(12)),
                ("y".to_string(), Object::Int(10)),
            ],
        ),
        (
            "if ( [x] >= [y], if( 3 > 2, 100, 2), [y])",
            Object::Int(100),
            vec![
                ("x".to_string(), Object::Int(12)),
                ("y".to_string(), Object::Int(10)),
            ],
        ),
    ]
    .into_iter();
    for (test, expected, map) in tests {
        let context = Context::from_map(map);
        assert_eq!(expected, eval_input(test, context).unwrap());
    }
}

#[test]
fn literals_evaluate_to_themselves() {
    assert_eq!(Object::Int(7), eval_input("7", Context::default()).unwrap());
    assert_eq!(
        Object::Double((2.5f64).to_bits()),
        eval_input("2.5", Context::default()).unwrap()
    );
    assert_eq!(
        Object::Bool(true),
        eval_input("true", Context::default()).unwrap()
    );
    assert_eq!(
        Object::Str("hi".to_string()),
        eval_input("\"hi\"", Context::default()).unwrap()
    );
}

#[test]
fn arithmetic_always_returns_double() {
    assert_eq!(
        Object::Double((3.0f64).to_bits()),
        eval_input("1 + 2", Context::default()).unwrap()
    );
    assert_eq!(
        Object::Double((-1.0f64).to_bits()),
        eval_input("1 - 2", Context::default()).unwrap()
    );
    assert_eq!(
        Object::Double((2.5f64).to_bits()),
        eval_input("10 / 4", Context::default()).unwrap()
    );
    assert_eq!(
        Object::Double((3.0f64).to_bits()),
        eval_input("7 % 4", Context::default()).unwrap()
    );
    assert_eq!(
        Object::Double((7.0f64).to_bits()),
        eval_input("1 + 2 * 3", Context::default()).unwrap()
    );
}

#[test]
fn mixed_numeric_kinds_widen_to_double() {
    assert_eq!(
        Object::Double((3.5f64).to_bits()),
        eval_input("1 + 2.5", Context::default()).unwrap()
    );
    assert_eq!(
        Object::Bool(true),
        eval_input("2 == 2.0", Context::default()).unwrap()
    );
}

#[test]
fn or_on_booleans_computes_logical_or() {
    let context = Context::from_map(vec![
        ("x".to_string(), Object::Bool(false)),
        ("y".to_string(), Object::Bool(true)),
    ]);
    assert_eq!(Object::Bool(true), eval_input("[x] || [y]", context).unwrap());
    let context = Context::from_map(vec![
        ("x".to_string(), Object::Bool(false)),
        ("y".to_string(), Object::Bool(true)),
    ]);
    assert_eq!(Object::Bool(true), eval_input("[x] or [y]", context).unwrap());
}

#[test]
fn negation_keeps_the_numeric_kind() {
    assert_eq!(Object::Int(-12), eval_input("-12", Context::default()).unwrap());
    assert_eq!(
        Object::Double((-1.5f64).to_bits()),
        eval_input("-1.5", Context::default()).unwrap()
    );
}

#[test]
fn if_short_circuits_the_untaken_branch() {
    // The untaken branch references an unbound variable; it is never
    // evaluated, so the call still succeeds.
    assert_eq!(
        Object::Int(2),
        eval_input("if(false, [unbound], 2)", Context::default()).unwrap()
    );
    assert_eq!(
        Object::Int(1),
        eval_input("if(true, 1, [unbound])", Context::default()).unwrap()
    );
}

#[test]
fn unbound_identifier_is_reported() {
    assert_eq!(
        Err(EvalError::ReferenceNotFound("z".to_string())),
        eval_input("[z]", Context::default())
    );
}

#[test]
fn wrong_arity_is_reported() {
    assert_eq!(
        Err(EvalError::MissMatchFunctionArguements { expected: 3, found: 2 }),
        eval_input("if(true,1)", Context::default())
    );
}

#[test]
fn empty_source_is_reported() {
    assert_eq!(
        Err(EvalError::ParseExpressionError { error: ParseExpressionError::NothingToParse }),
        eval_input("", Context::default())
    );
}

#[test]
fn whitespace_only_source_is_reported_like_the_empty_one() {
    assert_eq!(
        Err(EvalError::ParseExpressionError { error: ParseExpressionError::NothingToParse }),
        eval_input(" \t\r\n ", Context::default())
    );
}

#[test]
fn if_condition_must_be_bool() {
    assert_eq!(
        Err(EvalError::ExpectedObjectXFoundY { expected: "bool", found: Object::Int(1) }),
        eval_input("if(1, 2, 3)", Context::default())
    );
}

#[test]
fn minus_needs_a_number_and_bang_needs_a_bool() {
    assert_eq!(
        Err(EvalError::ExpectedObjectXFoundY { expected: "number", found: Object::Bool(true) }),
        eval_input("-true", Context::default())
    );
    assert_eq!(
        Err(EvalError::ExpectedObjectXFoundY { expected: "bool", found: Object::Int(1) }),
        eval_input("!1", Context::default())
    );
}

#[test]
fn operand_kind_mismatch_is_reported() {
    assert_eq!(
        Err(EvalError::UnExpectedOperatorOperandFound {
            operator: Token::Plus,
            left: Object::Int(1),
            right: Object::Bool(true),
        }),
        eval_input("1 + true", Context::default())
    );
    // `or` needs booleans on both sides.
    assert_eq!(
        Err(EvalError::UnExpectedOperatorOperandFound {
            operator: Token::Or,
            left: Object::Int(1),
            right: Object::Int(2),
        }),
        eval_input("1 or 2", Context::default())
    );
}

#[test]
fn angle_bracket_inequality_has_no_meaning_yet() {
    assert_eq!(
        Err(EvalError::UnExpectedTokenFound { token: Token::NotEqualsAngleBrackets }),
        eval_input("1 <> 2", Context::default())
    );
}

#[test]
fn callee_must_be_the_builtin() {
    assert_eq!(
        Err(EvalError::ExpectedExpressionXFoundY {
            expected: "built-in function",
            found: Expression::Ident("add".to_string()),
        }),
        eval_input("add(1, 2)", Context::default())
    );
    assert_eq!(
        Err(EvalError::ExpectedExpressionXFoundY {
            expected: "function name",
            found: Expression::Int(1),
        }),
        eval_input("1(2)", Context::default())
    );
}

#[test]
fn illegal_token_is_rejected_at_parse_time() {
    assert_eq!(
        Err(EvalError::ParseExpressionError {
            error: ParseExpressionError::UnexpectedToken { token: Token::Illegal },
        }),
        eval_input("1.2.3", Context::default())
    );
}

#[test]
fn reevaluation_is_deterministic() {
    let source = "if([x] >= [y], [x] + 1, [y] * 2)";
    let bindings = vec![
        ("x".to_string(), Object::Int(12)),
        ("y".to_string(), Object::Int(10)),
    ];
    let first = eval_input(source, Context::from_map(bindings.clone()));
    let second = eval_input(source, Context::from_map(bindings));
    assert_eq!(first, second);
    assert_eq!(Ok(Object::Double((13.0f64).to_bits())), first);

    let failing = "[z] + 1";
    let first = eval_input(failing, Context::default());
    let second = eval_input(failing, Context::default());
    assert_eq!(first, second);
    assert_eq!(Err(EvalError::ReferenceNotFound("z".to_string())), first);
}

#[test]
fn earliest_binding_wins() {
    let context = Context::from_map(vec![
        ("x".to_string(), Object::Int(1)),
        ("x".to_string(), Object::Int(2)),
    ]);
    assert_eq!(Object::Int(1), eval_input("[x]", context).unwrap());
}

#[test]
fn mathematical_expression_entry_point() {
    let mut formula = ncalc_rs::MathematicalExpression::new("1 + 2");
    assert_eq!(Ok(Object::Double((3.0f64).to_bits())), formula.eval());
    assert_eq!("1 + 2", formula.get_source());

    let mut empty = ncalc_rs::MathematicalExpression::new("");
    assert_eq!(
        Err("the formula cannot be parsed: nothing to parse".to_string()),
        empty.eval()
    );

    let mut unbound = ncalc_rs::MathematicalExpression::new("[z]");
    assert_eq!(
        Err("a referenced variable is not bound: z".to_string()),
        unbound.eval()
    );
}

#[test]
fn trailing_tokens_after_an_expression_are_ignored() {
    // Only the first complete expression is taken; what follows it is
    // left unread by design.
    assert_eq!(Object::Int(1), eval_input("1 2", Context::default()).unwrap());
    // `and` sits at the lowest binding tier, so the chain stops before it.
    assert_eq!(
        Object::Bool(true),
        eval_input("true and false", Context::default()).unwrap()
    );
    // A call absorbs its closing parenthesis and one step beyond, so an
    // operator right after it is out of the chain's reach.
    assert_eq!(
        Object::Int(1),
        eval_input("if(true, 1, 3) + 2", Context::default()).unwrap()
    );
}
