use vstd::prelude::*;
use vstd::string::StringExecFns;
use crate::expression::{Expression, ParseExpressionError, SpecExpression, SpecParseError};
use crate::fp::{
    add_bits, div_bits, eq_bits, fp_add, fp_div, fp_eq, fp_ge, fp_gt, fp_le, fp_lt, fp_mul,
    fp_of_int, fp_rem, fp_sub, ge_bits, gt_bits, int_to_bits, le_bits, lt_bits, mul_bits,
    rem_bits, sub_bits,
};
use crate::lexer::{spec_skip_whitespace, spec_tokens_from, Lexer};
use crate::object::{spec_lookup, str_eq, Context, Object, SpecObject};
use crate::parser::{spec_parse_expression, Parser};
use crate::token::{SpecToken, Token};

verus! {

broadcast use vstd::std_specs::vec::group_vec_axioms, vstd::seq::group_seq_axioms;

/// The bit pattern of the double `-1.0`: unary minus negates a double
/// by multiplying with it.
pub const NEG_ONE_BITS: u64 = 0xBFF0_0000_0000_0000;

/// Why evaluation failed.
#[derive(Debug, PartialEq)]
pub enum EvalError {
    ExpectedObjectXFoundY { expected: &'static str, found: Object },
    ExpectedTokenXFoundY { expected: &'static str, found: Token },
    ExpectedExpressionXFoundY { expected: &'static str, found: Expression },
    ParseExpressionError { error: ParseExpressionError },
    UnExpectedTokenFound { token: Token },
    MissMatchFunctionArguements { expected: u8, found: u8 },
    ReferenceNotFound(String),
    UnExpectedOperatorOperandFound { operator: Token, left: Object, right: Object },
}

/// The mathematical shadow of `EvalError`.
pub enum SpecEvalError {
    ExpectedObjectXFoundY { expected: Seq<char>, found: SpecObject },
    ExpectedTokenXFoundY { expected: Seq<char>, found: SpecToken },
    ExpectedExpressionXFoundY { expected: Seq<char>, found: SpecExpression },
    ParseExpressionError { error: SpecParseError },
    UnExpectedTokenFound { token: SpecToken },
    MissMatchFunctionArguements { expected: u8, found: u8 },
    ReferenceNotFound(Seq<char>),
    UnExpectedOperatorOperandFound { operator: SpecToken, left: SpecObject, right: SpecObject },
}

impl View for EvalError {
    type V = SpecEvalError;

    open spec fn view(&self) -> SpecEvalError {
        match self {
            EvalError::ExpectedObjectXFoundY { expected, found } => {
                SpecEvalError::ExpectedObjectXFoundY { expected: expected.view(), found: found@ }
            },
            EvalError::ExpectedTokenXFoundY { expected, found } => {
                SpecEvalError::ExpectedTokenXFoundY { expected: expected.view(), found: found@ }
            },
            EvalError::ExpectedExpressionXFoundY { expected, found } => {
                SpecEvalError::ExpectedExpressionXFoundY {
                    expected: expected.view(),
                    found: found@,
                }
            },
            EvalError::ParseExpressionError { error } => {
                SpecEvalError::ParseExpressionError { error: error@ }
            },
            EvalError::UnExpectedTokenFound { token } => {
                SpecEvalError::UnExpectedTokenFound { token: token@ }
            },
            EvalError::MissMatchFunctionArguements { expected, found } => {
                SpecEvalError::MissMatchFunctionArguements { expected: *expected, found: *found }
            },
            EvalError::ReferenceNotFound(name) => SpecEvalError::ReferenceNotFound(name@),
            EvalError::UnExpectedOperatorOperandFound { operator, left, right } => {
                SpecEvalError::UnExpectedOperatorOperandFound {
                    operator: operator@,
                    left: left@,
                    right: right@,
                }
            },
        }
    }
}

/// The description of a parse error: a fixed text per kind, with the
/// expectation appended where the error carries one.
pub open spec fn spec_describe_parse_error(e: SpecParseError) -> Seq<char> {
    match e {
        SpecParseError::NothingToParse => "nothing to parse"@,
        SpecParseError::UnexpectedEnd => "unexpected end of input"@,
        SpecParseError::ExpectedXFoundY { expected, .. } => "expected "@ + expected,
        SpecParseError::UnexpectedToken { .. } => "an unexpected token"@,
    }
}

/// The description of an evaluation error: a fixed prefix per kind,
/// followed by whatever textual payload the error carries (what was
/// expected, or the unbound variable's name).
pub open spec fn spec_describe(e: SpecEvalError) -> Seq<char> {
    match e {
        SpecEvalError::ExpectedObjectXFoundY { expected, .. } => {
            "a value of another kind was expected: "@ + expected
        },
        SpecEvalError::ExpectedTokenXFoundY { expected, .. } => {
            "an operator of another kind was expected: "@ + expected
        },
        SpecEvalError::ExpectedExpressionXFoundY { expected, .. } => {
            "an expression of another kind was expected: "@ + expected
        },
        SpecEvalError::ParseExpressionError { error } => {
            "the formula cannot be parsed: "@ + spec_describe_parse_error(error)
        },
        SpecEvalError::UnExpectedTokenFound { .. } => "an unexpected operator was found"@,
        SpecEvalError::MissMatchFunctionArguements { .. } => {
            "the wrong number of arguments was given"@
        },
        SpecEvalError::ReferenceNotFound(name) => "a referenced variable is not bound: "@ + name,
        SpecEvalError::UnExpectedOperatorOperandFound { .. } => {
            "an operand does not fit its operator"@
        },
    }
}

impl EvalError {
    /// The description of the error: a fixed prefix per kind, followed
    /// by its textual payload where it carries one.
    pub fn message(&self) -> (r: String)
        ensures
            r@ == spec_describe(self@),
    {
        match self {
            EvalError::ExpectedObjectXFoundY { expected, .. } => {
                let mut m = "a value of another kind was expected: ".to_owned();
                m.append(expected);
                m
            },
            EvalError::ExpectedTokenXFoundY { expected, .. } => {
                let mut m = "an operator of another kind was expected: ".to_owned();
                m.append(expected);
                m
            },
            EvalError::ExpectedExpressionXFoundY { expected, .. } => {
                let mut m = "an expression of another kind was expected: ".to_owned();
                m.append(expected);
                m
            },
            EvalError::ParseExpressionError { error } => {
                let mut m = "the formula cannot be parsed: ".to_owned();
                match error {
                    ParseExpressionError::NothingToParse => m.append("nothing to parse"),
                    ParseExpressionError::UnexpectedEnd => m.append("unexpected end of input"),
                    ParseExpressionError::ExpectedXFoundY { expected, .. } => {
                        m.append("expected ");
                        m.append(expected);
                        proof {
                            assert(m@ =~= "the formula cannot be parsed: "@ + ("expected "@
                                + expected.view()));
                        }
                    },
                    ParseExpressionError::UnexpectedToken { .. } => m.append("an unexpected token"),
                }
                m
            },
            EvalError::UnExpectedTokenFound { .. } => {
                "an unexpected operator was found".to_owned()
            },
            EvalError::MissMatchFunctionArguements { .. } => {
                "the wrong number of arguments was given".to_owned()
            },
            EvalError::ReferenceNotFound(name) => {
                let mut m = "a referenced variable is not bound: ".to_owned();
                m.append(name.as_str());
                m
            },
            EvalError::UnExpectedOperatorOperandFound { .. } => {
                "an operand does not fit its operator".to_owned()
            },
        }
    }
}

/// Does the executable result agree with the specified one, view for
/// view?
pub open spec fn obj_result_matches(
    r: Result<Object, EvalError>,
    s: Result<SpecObject, SpecEvalError>,
) -> bool {
    match (r, s) {
        (Result::Ok(o), Result::Ok(so)) => o@ == so,
        (Result::Err(e), Result::Err(se)) => e@ == se,
        _ => false,
    }
}

/// The operators routed to the numeric-only evaluation path: both
/// operands must be numbers.
pub open spec fn spec_is_numeric_operator(t: SpecToken) -> bool {
    match t {
        SpecToken::Plus
        | SpecToken::Minus
        | SpecToken::Asterisk
        | SpecToken::Slash
        | SpecToken::Percent
        | SpecToken::LessThan
        | SpecToken::LessThanEqualTo
        | SpecToken::GreaterThan
        | SpecToken::GreaterThanEqualTo => true,
        _ => false,
    }
}

/// The operators whose operands may be two numbers or two booleans.
pub open spec fn spec_is_equality_operator(t: SpecToken) -> bool {
    match t {
        SpecToken::Equals | SpecToken::NotEquals | SpecToken::Or | SpecToken::DoublePipe => true,
        _ => false,
    }
}

/// A numeric value widened to a double: an integer is converted, a
/// double is taken as it is, anything else is not numeric.
pub open spec fn spec_object_float(o: SpecObject) -> Option<u64> {
    match o {
        SpecObject::Int(n) => Option::Some(fp_of_int(n)),
        SpecObject::Double(b) => Option::Some(b),
        _ => Option::None,
    }
}

/// One binary operator applied to two doubles given by bit pattern.
/// Arithmetic yields a `Double`; comparisons yield a `Bool`.
pub open spec fn spec_apply_operator(op: SpecToken, left: u64, right: u64) -> SpecObject {
    match op {
        SpecToken::Plus => SpecObject::Double(fp_add(left, right)),
        SpecToken::Minus => SpecObject::Double(fp_sub(left, right)),
        SpecToken::Asterisk => SpecObject::Double(fp_mul(left, right)),
        SpecToken::Slash => SpecObject::Double(fp_div(left, right)),
        SpecToken::Percent => SpecObject::Double(fp_rem(left, right)),
        SpecToken::LessThan => SpecObject::Bool(fp_lt(left, right)),
        SpecToken::LessThanEqualTo => SpecObject::Bool(fp_le(left, right)),
        SpecToken::GreaterThan => SpecObject::Bool(fp_gt(left, right)),
        SpecToken::GreaterThanEqualTo => SpecObject::Bool(fp_ge(left, right)),
        SpecToken::Equals => SpecObject::Bool(fp_eq(left, right)),
        SpecToken::NotEquals => SpecObject::Bool(!fp_eq(left, right)),
        _ => SpecObject::Bool(false),
    }
}

/// The operators `spec_apply_operator` gives a meaning to.
pub open spec fn spec_is_float_operator(t: SpecToken) -> bool {
    spec_is_numeric_operator(t) || t == SpecToken::Equals || t == SpecToken::NotEquals
}

/// A prefix operator applied to an evaluated operand: `-` negates a
/// number (keeping its kind), `!` and `not` negate a boolean.
pub open spec fn spec_eval_prefix(op: SpecToken, v: SpecObject) -> Result<
    SpecObject,
    SpecEvalError,
> {
    match op {
        SpecToken::Minus => match v {
            SpecObject::Int(n) => Result::Ok(
                SpecObject::Int(if n == i64::MIN { i64::MIN } else { (-n) as i64 }),
            ),
            SpecObject::Double(b) => Result::Ok(SpecObject::Double(fp_mul(NEG_ONE_BITS, b))),
            _ => Result::Err(SpecEvalError::ExpectedObjectXFoundY { expected: "number"@, found: v }),
        },
        SpecToken::Bang | SpecToken::Not => match v {
            SpecObject::Bool(b) => Result::Ok(SpecObject::Bool(!b)),
            _ => Result::Err(SpecEvalError::ExpectedObjectXFoundY { expected: "bool"@, found: v }),
        },
        _ => Result::Err(
            SpecEvalError::ExpectedTokenXFoundY { expected: "prefix operator"@, found: op },
        ),
    }
}

/// A numeric-family operator applied to two evaluated operands: both
/// must be numbers; mixed kinds widen to double.
pub open spec fn spec_eval_numeric_values(op: SpecToken, lv: SpecObject, rv: SpecObject) -> Result<
    SpecObject,
    SpecEvalError,
> {
    match (spec_object_float(lv), spec_object_float(rv)) {
        (Option::Some(l), Option::Some(r)) => Result::Ok(spec_apply_operator(op, l, r)),
        _ => Result::Err(
            SpecEvalError::UnExpectedOperatorOperandFound { operator: op, left: lv, right: rv },
        ),
    }
}

/// An equality-family operator applied to two evaluated operands: two
/// numbers are compared as doubles; two booleans are compared or
/// or-ed; anything else is rejected. `or` on numbers is rejected, as
/// it needs booleans.
pub open spec fn spec_eval_equality_values(op: SpecToken, lv: SpecObject, rv: SpecObject) -> Result<
    SpecObject,
    SpecEvalError,
> {
    match (lv, rv) {
        (SpecObject::Bool(a), SpecObject::Bool(b)) => match op {
            SpecToken::Equals => Result::Ok(SpecObject::Bool(a == b)),
            SpecToken::NotEquals => Result::Ok(SpecObject::Bool(a != b)),
            SpecToken::Or | SpecToken::DoublePipe => Result::Ok(SpecObject::Bool(a || b)),
            _ => Result::Err(
                SpecEvalError::ExpectedTokenXFoundY { expected: "equality operator"@, found: op },
            ),
        },
        _ => match (spec_object_float(lv), spec_object_float(rv)) {
            (Option::Some(l), Option::Some(r)) => {
                if op == SpecToken::Equals || op == SpecToken::NotEquals {
                    Result::Ok(spec_apply_operator(op, l, r))
                } else {
                    Result::Err(
                        SpecEvalError::UnExpectedOperatorOperandFound {
                            operator: op,
                            left: lv,
                            right: rv,
                        },
                    )
                }
            },
            _ => Result::Err(
                SpecEvalError::UnExpectedOperatorOperandFound { operator: op, left: lv, right: rv },
            ),
        },
    }
}

/// What an expression evaluates to against a context: the meaning of
/// the formula language, one clause per node kind.
pub open spec fn spec_eval(e: SpecExpression, ctx: Seq<(Seq<char>, SpecObject)>) -> Result<
    SpecObject,
    SpecEvalError,
>
    decreases e,
{
    match e {
        SpecExpression::Nil => Result::Err(
            SpecEvalError::ExpectedExpressionXFoundY { expected: "expression"@, found: e },
        ),
        SpecExpression::Int(n) => Result::Ok(SpecObject::Int(n)),
        SpecExpression::Double(b) => Result::Ok(SpecObject::Double(b)),
        SpecExpression::Bool(b) => Result::Ok(SpecObject::Bool(b)),
        SpecExpression::Str(s) => Result::Ok(SpecObject::Str(s)),
        SpecExpression::Ident(w) => match spec_lookup(ctx, w) {
            Option::Some(o) => Result::Ok(o),
            Option::None => Result::Err(SpecEvalError::ReferenceNotFound(w)),
        },
        SpecExpression::Prefix { operator, expression } => match spec_eval(*expression, ctx) {
            Result::Err(er) => Result::Err(er),
            Result::Ok(v) => spec_eval_prefix(operator, v),
        },
        SpecExpression::Infix { operator, left, right } => {
            if spec_is_numeric_operator(operator) {
                match spec_eval(*left, ctx) {
                    Result::Err(er) => Result::Err(er),
                    Result::Ok(lv) => match spec_eval(*right, ctx) {
                        Result::Err(er) => Result::Err(er),
                        Result::Ok(rv) => spec_eval_numeric_values(operator, lv, rv),
                    },
                }
            } else if spec_is_equality_operator(operator) {
                match spec_eval(*left, ctx) {
                    Result::Err(er) => Result::Err(er),
                    Result::Ok(lv) => match spec_eval(*right, ctx) {
                        Result::Err(er) => Result::Err(er),
                        Result::Ok(rv) => spec_eval_equality_values(operator, lv, rv),
                    },
                }
            } else {
                Result::Err(SpecEvalError::UnExpectedTokenFound { token: operator })
            }
        },
        SpecExpression::Call { function, arguments } => match *function {
            SpecExpression::Ident(name) => {
                if name == "if"@ {
                    if arguments.len() != 3 {
                        Result::Err(
                            SpecEvalError::MissMatchFunctionArguements {
                                expected: 3,
                                found: (arguments.len() % 256) as u8,
                            },
                        )
                    } else {
                        match spec_eval(arguments[0], ctx) {
                            Result::Err(er) => Result::Err(er),
                            Result::Ok(c) => match c {
                                SpecObject::Bool(true) => spec_eval(arguments[1], ctx),
                                SpecObject::Bool(false) => spec_eval(arguments[2], ctx),
                                _ => Result::Err(
                                    SpecEvalError::ExpectedObjectXFoundY {
                                        expected: "bool"@,
                                        found: c,
                                    },
                                ),
                            },
                        }
                    }
                } else {
                    Result::Err(
                        SpecEvalError::ExpectedExpressionXFoundY {
                            expected: "built-in function"@,
                            found: SpecExpression::Ident(name),
                        },
                    )
                }
            },
            _ => Result::Err(
                SpecEvalError::ExpectedExpressionXFoundY {
                    expected: "function name"@,
                    found: *function,
                },
            ),
        },
    }
}

/// One binary operator applied to two doubles given by bit pattern.
pub fn apply_operator_to_float_values(operator: &Token, left: u64, right: u64) -> (r: Object)
    requires
        spec_is_float_operator(operator@),
    ensures
        r@ == spec_apply_operator(operator@, left, right),
{
    match operator {
        Token::Plus => Object::Double(add_bits(left, right)),
        Token::Minus => Object::Double(sub_bits(left, right)),
        Token::Asterisk => Object::Double(mul_bits(left, right)),
        Token::Slash => Object::Double(div_bits(left, right)),
        Token::Percent => Object::Double(rem_bits(left, right)),
        Token::LessThan => Object::Bool(lt_bits(left, right)),
        Token::LessThanEqualTo => Object::Bool(le_bits(left, right)),
        Token::GreaterThan => Object::Bool(gt_bits(left, right)),
        Token::GreaterThanEqualTo => Object::Bool(ge_bits(left, right)),
        Token::Equals => Object::Bool(eq_bits(left, right)),
        Token::NotEquals => Object::Bool(!eq_bits(left, right)),
        _ => unreached(),
    }
}

/// A numeric value widened to a double, or `None` when the value is
/// not numeric.
fn object_float(o: &Object) -> (r: Option<u64>)
    ensures
        r == spec_object_float(o@),
{
    match o {
        Object::Int(n) => Option::Some(int_to_bits(*n)),
        Object::Double(b) => Option::Some(*b),
        _ => Option::None,
    }
}

/// A variable reference resolved against the context; a missing name
/// is reported by `ReferenceNotFound`.
pub fn eval_ident(ident: &String, context: &Context) -> (r: Result<Object, EvalError>)
    ensures
        obj_result_matches(r, spec_eval(SpecExpression::Ident(ident@), context@)),
{
    match context.get(ident.as_str()) {
        Option::Some(object) => Result::Ok(object),
        Option::None => Result::Err(EvalError::ReferenceNotFound(ident.clone())),
    }
}

/// A prefix node evaluated: the operand first, then the operator.
pub fn eval_prefix_expression(expression: &Expression, context: &Context) -> (r: Result<
    Object,
    EvalError,
>)
    requires
        expression matches Expression::PrefixExpression { .. },
    ensures
        obj_result_matches(r, spec_eval(expression@, context@)),
    decreases expression, 1int,
{
    match expression {
        Expression::PrefixExpression { operator, expression: operand } => {
            let value = match eval(operand, context) {
                Result::Ok(v) => v,
                Result::Err(er) => {
                    return Result::Err(er);
                },
            };
            match operator {
                Token::Minus => match &value {
                    Object::Int(val) => {
                        if *val == i64::MIN {
                            Result::Ok(Object::Int(i64::MIN))
                        } else {
                            Result::Ok(Object::Int(-(*val)))
                        }
                    },
                    Object::Double(val) => Result::Ok(Object::Double(mul_bits(NEG_ONE_BITS, *val))),
                    _ => Result::Err(
                        EvalError::ExpectedObjectXFoundY { expected: "number", found: value },
                    ),
                },
                Token::Bang | Token::Not => match &value {
                    Object::Bool(val) => Result::Ok(Object::Bool(!*val)),
                    _ => Result::Err(
                        EvalError::ExpectedObjectXFoundY { expected: "bool", found: value },
                    ),
                },
                _ => Result::Err(
                    EvalError::ExpectedTokenXFoundY {
                        expected: "prefix operator",
                        found: operator.duplicate(),
                    },
                ),
            }
        },
        _ => unreached(),
    }
}

/// An infix node whose operator needs numeric operands: both sides
/// are evaluated, widened to doubles, and combined.
pub fn eval_numeric_infix_expression(expression: &Expression, context: &Context) -> (r: Result<
    Object,
    EvalError,
>)
    requires
        expression matches Expression::InfixExpression { operator, .. } && spec_is_numeric_operator(
            operator@,
        ),
    ensures
        obj_result_matches(r, spec_eval(expression@, context@)),
    decreases expression, 1int,
{
    match expression {
        Expression::InfixExpression { operator, left, right } => {
            let lv = match eval(left, context) {
                Result::Ok(v) => v,
                Result::Err(er) => {
                    return Result::Err(er);
                },
            };
            let rv = match eval(right, context) {
                Result::Ok(v) => v,
                Result::Err(er) => {
                    return Result::Err(er);
                },
            };
            let lf = object_float(&lv);
            let rf = object_float(&rv);
            match (lf, rf) {
                (Option::Some(l), Option::Some(r)) => {
                    Result::Ok(apply_operator_to_float_values(operator, l, r))
                },
                _ => Result::Err(
                    EvalError::UnExpectedOperatorOperandFound {
                        operator: operator.duplicate(),
                        left: lv,
                        right: rv,
                    },
                ),
            }
        },
        _ => unreached(),
    }
}

/// An infix node whose operator accepts two numbers or two booleans:
/// `==`, `!=`, `or`, `||`.
pub fn eval_infix_expression_where_operand_can_be_numerics_or_bools(
    expression: &Expression,
    context: &Context,
) -> (r: Result<Object, EvalError>)
    requires
        expression matches Expression::InfixExpression { operator, .. }
            && spec_is_equality_operator(operator@),
    ensures
        obj_result_matches(r, spec_eval(expression@, context@)),
    decreases expression, 1int,
{
    match expression {
        Expression::InfixExpression { operator, left, right } => {
            let lv = match eval(left, context) {
                Result::Ok(v) => v,
                Result::Err(er) => {
                    return Result::Err(er);
                },
            };
            let rv = match eval(right, context) {
                Result::Ok(v) => v,
                Result::Err(er) => {
                    return Result::Err(er);
                },
            };
            match (&lv, &rv) {
                (Object::Bool(a), Object::Bool(b)) => match operator {
                    Token::Equals => Result::Ok(Object::Bool(*a == *b)),
                    Token::NotEquals => Result::Ok(Object::Bool(*a != *b)),
                    Token::Or | Token::DoublePipe => Result::Ok(Object::Bool(*a || *b)),
                    _ => unreached(),
                },
                _ => {
                    let lf = object_float(&lv);
                    let rf = object_float(&rv);
                    match (lf, rf) {
                        (Option::Some(l), Option::Some(r)) => match operator {
                            Token::Equals | Token::NotEquals => {
                                Result::Ok(apply_operator_to_float_values(operator, l, r))
                            },
                            _ => Result::Err(
                                EvalError::UnExpectedOperatorOperandFound {
                                    operator: operator.duplicate(),
                                    left: lv,
                                    right: rv,
                                },
                            ),
                        },
                        _ => Result::Err(
                            EvalError::UnExpectedOperatorOperandFound {
                                operator: operator.duplicate(),
                                left: lv,
                                right: rv,
                            },
                        ),
                    }
                },
            }
        },
        _ => unreached(),
    }
}

/// An infix node dispatched by operator family; an operator outside
/// both families is rejected without evaluating the operands.
pub fn eval_infix_expression(expression: &Expression, context: &Context) -> (r: Result<
    Object,
    EvalError,
>)
    requires
        expression matches Expression::InfixExpression { .. },
    ensures
        obj_result_matches(r, spec_eval(expression@, context@)),
    decreases expression, 2int,
{
    match expression {
        Expression::InfixExpression { operator, .. } => {
            match operator {
                Token::Plus
                | Token::Minus
                | Token::Asterisk
                | Token::Slash
                | Token::LessThan
                | Token::LessThanEqualTo
                | Token::GreaterThan
                | Token::GreaterThanEqualTo
                | Token::Percent => eval_numeric_infix_expression(expression, context),
                Token::Equals | Token::NotEquals | Token::DoublePipe | Token::Or => {
                    eval_infix_expression_where_operand_can_be_numerics_or_bools(
                        expression,
                        context,
                    )
                },
                _ => Result::Err(
                    EvalError::UnExpectedTokenFound { token: operator.duplicate() },
                ),
            }
        },
        _ => unreached(),
    }
}

/// A call node evaluated: the callee must be the built-in `if`, with
/// exactly three arguments; the condition picks the branch, and only
/// that branch is evaluated.
pub fn eval_fn_call(expression: &Expression, context: &Context) -> (r: Result<Object, EvalError>)
    requires
        expression matches Expression::CallExpression { .. },
    ensures
        obj_result_matches(r, spec_eval(expression@, context@)),
    decreases expression, 1int,
{
    match expression {
        Expression::CallExpression { function, arguments } => {
            proof {
                crate::expression::lemma_view_arguments(arguments@);
                assert(match expression@ {
                    SpecExpression::Call { function: sf, arguments: sa } => *sf == (**function)@
                        && sa == crate::expression::spec_view_arguments(arguments@),
                    _ => false,
                });
            }
            let function_name = match &**function {
                Expression::Ident(name) => name,
                _ => {
                    return Result::Err(
                        EvalError::ExpectedExpressionXFoundY {
                            expected: "function name",
                            found: (**function).duplicate(),
                        },
                    );
                },
            };
            if !str_eq(function_name.as_str(), "if") {
                return Result::Err(
                    EvalError::ExpectedExpressionXFoundY {
                        expected: "built-in function",
                        found: Expression::Ident(function_name.clone()),
                    },
                );
            }
            if arguments.len() != 3 {
                return Result::Err(
                    EvalError::MissMatchFunctionArguements {
                        expected: 3,
                        found: (arguments.len() % 256) as u8,
                    },
                );
            }
            let condition = match eval(&arguments[0], context) {
                Result::Ok(v) => v,
                Result::Err(er) => {
                    return Result::Err(er);
                },
            };
            let is_true = match &condition {
                Object::Bool(b) => *b,
                _ => {
                    return Result::Err(
                        EvalError::ExpectedObjectXFoundY { expected: "bool", found: condition },
                    );
                },
            };
            if is_true {
                eval(&arguments[1], context)
            } else {
                eval(&arguments[2], context)
            }
        },
        _ => unreached(),
    }
}

/// Does the source hold no token beyond the end-of-input marker? True
/// of the empty source and of one made of whitespace alone.
pub open spec fn spec_source_is_blank(s: Seq<char>) -> bool {
    spec_skip_whitespace(s, 0) == s.len() as int
}

/// What a whole source text evaluates to against a context: reject a
/// source holding no token, lex, parse one expression, and evaluate
/// it.
pub open spec fn spec_evaluate(s: Seq<char>, ctx: Seq<(Seq<char>, SpecObject)>) -> Result<
    SpecObject,
    SpecEvalError,
> {
    if spec_source_is_blank(s) {
        Result::Err(
            SpecEvalError::ParseExpressionError { error: SpecParseError::NothingToParse },
        )
    } else {
        match spec_parse_expression(spec_tokens_from(s, 0), 0, 0) {
            Result::Err(e) => Result::Err(SpecEvalError::ParseExpressionError { error: e }),
            Result::Ok((e, _)) => spec_eval(e, ctx),
        }
    }
}

/// An expression evaluated against a context: the heart of the
/// evaluator, one case per node kind.
pub fn eval(expression: &Expression, context: &Context) -> (r: Result<Object, EvalError>)
    ensures
        obj_result_matches(r, spec_eval(expression@, context@)),
    decreases expression, 3int,
{
    match expression {
        Expression::Int(val) => Result::Ok(Object::Int(*val)),
        Expression::Double(val) => Result::Ok(Object::Double(*val)),
        Expression::Str(val) => Result::Ok(Object::Str(val.clone())),
        Expression::Bool(val) => Result::Ok(Object::Bool(*val)),
        Expression::InfixExpression { .. } => eval_infix_expression(expression, context),
        Expression::PrefixExpression { .. } => eval_prefix_expression(expression, context),
        Expression::CallExpression { .. } => eval_fn_call(expression, context),
        Expression::Ident(ident) => eval_ident(ident, context),
        Expression::Nil => Result::Err(
            EvalError::ExpectedExpressionXFoundY { expected: "expression", found: Expression::Nil },
        ),
    }
}

/// Evaluate a whole source text against a context: lex, parse one
/// expression, and walk it. An empty source is rejected with
/// `NothingToParse`; any parse error comes back wrapped; evaluation
/// errors come back as they are.
pub fn eval_input(input: &str, context: Context) -> (r: Result<Object, EvalError>)
    ensures
        obj_result_matches(r, spec_evaluate(input@, context@)),
{
    let lexer = Lexer::from_input(input);
    let mut parser = match Parser::new(lexer) {
        Result::Ok(p) => p,
        Result::Err(err) => {
            return Result::Err(EvalError::ParseExpressionError { error: err });
        },
    };
    let expression = match parser.parse() {
        Result::Ok(e) => e,
        Result::Err(err) => {
            return Result::Err(EvalError::ParseExpressionError { error: err });
        },
    };
    eval(&expression, &context)
}

} // verus!
