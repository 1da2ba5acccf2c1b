use vstd::prelude::*;
use crate::evaluator::{
    obj_result_matches, spec_eval, spec_evaluate, SpecEvalError,
};
use crate::expression::SpecExpression;
use crate::fp::fp_of_decimal;
use crate::lexer::{
    spec_digits_val, spec_is_digit, spec_is_number_char, spec_number_end, spec_number_token,
    spec_skip_whitespace, spec_tokens_from,
};
use crate::object::{Object, SpecObject};
use crate::parser::spec_parse_expression;
use crate::token::SpecToken;

verus! {

broadcast use vstd::seq::group_seq_axioms;

// ---------------------------------------------------------------------
// Laws of the language, stated over the specification functions that
// the executable pipeline is proved against.
// ---------------------------------------------------------------------

/// Helper: a run made of digits runs to the end of the numeric scan.
proof fn lemma_number_scan_runs_out(s: Seq<char>, i: int)
    requires
        0 <= i <= s.len(),
        forall|j: int| 0 <= j < s.len() ==> spec_is_number_char(#[trigger] s[j]),
    ensures
        spec_number_end(s, i) == s.len(),
    decreases s.len() - i,
{
    if i < s.len() {
        lemma_number_scan_runs_out(s, i + 1);
    }
}

/// Helper: a source text that is one numeric literal lexes to that
/// literal and the end-of-input token, nothing else.
proof fn lemma_number_source_tokens(s: Seq<char>)
    requires
        s.len() > 0,
        spec_is_digit(s[0]),
        forall|j: int| 0 <= j < s.len() ==> spec_is_number_char(#[trigger] s[j]),
    ensures
        spec_tokens_from(s, 0) =~= seq![spec_number_token(s), SpecToken::EOF],
{
    assert(spec_skip_whitespace(s, 0) == 0);
    lemma_number_scan_runs_out(s, 0);
    assert(s.subrange(0, s.len() as int) =~= s);
    assert(spec_skip_whitespace(s, s.len() as int) == s.len() as int);
    assert(spec_tokens_from(s, s.len() as int) =~= seq![SpecToken::EOF]);
}

/// Helper: a source text whose token stream is one literal token and
/// the end-of-input token parses to that literal and evaluates to the
/// corresponding value.
proof fn lemma_single_token_parses(t: SpecToken, e: SpecExpression)
    requires
        match t {
            SpecToken::IntLiteral(n) => e == SpecExpression::Int(n),
            SpecToken::DoubleLiteral(b) => e == SpecExpression::Double(b),
            _ => false,
        },
    ensures
        spec_parse_expression(seq![t, SpecToken::EOF], 0, 0) == Result::<
            (SpecExpression, int),
            crate::expression::SpecParseError,
        >::Ok((e, 0)),
{
}

/// Every valid integer literal evaluates to exactly its value, as an
/// `Int`, in any context.
pub proof fn lemma_integer_literal_evaluates(s: Seq<char>, ctx: Seq<(Seq<char>, SpecObject)>)
    requires
        s.len() > 0,
        forall|j: int| 0 <= j < s.len() ==> spec_is_digit(#[trigger] s[j]),
        spec_digits_val(s) <= i64::MAX as int,
    ensures
        spec_evaluate(s, ctx) == Result::<SpecObject, SpecEvalError>::Ok(
            SpecObject::Int(spec_digits_val(s) as i64),
        ),
{
    assert(forall|j: int| 0 <= j < s.len() ==> spec_is_number_char(#[trigger] s[j]));
    lemma_number_source_tokens(s);
    assert(!crate::lexer::spec_has_dot(s));
    let n = spec_digits_val(s) as i64;
    lemma_single_token_parses(SpecToken::IntLiteral(n), SpecExpression::Int(n));
}

/// Every valid decimal literal evaluates to exactly the double it
/// denotes, in any context.
pub proof fn lemma_decimal_literal_evaluates(
    s: Seq<char>,
    ctx: Seq<(Seq<char>, SpecObject)>,
    b: u64,
)
    requires
        s.len() > 0,
        spec_is_digit(s[0]),
        forall|j: int| 0 <= j < s.len() ==> spec_is_number_char(#[trigger] s[j]),
        crate::lexer::spec_has_dot(s),
        fp_of_decimal(s) == Option::Some(b),
    ensures
        spec_evaluate(s, ctx) == Result::<SpecObject, SpecEvalError>::Ok(SpecObject::Double(b)),
{
    lemma_number_source_tokens(s);
    lemma_single_token_parses(SpecToken::DoubleLiteral(b), SpecExpression::Double(b));
}

/// Arithmetic always yields a `Double`: whenever an infix node whose
/// operator is `+`, `-`, `*`, `/` or `%` evaluates successfully, the
/// result is a `Double`, never an `Int`.
pub proof fn lemma_arithmetic_yields_double(
    op: SpecToken,
    left: SpecExpression,
    right: SpecExpression,
    ctx: Seq<(Seq<char>, SpecObject)>,
)
    requires
        op == SpecToken::Plus || op == SpecToken::Minus || op == SpecToken::Asterisk || op
            == SpecToken::Slash || op == SpecToken::Percent,
    ensures
        match spec_eval(
            SpecExpression::Infix { operator: op, left: Box::new(left), right: Box::new(right) },
            ctx,
        ) {
            Result::Ok(v) => v matches SpecObject::Double(_),
            Result::Err(_) => true,
        },
{
}

/// Relational and equality operators always yield a `Bool`: whenever
/// an infix node whose operator is `<`, `<=`, `>`, `>=`, `==`, `!=`,
/// `or` or `||` evaluates successfully, the result is a `Bool`.
pub proof fn lemma_comparison_yields_bool(
    op: SpecToken,
    left: SpecExpression,
    right: SpecExpression,
    ctx: Seq<(Seq<char>, SpecObject)>,
)
    requires
        op == SpecToken::LessThan || op == SpecToken::LessThanEqualTo || op
            == SpecToken::GreaterThan || op == SpecToken::GreaterThanEqualTo || op
            == SpecToken::Equals || op == SpecToken::NotEquals || op == SpecToken::Or || op
            == SpecToken::DoublePipe,
    ensures
        match spec_eval(
            SpecExpression::Infix { operator: op, left: Box::new(left), right: Box::new(right) },
            ctx,
        ) {
            Result::Ok(v) => v matches SpecObject::Bool(_),
            Result::Err(_) => true,
        },
{
}

/// The built-in `if` takes only the chosen branch: when its condition
/// evaluates to a boolean, the call evaluates to exactly what that
/// branch evaluates to — the other branch plays no part, even where
/// it would fail.
pub proof fn lemma_if_short_circuits(
    condition: SpecExpression,
    consequent: SpecExpression,
    alternative: SpecExpression,
    ctx: Seq<(Seq<char>, SpecObject)>,
    b: bool,
)
    requires
        spec_eval(condition, ctx) == Result::<SpecObject, SpecEvalError>::Ok(SpecObject::Bool(b)),
    ensures
        spec_eval(
            SpecExpression::Call {
                function: Box::new(SpecExpression::Ident("if"@)),
                arguments: seq![condition, consequent, alternative],
            },
            ctx,
        ) == if b {
            spec_eval(consequent, ctx)
        } else {
            spec_eval(alternative, ctx)
        },
{
}

/// A source holding no token — empty, or whitespace alone — fails
/// with `NothingToParse`. (That this error arises on no other source
/// is carried by `Parser::new`'s contract, which returns it exactly
/// when the source is blank.)
pub proof fn lemma_blank_source_rejected(s: Seq<char>, ctx: Seq<(Seq<char>, SpecObject)>)
    requires
        crate::evaluator::spec_source_is_blank(s),
    ensures
        spec_evaluate(s, ctx) == Result::<SpecObject, SpecEvalError>::Err(
            SpecEvalError::ParseExpressionError {
                error: crate::expression::SpecParseError::NothingToParse,
            },
        ),
{
}

/// Evaluation is a pure function: two results that both meet the
/// evaluator's contract on the same source and context agree, value
/// for value and error for error.
pub proof fn lemma_evaluate_deterministic(
    r1: Result<Object, crate::evaluator::EvalError>,
    r2: Result<Object, crate::evaluator::EvalError>,
    s: Seq<char>,
    ctx: Seq<(Seq<char>, SpecObject)>,
)
    requires
        obj_result_matches(r1, spec_evaluate(s, ctx)),
        obj_result_matches(r2, spec_evaluate(s, ctx)),
    ensures
        match (r1, r2) {
            (Result::Ok(a), Result::Ok(b)) => a@ == b@,
            (Result::Err(a), Result::Err(b)) => a@ == b@,
            _ => false,
        },
{
}

} // verus!
