use vstd::prelude::*;
use crate::expression::{
    Expression, ParseExpressionError, Precedence, SpecExpression, SpecParseError,
};
use crate::lexer::{spec_tokens_from, Lexer};
use crate::token::{spec_precedence, SpecToken, Token};

verus! {

broadcast use vstd::std_specs::vec::group_vec_axioms, vstd::seq::group_seq_axioms;

// ---------------------------------------------------------------------
// The specification of parsing: which expression (or error) a token
// stream denotes, by precedence climbing. Cursor positions index into
// the token sequence; every position at or past the end reads as the
// end-of-input token, which mirrors how the parser pads the stream
// once the lexer runs dry.
// ---------------------------------------------------------------------

/// The token at position `i`, with end-of-input padding.
pub open spec fn tok_at(ts: Seq<SpecToken>, i: int) -> SpecToken {
    if 0 <= i < ts.len() {
        ts[i]
    } else {
        SpecToken::EOF
    }
}

/// One step forward, never past the end of the sequence.
pub open spec fn spec_advance(ts: Seq<SpecToken>, i: int) -> int {
    if i < ts.len() {
        i + 1
    } else {
        i
    }
}

/// Is this token one the infix dispatch builds a binary node from?
pub open spec fn spec_is_infix_operator(t: SpecToken) -> bool {
    match t {
        SpecToken::Plus
        | SpecToken::Minus
        | SpecToken::Asterisk
        | SpecToken::Slash
        | SpecToken::Percent
        | SpecToken::Equals
        | SpecToken::NotEquals
        | SpecToken::NotEqualsAngleBrackets
        | SpecToken::LessThan
        | SpecToken::LessThanEqualTo
        | SpecToken::GreaterThan
        | SpecToken::GreaterThanEqualTo
        | SpecToken::Or
        | SpecToken::DoublePipe => true,
        _ => false,
    }
}

/// A grouped sub-expression: past the `(` at `i`, one expression at
/// the lowest ceiling, then a required `)`.
pub open spec fn spec_parse_grouped_expression(ts: Seq<SpecToken>, i: int) -> Result<
    (SpecExpression, int),
    SpecParseError,
>
    decreases ts.len() - i, 1int,
{
    if tok_at(ts, i) != SpecToken::LParen {
        Result::Err(SpecParseError::UnexpectedToken { token: tok_at(ts, i) })
    } else {
        match spec_parse_expression(ts, spec_advance(ts, i), 0) {
            Result::Err(e) => Result::Err(e),
            Result::Ok((e, j)) => {
                let k = spec_advance(ts, j);
                if tok_at(ts, k) == SpecToken::RParen {
                    Result::Ok((e, k))
                } else {
                    Result::Err(
                        SpecParseError::ExpectedXFoundY {
                            expected: "Token::RParen"@,
                            found: tok_at(ts, k),
                        },
                    )
                }
            },
        }
    }
}

/// A bracketed variable reference: past the `[` at `i`, an identifier
/// must follow; the cursor ends on the `]` (the infix loop steps over
/// it).
pub open spec fn spec_parse_bracket_ident_expression(ts: Seq<SpecToken>, i: int) -> Result<
    (SpecExpression, int),
    SpecParseError,
> {
    let j = spec_advance(ts, i);
    match tok_at(ts, j) {
        SpecToken::Ident(w) => Result::Ok((SpecExpression::Ident(w), spec_advance(ts, j))),
        t => Result::Err(SpecParseError::ExpectedXFoundY { expected: "Identifier"@, found: t }),
    }
}

/// A prefix form: the operator at `i`, then its operand parsed at the
/// operator's own precedence.
pub open spec fn spec_parse_prefix_expression(ts: Seq<SpecToken>, i: int) -> Result<
    (SpecExpression, int),
    SpecParseError,
>
    decreases ts.len() - i, 1int,
{
    let operator = tok_at(ts, i);
    if operator == SpecToken::EOF {
        Result::Err(SpecParseError::UnexpectedToken { token: operator })
    } else {
        match spec_parse_expression(ts, spec_advance(ts, i), spec_precedence(operator)) {
            Result::Err(e) => Result::Err(e),
            Result::Ok((e, j)) => Result::Ok(
                (
                    SpecExpression::Prefix { operator, expression: Box::new(e) },
                    j,
                ),
            ),
        }
    }
}

/// An infix form: the operator at `i`, then the right operand parsed
/// at the operator's precedence, joined with the left operand.
pub open spec fn spec_parse_infix_expression(
    ts: Seq<SpecToken>,
    i: int,
    left: SpecExpression,
) -> Result<(SpecExpression, int), SpecParseError>
    decreases ts.len() - i, 9int,
{
    let operator = tok_at(ts, i);
    if operator == SpecToken::EOF {
        Result::Err(SpecParseError::UnexpectedToken { token: operator })
    } else {
        match spec_parse_expression(ts, spec_advance(ts, i), spec_precedence(operator)) {
            Result::Err(e) => Result::Err(e),
            Result::Ok((right, k)) => Result::Ok(
                (
                    SpecExpression::Infix {
                        operator,
                        left: Box::new(left),
                        right: Box::new(right),
                    },
                    k,
                ),
            ),
        }
    }
}

/// The comma-separated argument list of a call, the cursor standing on
/// the first argument (or on the closing `)` for an empty list); the
/// cursor ends just past the `)`. A trailing comma is tolerated.
pub open spec fn spec_parse_call_arguments(
    ts: Seq<SpecToken>,
    i: int,
    acc: Seq<SpecExpression>,
) -> Result<(Seq<SpecExpression>, int), SpecParseError>
    decreases ts.len() - i, 10int,
{
    if tok_at(ts, i) == SpecToken::RParen {
        Result::Ok((acc, spec_advance(ts, i)))
    } else if tok_at(ts, i) == SpecToken::EOF {
        Result::Err(SpecParseError::UnexpectedToken { token: SpecToken::EOF })
    } else {
        match spec_parse_expression(ts, i, 0) {
            Result::Err(e) => Result::Err(e),
            Result::Ok((a, j)) => {
                let j2 = spec_advance(ts, j);
                let j3 = if tok_at(ts, j2) == SpecToken::Comma {
                    spec_advance(ts, j2)
                } else {
                    j2
                };
                let j4 = if i + 1 <= j3 && j3 <= ts.len() {
                    j3
                } else {
                    i + 1
                };
                spec_parse_call_arguments(ts, j4, acc.push(a))
            },
        }
    }
}

/// A call form: past the `(` at `i`, the argument list, wrapped
/// around the callee; the cursor ends just past the `)`.
pub open spec fn spec_parse_function_call_expression(
    ts: Seq<SpecToken>,
    i: int,
    function: SpecExpression,
) -> Result<(SpecExpression, int), SpecParseError>
    decreases ts.len() - i, 1int,
{
    if tok_at(ts, i) != SpecToken::LParen {
        Result::Err(SpecParseError::UnexpectedToken { token: tok_at(ts, i) })
    } else {
        match spec_parse_call_arguments(ts, spec_advance(ts, i), Seq::empty()) {
            Result::Err(e) => Result::Err(e),
            Result::Ok((args, k)) => Result::Ok(
                (
                    SpecExpression::Call { function: Box::new(function), arguments: args },
                    k,
                ),
            ),
        }
    }
}

/// The infix loop: while the upcoming token is not end-of-input and
/// binds more tightly than the ceiling, absorb it — a binary operator
/// extends the chain, a `(` turns what was parsed into a call.
pub open spec fn spec_parse_infix_chain(
    ts: Seq<SpecToken>,
    i: int,
    precedence: int,
    left: SpecExpression,
) -> Result<(SpecExpression, int), SpecParseError>
    decreases ts.len() - i, 8int,
{
    if tok_at(ts, i + 1) != SpecToken::EOF && spec_precedence(tok_at(ts, i + 1)) > precedence {
        let j = spec_advance(ts, i);
        let step = if spec_is_infix_operator(tok_at(ts, j)) {
            spec_parse_infix_expression(ts, j, left)
        } else if tok_at(ts, j) == SpecToken::LParen {
            spec_parse_function_call_expression(ts, j, left)
        } else {
            Result::Err(SpecParseError::UnexpectedToken { token: tok_at(ts, j) })
        };
        match step {
            Result::Err(e) => Result::Err(e),
            Result::Ok((l2, k)) => {
                let k1 = if i + 1 <= k && k <= ts.len() {
                    k
                } else {
                    i + 1
                };
                spec_parse_infix_chain(ts, k1, precedence, l2)
            },
        }
    } else {
        Result::Ok((left, i))
    }
}

/// One expression parsed from position `i` under a precedence
/// ceiling: a primary form, then the infix loop. On success the
/// cursor index of the expression's last token (for a call: the index
/// just past its `)`) comes back with it.
pub open spec fn spec_parse_expression(ts: Seq<SpecToken>, i: int, precedence: int) -> Result<
    (SpecExpression, int),
    SpecParseError,
>
    decreases ts.len() - i, 9int,
{
    let primary = match tok_at(ts, i) {
        SpecToken::IntLiteral(n) => Result::Ok((SpecExpression::Int(n), i)),
        SpecToken::DoubleLiteral(b) => Result::Ok((SpecExpression::Double(b), i)),
        SpecToken::True => Result::Ok((SpecExpression::Bool(true), i)),
        SpecToken::False => Result::Ok((SpecExpression::Bool(false), i)),
        SpecToken::Ident(w) => Result::Ok((SpecExpression::Ident(w), i)),
        SpecToken::StringLiteral(w) => Result::Ok((SpecExpression::Str(w), i)),
        SpecToken::LBracket => spec_parse_bracket_ident_expression(ts, i),
        SpecToken::LParen => spec_parse_grouped_expression(ts, i),
        SpecToken::Minus | SpecToken::Not | SpecToken::Bang => spec_parse_prefix_expression(ts, i),
        t => Result::Err(SpecParseError::UnexpectedToken { token: t }),
    };
    match primary {
        Result::Err(e) => Result::Err(e),
        Result::Ok((left, j)) => {
            let j1 = if i <= j && j <= ts.len() {
                j
            } else {
                i
            };
            spec_parse_infix_chain(ts, j1, precedence, left)
        },
    }
}

// ---------------------------------------------------------------------
// The executable parser.
// ---------------------------------------------------------------------

/// Does the executable result agree with the specified one, view for
/// view? (The specified position travels separately, through `pos`.)
pub open spec fn expr_result_matches(
    r: Result<Expression, ParseExpressionError>,
    s: Result<(SpecExpression, int), SpecParseError>,
) -> bool {
    match (r, s) {
        (Result::Ok(x), Result::Ok((e, _))) => x@ == e,
        (Result::Err(a), Result::Err(b)) => a@ == b,
        _ => false,
    }
}

/// The token stream from position `k` on; empty past the end.
pub open spec fn spec_stream_rest(ts: Seq<SpecToken>, k: int) -> Seq<SpecToken> {
    if 0 <= k <= ts.len() {
        ts.skip(k)
    } else {
        Seq::empty()
    }
}

fn is_infix_operator_token(t: &Token) -> (r: bool)
    ensures
        r == spec_is_infix_operator(t@),
{
    match t {
        Token::Plus
        | Token::Minus
        | Token::Asterisk
        | Token::Slash
        | Token::Percent
        | Token::Equals
        | Token::NotEquals
        | Token::NotEqualsAngleBrackets
        | Token::LessThan
        | Token::LessThanEqualTo
        | Token::GreaterThan
        | Token::GreaterThanEqualTo
        | Token::Or
        | Token::DoublePipe => true,
        _ => false,
    }
}

/// The parser: the lexer it drains, the current token, and one token
/// of look-ahead; once the lexer is dry the look-ahead reads as the
/// end-of-input token forever. The ghost fields carry the full token
/// sequence and the cursor's place in it.
pub struct Parser {
    _lexer: Lexer,
    curr_token: Token,
    next_token: Token,
    pos: Ghost<int>,
    tokens: Ghost<Seq<SpecToken>>,
}

impl Parser {
    /// The source text under the parser.
    pub closed spec fn src(&self) -> Seq<char> {
        self._lexer.src()
    }

    /// The full token sequence of the source.
    pub closed spec fn toks(&self) -> Seq<SpecToken> {
        self.tokens@
    }

    /// The cursor: the index of the current token.
    pub closed spec fn position(&self) -> int {
        self.pos@
    }

    /// The parser state is consistent: the ghost token sequence is the
    /// lexing of the source, the cursor is in range, the two buffered
    /// tokens stand at the cursor, and the lexer holds exactly the
    /// tokens after them.
    pub closed spec fn wf(&self) -> bool {
        &&& self._lexer.wf()
        &&& self.tokens@ == spec_tokens_from(self._lexer.src(), 0)
        &&& 0 <= self.pos@ <= self.tokens@.len()
        &&& self.curr_token@ == tok_at(self.tokens@, self.pos@)
        &&& self.next_token@ == tok_at(self.tokens@, self.pos@ + 1)
        &&& self._lexer.remaining() == spec_stream_rest(self.tokens@, self.pos@ + 2)
    }

    /// A parser over the given lexer; a source holding no token beyond
    /// the end-of-input marker — empty or whitespace alone — is
    /// rejected at once.
    pub fn new(lexer: Lexer) -> (r: Result<Parser, ParseExpressionError>)
        requires
            lexer.wf(),
            lexer.pos() == 0,
            !lexer.eof_done(),
        ensures
            match r {
                Result::Ok(p) => {
                    &&& !crate::evaluator::spec_source_is_blank(lexer.src())
                    &&& p.wf()
                    &&& p.src() == lexer.src()
                    &&& p.toks() == spec_tokens_from(lexer.src(), 0)
                    &&& p.position() == 0
                },
                Result::Err(e) => crate::evaluator::spec_source_is_blank(lexer.src()) && e@
                    == SpecParseError::NothingToParse,
            },
    {
        let mut lexer = lexer;
        let ghost ts = spec_tokens_from(lexer.src(), 0);
        proof {
            assert(ts.len() >= 1);
            crate::lexer::lemma_skip_whitespace_bounds(lexer.src(), 0);
            let p0 = crate::lexer::spec_skip_whitespace(lexer.src(), 0);
            if p0 < lexer.src().len() {
                crate::lexer::lemma_token_after_not_eof(lexer.src(), p0);
            }
        }
        // The lexer always has at least the end-of-input token to give;
        // a first token that already is that marker means the source
        // holds nothing to parse.
        let curr_token = match lexer.next() {
            Option::Some(t) => t,
            Option::None => unreached(),
        };
        if matches!(curr_token, Token::EOF) {
            return Result::Err(ParseExpressionError::NothingToParse);
        }
        let next_token = match lexer.next() {
            Option::Some(t) => t,
            Option::None => Token::EOF,
        };
        proof {
            assert(lexer.remaining() =~= spec_stream_rest(ts, 2));
        }
        Result::Ok(Parser { _lexer: lexer, curr_token, next_token, pos: Ghost(0), tokens: Ghost(ts) })
    }

    /// The look-ahead token, one past the current one.
    fn peek_next(&self) -> (r: &Token)
        requires
            self.wf(),
        ensures
            r@ == tok_at(self.toks(), self.position() + 1),
    {
        &self.next_token
    }

    /// Step to the next token: the look-ahead becomes current, and the
    /// lexer refills the look-ahead, with end-of-input padding once it
    /// is dry.
    fn advance_token(&mut self)
        requires
            old(self).wf(),
        ensures
            final(self).wf(),
            final(self).toks() == old(self).toks(),
            final(self).src() == old(self).src(),
            final(self).position() == spec_advance(old(self).toks(), old(self).position()),
    {
        let t = match self._lexer.next() {
            Option::Some(token) => token,
            Option::None => Token::EOF,
        };
        core::mem::swap(&mut self.curr_token, &mut self.next_token);
        self.next_token = t;
        proof {
            self.pos@ = spec_advance(self.tokens@, self.pos@);
            assert(self._lexer.remaining() =~= spec_stream_rest(self.tokens@, self.pos@ + 2));
        }
    }

    /// Parse the remaining stream into one expression; what comes
    /// after that expression is left where it lies.
    pub fn parse(&mut self) -> (r: Result<Expression, ParseExpressionError>)
        requires
            old(self).wf(),
        ensures
            final(self).wf(),
            expr_result_matches(
                r,
                spec_parse_expression(old(self).toks(), old(self).position(), 0),
            ),
    {
        self.parse_expression(Precedence::Lowest)
    }

    /// A grouped sub-expression: the cursor stands on `(`; parse at
    /// the lowest ceiling and require the closing `)`.
    fn parse_grouped_expression(&mut self) -> (r: Result<Expression, ParseExpressionError>)
        requires
            old(self).wf(),
            old(self).curr_token@ == SpecToken::LParen,
        ensures
            final(self).wf(),
            final(self).toks() == old(self).toks(),
            final(self).src() == old(self).src(),
            final(self).position() >= old(self).position(),
            expr_result_matches(
                r,
                spec_parse_grouped_expression(old(self).toks(), old(self).position()),
            ),
            (spec_parse_grouped_expression(old(self).toks(), old(self).position()) matches
                Result::Ok((_, j)) ==> final(self).position() == j),
        decreases old(self).toks().len() - old(self).position(), 1int,
    {
        self.advance_token();
        let expression = match self.parse_expression(Precedence::Lowest) {
            Result::Ok(e) => e,
            Result::Err(e) => {
                return Result::Err(e);
            },
        };
        self.advance_token();
        match &self.curr_token {
            Token::RParen => Result::Ok(expression),
            _ => Result::Err(
                ParseExpressionError::ExpectedXFoundY {
                    expected: "Token::RParen",
                    found: self.curr_token.duplicate(),
                },
            ),
        }
    }

    /// A bracketed variable reference: the cursor stands on `[`; an
    /// identifier must follow, and the cursor ends on the `]` (the
    /// infix loop steps over it).
    fn parse_bracket_ident_expression(&mut self) -> (r: Result<Expression, ParseExpressionError>)
        requires
            old(self).wf(),
        ensures
            final(self).wf(),
            final(self).toks() == old(self).toks(),
            final(self).src() == old(self).src(),
            final(self).position() >= old(self).position(),
            expr_result_matches(
                r,
                spec_parse_bracket_ident_expression(old(self).toks(), old(self).position()),
            ),
            (spec_parse_bracket_ident_expression(old(self).toks(), old(self).position()) matches
                Result::Ok((_, j)) ==> final(self).position() == j),
    {
        self.advance_token();
        let x = match &self.curr_token {
            Token::Ident(ident) => Expression::Ident(ident.clone()),
            _ => {
                return Result::Err(
                    ParseExpressionError::ExpectedXFoundY {
                        expected: "Identifier",
                        found: self.curr_token.duplicate(),
                    },
                );
            },
        };
        self.advance_token();
        Result::Ok(x)
    }

    /// A prefix form: the cursor stands on the operator; its operand
    /// is parsed at the operator's own precedence.
    fn parse_prefix_expression(&mut self) -> (r: Result<Expression, ParseExpressionError>)
        requires
            old(self).wf(),
            old(self).curr_token@ != SpecToken::EOF,
        ensures
            final(self).wf(),
            final(self).toks() == old(self).toks(),
            final(self).src() == old(self).src(),
            final(self).position() >= old(self).position(),
            expr_result_matches(
                r,
                spec_parse_prefix_expression(old(self).toks(), old(self).position()),
            ),
            (spec_parse_prefix_expression(old(self).toks(), old(self).position()) matches
                Result::Ok((_, j)) ==> final(self).position() == j),
        decreases old(self).toks().len() - old(self).position(), 1int,
    {
        let prefix_operator = self.curr_token.duplicate();
        self.advance_token();
        let right_expression = match self.parse_expression(prefix_operator.get_precedence()) {
            Result::Ok(e) => e,
            Result::Err(e) => {
                return Result::Err(e);
            },
        };
        Result::Ok(
            Expression::PrefixExpression {
                operator: prefix_operator,
                expression: Box::new(right_expression),
            },
        )
    }

    /// An infix form: the cursor stands on the operator; the right
    /// operand is parsed at the operator's precedence and joined with
    /// the left one.
    fn parse_infix_expression(&mut self, left: Expression) -> (r: Result<
        Expression,
        ParseExpressionError,
    >)
        requires
            old(self).wf(),
            old(self).curr_token@ != SpecToken::EOF,
        ensures
            final(self).wf(),
            final(self).toks() == old(self).toks(),
            final(self).src() == old(self).src(),
            final(self).position() >= old(self).position(),
            expr_result_matches(
                r,
                spec_parse_infix_expression(old(self).toks(), old(self).position(), left@),
            ),
            (spec_parse_infix_expression(old(self).toks(), old(self).position(), left@) matches
                Result::Ok((_, j)) ==> final(self).position() == j),
        decreases old(self).toks().len() - old(self).position(), 9int,
    {
        let operator = self.curr_token.duplicate();
        self.advance_token();
        let right = match self.parse_expression(operator.get_precedence()) {
            Result::Ok(e) => e,
            Result::Err(e) => {
                return Result::Err(e);
            },
        };
        Result::Ok(
            Expression::InfixExpression {
                operator,
                left: Box::new(left),
                right: Box::new(right),
            },
        )
    }

    /// The argument list of a call: expressions at the lowest ceiling,
    /// separated by commas (a trailing comma is tolerated), up to the
    /// closing `)`; the cursor ends just past it.
    fn parse_call_arguments(&mut self, args: Vec<Box<Expression>>) -> (r: Result<
        Vec<Box<Expression>>,
        ParseExpressionError,
    >)
        requires
            old(self).wf(),
        ensures
            final(self).wf(),
            final(self).toks() == old(self).toks(),
            final(self).src() == old(self).src(),
            final(self).position() >= old(self).position(),
            ({
                let s = spec_parse_call_arguments(
                    old(self).toks(),
                    old(self).position(),
                    crate::expression::spec_view_arguments(args@),
                );
                match (r, s) {
                    (Result::Ok(v), Result::Ok((sq, j))) => crate::expression::spec_view_arguments(
                        v@,
                    ) == sq && final(self).position() == j,
                    (Result::Err(a), Result::Err(b)) => a@ == b,
                    _ => false,
                }
            }),
        decreases old(self).toks().len() - old(self).position(), 10int,
    {
        if matches!(self.curr_token, Token::RParen) {
            self.advance_token();
            return Result::Ok(args);
        }
        if matches!(self.curr_token, Token::EOF) {
            return Result::Err(ParseExpressionError::UnexpectedToken { token: Token::EOF });
        }
        let arg = match self.parse_expression(Precedence::Lowest) {
            Result::Ok(a) => a,
            Result::Err(e) => {
                return Result::Err(e);
            },
        };
        self.advance_token();
        if matches!(self.curr_token, Token::Comma) {
            self.advance_token();
        }
        let ghost prev = args@;
        let mut args2 = args;
        args2.push(Box::new(arg));
        proof {
            crate::expression::lemma_view_arguments(prev);
            crate::expression::lemma_view_arguments(args2@);
            assert(crate::expression::spec_view_arguments(args2@)
                =~= crate::expression::spec_view_arguments(prev).push(arg@));
        }
        self.parse_call_arguments(args2)
    }

    /// A call form: the cursor stands on the `(` after the callee;
    /// the arguments are gathered and wrapped around it.
    fn parse_function_call_expression(&mut self, function: Expression) -> (r: Result<
        Expression,
        ParseExpressionError,
    >)
        requires
            old(self).wf(),
            old(self).curr_token@ == SpecToken::LParen,
        ensures
            final(self).wf(),
            final(self).toks() == old(self).toks(),
            final(self).src() == old(self).src(),
            final(self).position() >= old(self).position(),
            expr_result_matches(
                r,
                spec_parse_function_call_expression(
                    old(self).toks(),
                    old(self).position(),
                    function@,
                ),
            ),
            (spec_parse_function_call_expression(old(self).toks(), old(self).position(), function@)
                matches Result::Ok((_, j)) ==> final(self).position() == j),
        decreases old(self).toks().len() - old(self).position(), 1int,
    {
        self.advance_token();
        let empty_args: Vec<Box<Expression>> = Vec::new();
        proof {
            crate::expression::lemma_view_arguments(empty_args@);
            assert(crate::expression::spec_view_arguments(empty_args@) =~= Seq::<
                SpecExpression,
            >::empty());
        }
        let args = match self.parse_call_arguments(empty_args) {
            Result::Ok(a) => a,
            Result::Err(e) => {
                return Result::Err(e);
            },
        };
        Result::Ok(Expression::CallExpression { function: Box::new(function), arguments: args })
    }

    /// The infix loop: while the upcoming token binds more tightly
    /// than the ceiling, absorb it into the expression parsed so far.
    fn parse_infix_chain(&mut self, precedence: Precedence, left: Expression) -> (r: Result<
        Expression,
        ParseExpressionError,
    >)
        requires
            old(self).wf(),
        ensures
            final(self).wf(),
            final(self).toks() == old(self).toks(),
            final(self).src() == old(self).src(),
            final(self).position() >= old(self).position(),
            expr_result_matches(
                r,
                spec_parse_infix_chain(
                    old(self).toks(),
                    old(self).position(),
                    precedence.spec_value(),
                    left@,
                ),
            ),
            (spec_parse_infix_chain(
                old(self).toks(),
                old(self).position(),
                precedence.spec_value(),
                left@,
            ) matches Result::Ok((_, j)) ==> final(self).position() == j),
        decreases old(self).toks().len() - old(self).position(), 8int,
    {
        if matches!(self.peek_next(), Token::EOF) {
            return Result::Ok(left);
        }
        if self.peek_next().get_precedence().value() <= precedence.value() {
            return Result::Ok(left);
        }
        self.advance_token();
        let l2 = if is_infix_operator_token(&self.curr_token) {
            match self.parse_infix_expression(left) {
                Result::Ok(e) => e,
                Result::Err(e) => {
                    return Result::Err(e);
                },
            }
        } else if matches!(self.curr_token, Token::LParen) {
            match self.parse_function_call_expression(left) {
                Result::Ok(e) => e,
                Result::Err(e) => {
                    return Result::Err(e);
                },
            }
        } else {
            return Result::Err(
                ParseExpressionError::UnexpectedToken { token: self.curr_token.duplicate() },
            );
        };
        self.parse_infix_chain(precedence, l2)
    }

    /// One expression parsed under a precedence ceiling: a primary
    /// form for the current token, then the infix loop.
    fn parse_expression(&mut self, precedence: Precedence) -> (r: Result<
        Expression,
        ParseExpressionError,
    >)
        requires
            old(self).wf(),
        ensures
            final(self).wf(),
            final(self).toks() == old(self).toks(),
            final(self).src() == old(self).src(),
            final(self).position() >= old(self).position(),
            expr_result_matches(
                r,
                spec_parse_expression(old(self).toks(), old(self).position(), precedence.spec_value()),
            ),
            (spec_parse_expression(old(self).toks(), old(self).position(), precedence.spec_value())
                matches Result::Ok((_, j)) ==> final(self).position() == j),
        decreases old(self).toks().len() - old(self).position(), 9int,
    {
        let kind: u8 = match &self.curr_token {
            Token::IntLiteral(_) => 0,
            Token::DoubleLiteral(_) => 1,
            Token::True => 2,
            Token::False => 3,
            Token::Ident(_) => 4,
            Token::StringLiteral(_) => 5,
            Token::LBracket => 6,
            Token::LParen => 7,
            Token::Minus | Token::Not | Token::Bang => 8,
            _ => 9,
        };
        let left_expression: Expression = if kind == 0 || kind == 1 || kind == 2 || kind == 3
            || kind == 4 || kind == 5 {
            match &self.curr_token {
                Token::IntLiteral(n) => Expression::Int(*n),
                Token::DoubleLiteral(b) => Expression::Double(*b),
                Token::True => Expression::Bool(true),
                Token::False => Expression::Bool(false),
                Token::Ident(ident) => Expression::Ident(ident.clone()),
                Token::StringLiteral(string) => Expression::Str(string.clone()),
                _ => unreached(),
            }
        } else if kind == 6 {
            match self.parse_bracket_ident_expression() {
                Result::Ok(e) => e,
                Result::Err(e) => {
                    return Result::Err(e);
                },
            }
        } else if kind == 7 {
            match self.parse_grouped_expression() {
                Result::Ok(e) => e,
                Result::Err(e) => {
                    return Result::Err(e);
                },
            }
        } else if kind == 8 {
            match self.parse_prefix_expression() {
                Result::Ok(e) => e,
                Result::Err(e) => {
                    return Result::Err(e);
                },
            }
        } else {
            return Result::Err(
                ParseExpressionError::UnexpectedToken { token: self.curr_token.duplicate() },
            );
        };
        self.parse_infix_chain(precedence, left_expression)
    }
}


} // verus!
