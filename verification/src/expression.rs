use vstd::prelude::*;
use crate::token::{SpecToken, Token};

verus! {

broadcast use vstd::std_specs::vec::group_vec_axioms, vstd::seq::group_seq_axioms;

/// An expression tree: what the parser produces and the evaluator
/// consumes. Each node owns its children exclusively.
#[derive(Debug, PartialEq)]
pub enum Expression {
    /// There was no input.
    Nil,
    Int(i64),
    /// A floating literal, carried as its IEEE 754 bit pattern.
    Double(u64),
    Bool(bool),
    Ident(String),
    Str(String),
    PrefixExpression { operator: Token, expression: Box<Expression> },
    InfixExpression { operator: Token, left: Box<Expression>, right: Box<Expression> },
    CallExpression {
        // For this formula language the callee is always a function name.
        function: Box<Expression>,
        arguments: Vec<Box<Expression>>,
    },
}

/// The mathematical shadow of `Expression`.
pub enum SpecExpression {
    Nil,
    Int(i64),
    Double(u64),
    Bool(bool),
    Ident(Seq<char>),
    Str(Seq<char>),
    Prefix { operator: SpecToken, expression: Box<SpecExpression> },
    Infix { operator: SpecToken, left: Box<SpecExpression>, right: Box<SpecExpression> },
    Call { function: Box<SpecExpression>, arguments: Seq<SpecExpression> },
}

impl View for Expression {
    type V = SpecExpression;

    open spec fn view(&self) -> SpecExpression
        decreases self,
    {
        match self {
            Expression::Nil => SpecExpression::Nil,
            Expression::Int(n) => SpecExpression::Int(*n),
            Expression::Double(b) => SpecExpression::Double(*b),
            Expression::Bool(b) => SpecExpression::Bool(*b),
            Expression::Ident(s) => SpecExpression::Ident(s@),
            Expression::Str(s) => SpecExpression::Str(s@),
            Expression::PrefixExpression { operator, expression } => SpecExpression::Prefix {
                operator: operator@,
                expression: Box::new((**expression)@),
            },
            Expression::InfixExpression { operator, left, right } => SpecExpression::Infix {
                operator: operator@,
                left: Box::new((**left)@),
                right: Box::new((**right)@),
            },
            Expression::CallExpression { function, arguments } => SpecExpression::Call {
                function: Box::new((**function)@),
                arguments: spec_view_arguments(arguments@),
            },
        }
    }
}

/// The views of a call node's arguments from index `k` on, in order.
pub open spec fn spec_view_arguments_from(args: Seq<Box<Expression>>, k: int) -> Seq<
    SpecExpression,
>
    decreases args, args.len() - k,
{
    if 0 <= k < args.len() {
        seq![(*args[k])@] + spec_view_arguments_from(args, k + 1)
    } else {
        Seq::empty()
    }
}

/// The views of a call node's arguments, in order.
pub open spec fn spec_view_arguments(args: Seq<Box<Expression>>) -> Seq<SpecExpression>
    decreases args, args.len() + 1,
{
    spec_view_arguments_from(args, 0)
}

/// What `spec_view_arguments_from` holds at each index: the view of
/// the argument standing there.
pub proof fn lemma_view_arguments_from(args: Seq<Box<Expression>>, k: int)
    requires
        0 <= k <= args.len(),
    ensures
        spec_view_arguments_from(args, k).len() == args.len() - k,
        forall|i: int|
            k <= i < args.len() ==> spec_view_arguments_from(args, k)[i - k] == (*args[i])@,
    decreases args.len() - k,
{
    if k < args.len() {
        lemma_view_arguments_from(args, k + 1);
        assert(spec_view_arguments_from(args, k) == seq![(*args[k])@] + spec_view_arguments_from(
            args,
            k + 1,
        ));
        assert(spec_view_arguments_from(args, k).len() == args.len() - k);
    } else {
        assert(spec_view_arguments_from(args, k) == Seq::<SpecExpression>::empty());
    }
}

/// What `spec_view_arguments` holds at each index: the view of the
/// argument standing there.
pub proof fn lemma_view_arguments(args: Seq<Box<Expression>>)
    ensures
        spec_view_arguments(args).len() == args.len(),
        forall|i: int| 0 <= i < args.len() ==> spec_view_arguments(args)[i] == (*args[i])@,
{
    lemma_view_arguments_from(args, 0);
}

/// Why parsing failed.
#[derive(Debug, Clone, PartialEq)]
pub enum ParseExpressionError {
    NothingToParse,
    UnexpectedEnd,
    ExpectedXFoundY { expected: &'static str, found: Token },
    UnexpectedToken { token: Token },
}

/// The mathematical shadow of `ParseExpressionError`.
pub enum SpecParseError {
    NothingToParse,
    UnexpectedEnd,
    ExpectedXFoundY { expected: Seq<char>, found: SpecToken },
    UnexpectedToken { token: SpecToken },
}

impl View for ParseExpressionError {
    type V = SpecParseError;

    open spec fn view(&self) -> SpecParseError {
        match self {
            ParseExpressionError::NothingToParse => SpecParseError::NothingToParse,
            ParseExpressionError::UnexpectedEnd => SpecParseError::UnexpectedEnd,
            ParseExpressionError::ExpectedXFoundY { expected, found } => {
                SpecParseError::ExpectedXFoundY { expected: expected.view(), found: found@ }
            },
            ParseExpressionError::UnexpectedToken { token } => {
                SpecParseError::UnexpectedToken { token: token@ }
            },
        }
    }
}

/// Binding strength tiers used while parsing; see
/// `crate::token::spec_precedence` for how tokens map onto them.
#[derive(Debug, Clone, Copy, PartialEq, Eq, Structural)]
pub enum Precedence {
    Lowest,
    /// `or` and `||`: looser than the equality operators.
    Logical,
    Equals,
    LessGreater,
    Sum,
    Product,
    /// `-x` or `!x`.
    Prefix,
    /// `myfunc(...)`.
    Call,
}

impl Precedence {
    pub open spec fn spec_value(self) -> int {
        match self {
            Precedence::Lowest => 0,
            Precedence::Logical => 1,
            Precedence::Equals => 2,
            Precedence::LessGreater => 3,
            Precedence::Sum => 4,
            Precedence::Product => 5,
            Precedence::Prefix => 6,
            Precedence::Call => 7,
        }
    }

    pub fn value(&self) -> (v: i32)
        ensures
            v == self.spec_value(),
    {
        match self {
            Precedence::Lowest => 0,
            Precedence::Logical => 1,
            Precedence::Equals => 2,
            Precedence::LessGreater => 3,
            Precedence::Sum => 4,
            Precedence::Product => 5,
            Precedence::Prefix => 6,
            Precedence::Call => 7,
        }
    }
}

/// An owned deep copy of one argument of a call node.
fn duplicate_argument(expression: &Expression, i: usize) -> (r: Box<Expression>)
    requires
        expression matches Expression::CallExpression { arguments, .. } && i < arguments@.len(),
    ensures
        expression matches Expression::CallExpression { arguments, .. } ==> (*r)@ == (
        *arguments@[i as int])@,
    decreases expression, 0int,
{
    match expression {
        Expression::CallExpression { arguments, .. } => Box::new(arguments[i].duplicate()),
        _ => unreached(),
    }
}

impl Expression {
    /// An owned deep copy whose view equals this expression's view.
    pub fn duplicate(&self) -> (r: Expression)
        ensures
            r@ == self@,
        decreases self, 1int,
    {
        match self {
            Expression::Nil => Expression::Nil,
            Expression::Int(n) => Expression::Int(*n),
            Expression::Double(b) => Expression::Double(*b),
            Expression::Bool(b) => Expression::Bool(*b),
            Expression::Ident(s) => Expression::Ident(s.clone()),
            Expression::Str(s) => Expression::Str(s.clone()),
            Expression::PrefixExpression { operator, expression } => {
                Expression::PrefixExpression {
                    operator: operator.duplicate(),
                    expression: Box::new((**expression).duplicate()),
                }
            },
            Expression::InfixExpression { operator, left, right } => {
                Expression::InfixExpression {
                    operator: operator.duplicate(),
                    left: Box::new((**left).duplicate()),
                    right: Box::new((**right).duplicate()),
                }
            },
            Expression::CallExpression { function, arguments } => {
                let mut args: Vec<Box<Expression>> = Vec::new();
                let n = arguments.len();
                let mut i: usize = 0;
                while i < n
                    invariant
                        0 <= i <= n,
                        n == arguments@.len(),
                        args@.len() == i,
                        *self == (Expression::CallExpression {
                            function: *function,
                            arguments: *arguments,
                        }),
                        forall|j: int| 0 <= j < i ==> (*args@[j])@ == (*arguments@[j])@,
                    decreases n - i,
                {
                    args.push(duplicate_argument(self, i));
                    i = i + 1;
                }
                let r = Expression::CallExpression {
                    function: Box::new((**function).duplicate()),
                    arguments: args,
                };
                proof {
                    lemma_view_arguments(args@);
                    lemma_view_arguments(arguments@);
                    match (r@, self@) {
                        (
                            SpecExpression::Call { function: rf, arguments: ra },
                            SpecExpression::Call { function: sf, arguments: sa },
                        ) => {
                            assert(ra =~= sa);
                        },
                        _ => {},
                    }
                }
                r
            },
        }
    }
}

} // verus!
