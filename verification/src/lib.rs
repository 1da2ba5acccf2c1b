use vstd::prelude::*;

pub mod evaluator;
pub mod expression;
pub mod fp;
pub mod laws;
pub mod lexer;
pub mod object;
pub mod parser;
pub mod token;

verus! {

/// A formula held as source text, ready to be evaluated.
pub struct MathematicalExpression {
    source: String,
}

impl View for MathematicalExpression {
    type V = Seq<char>;

    /// The view of a formula is its source text.
    closed spec fn view(&self) -> Seq<char> {
        self.source@
    }
}

impl MathematicalExpression {
    pub fn new(input: &str) -> (r: Self)
        ensures
            r@ == input@,
    {
        Self { source: input.to_owned() }
    }

    pub fn get_source(&self) -> (r: &str)
        ensures
            r@ == self@,
    {
        self.source.as_str()
    }

    /// Evaluate the formula against the empty context; an error comes
    /// back as a fixed description of its kind.
    pub fn eval(&mut self) -> (r: Result<crate::object::Object, String>)
        ensures
            final(self)@ == old(self)@,
            match crate::evaluator::spec_evaluate(old(self)@, Seq::empty()) {
                Result::Ok(v) => r matches Result::Ok(o) && o@ == v,
                Result::Err(e) => r matches Result::Err(m) && m@
                    == crate::evaluator::spec_describe(e),
            },
    {
        let context = crate::object::Context::default();
        proof {
            assert(context@ =~= Seq::<(Seq<char>, crate::object::SpecObject)>::empty());
        }
        match crate::evaluator::eval_input(self.source.as_str(), context) {
            Result::Ok(o) => Result::Ok(o),
            Result::Err(e) => Result::Err(e.message()),
        }
    }
}

} // verus!
