//! Conditional expressions: `and` / `or` combinations of variable names,
//! with parentheses for grouping. A conditional is parsed into a tree,
//! checked against the set of declared names, and evaluated under a binding
//! of names to truth values.

pub mod expression;
pub mod grammar;
pub mod laws;
pub mod lexer;
pub mod parser;

use crate::bindings::Bindings;
use crate::text::same_text;
use expression::{lemma_within_both, Expression, Formula};
use grammar::parses_as;
use lexer::tokenize;
use parser::parse_tokens;
use vstd::prelude::*;

verus! {

/// Error returned when evaluating the conditional.
#[derive(Debug)]
pub struct EvalError {
    pub reason: String,
}

impl EvalError {
    /// The error as one line of text.
    pub fn to_string(&self) -> (line: String)
        ensures
            line@ == "EvalError: "@ + self.reason@,
    {
        "EvalError: ".to_owned().concat(self.reason.as_str())
    }
}

/// Error returned when parsing the conditional.
#[derive(Debug)]
pub struct ParseError {
    pub reason: String,
}

impl ParseError {
    /// The error as one line of text.
    pub fn to_string(&self) -> (line: String)
        ensures
            line@ == "ParseError: "@ + self.reason@,
    {
        "ParseError: ".to_owned().concat(self.reason.as_str())
    }
}

/// What a `ParseError` says of a text that is no conditional.
pub open spec fn unparsable() -> Seq<char> {
    "Unable to parse conditional"@
}

/// What an `EvalError` says of a variable without a binding.
pub open spec fn unbound() -> Seq<char> {
    "Conditional names a variable that has no value"@
}

/// The parser of conditionals.
pub struct ConditionalParser {}

impl ConditionalParser {
    /// Parses the text of a conditional. Succeeds exactly on the texts that
    /// the grammar derives, with the tree that it gives them. The parser
    /// descends one level for each level of parentheses, and the tree is as
    /// deep as its longest chain of one connective: the stack bounds both.
    pub fn parse(text: &str) -> (r: Result<Expression, ParseError>)
        ensures
            match r {
                Ok(e) => parses_as(text@, e@),
                Err(error) => (forall|f: Formula| !parses_as(text@, f)) && error.reason@
                    == unparsable(),
            },
    {
        let parsed = match tokenize(text) {
            Some(tokens) => parse_tokens(&tokens),
            None => None,
        };
        match parsed {
            Some(e) => Ok(e),
            None => Err(ParseError { reason: "Unable to parse conditional".to_owned() }),
        }
    }
}

/// What parsing a conditional gives.
pub type ConditionalInner = Expression;

/// Parses the text of a conditional into its expression tree.
pub fn parse(s: &str) -> (r: Result<ConditionalInner, ParseError>)
    ensures
        match r {
            Ok(e) => parses_as(s@, e@),
            Err(error) => (forall|f: Formula| !parses_as(s@, f)) && error.reason@ == unparsable(),
        },
{
    ConditionalParser::parse(s)
}

/// The names that a list of declarations holds, in its order.
pub open spec fn names(variables: Seq<&str>) -> Seq<Seq<char>> {
    variables.map_values(|s: &str| s@)
}

/// The set of names that a list of declarations holds.
pub open spec fn declared(variables: Seq<&str>) -> Set<Seq<char>> {
    names(variables).to_set()
}

fn is_declared(name: &str, variables: &Vec<&str>) -> (found: bool)
    ensures
        found == declared(variables@).contains(name@),
{
    let mut i: usize = 0;
    while i < variables.len()
        invariant
            i <= variables.len(),
            forall|k: int| 0 <= k < i ==> names(variables@)[k] != name@,
        decreases variables.len() - i,
    {
        if same_text(variables[i], name) {
            assert(names(variables@)[i as int] == name@);
            return true;
        }
        i += 1;
    }
    false
}

fn validate_in(expression: &Expression, variables: &Vec<&str>) -> (valid: bool)
    ensures
        valid == expression@.within(declared(variables@)),
    decreases expression,
{
    match expression {
        Expression::Variable(name) => {
            let found = is_declared(name.as_str(), variables);
            proof {
                let names = expression@.names();
                assert(names.contains(name@));
                assert(names =~= set![name@]);
            }
            found
        },
        Expression::BinaryOp(_, left, right) => {
            let l = validate_in(left, variables);
            let r = validate_in(right, variables);
            proof {
                lemma_within_both(expression@, declared(variables@));
            }
            l && r
        },
    }
}

/// Checks the variable names of an expression against the declared ones:
/// true exactly when every name at a leaf of the tree is declared.
pub fn validate(expression: Expression, variables: Vec<&str>) -> (valid: bool)
    ensures
        valid == expression@.within(declared(variables@)),
{
    validate_in(&expression, &variables)
}

fn eval_in(expression: &Expression, variables: &Bindings) -> (r: Option<bool>)
    ensures
        match r {
            Some(value) => expression@.within(variables@.dom()) && value == expression@.value(
                variables@,
            ),
            None => !expression@.within(variables@.dom()),
        },
    decreases expression,
{
    match expression {
        Expression::Variable(name) => {
            proof {
                let names = expression@.names();
                assert(names.contains(name@));
                assert(names =~= set![name@]);
            }
            variables.get(name.as_str())
        },
        Expression::BinaryOp(op, left, right) => {
            let l = eval_in(left, variables);
            let r = eval_in(right, variables);
            proof {
                lemma_within_both(expression@, variables@.dom());
            }
            match (l, r) {
                (Some(a), Some(b)) => Some(op.combine(a, b)),
                _ => None,
            }
        },
    }
}

/// Evaluates an expression under a binding of names to truth values. Both
/// sides of every connective are evaluated. Fails exactly when a name at a
/// leaf of the tree has no binding.
pub fn eval(expression: Expression, variables: &Bindings) -> (r: Result<bool, EvalError>)
    ensures
        match r {
            Ok(value) => expression@.within(variables@.dom()) && value == expression@.value(
                variables@,
            ),
            Err(error) => !expression@.within(variables@.dom()) && error.reason@ == unbound(),
        },
{
    match eval_in(&expression, variables) {
        Some(value) => Ok(value),
        None => Err(
            EvalError { reason: "Conditional names a variable that has no value".to_owned() },
        ),
    }
}

} // verus!
