//! Rules: a list of variables and a conditional over their names.

use crate::bindings::{Bindings, FieldValues};
use crate::conditionals::grammar::{meaning, names_in, well_formed};
use crate::conditionals::laws::{lemma_meaning, lemma_names_of_text};
use crate::conditionals::{declared, eval, names, parse, unbound, unparsable, validate};
use crate::conditionals::{EvalError, ParseError};
use crate::json::{extract, field_value};
use crate::variable::Variable;
use vstd::prelude::*;

verus! {

/// What a `ParseError` says of a conditional that names an undeclared
/// variable.
pub open spec fn unvalidated() -> Seq<char> {
    "Could not validate conditional statement"@
}

/// The names that a list of declared names holds, in its order.
pub open spec fn texts(variables: Seq<String>) -> Seq<Seq<char>> {
    variables.map_values(|s: String| s@)
}

/// The set of names that a list of declared names holds.
pub open spec fn names_of(variables: Seq<String>) -> Set<Seq<char>> {
    texts(variables).to_set()
}

/// The text of a conditional, with the names that it may refer to.
#[derive(Debug)]
pub struct Conditional {
    pub raw: String,
    pub variables: Vec<String>,
}

fn borrow_all(owned: &Vec<String>) -> (borrowed: Vec<&str>)
    ensures
        names(borrowed@) == texts(owned@),
{
    let mut borrowed: Vec<&str> = Vec::new();
    let mut i: usize = 0;
    while i < owned.len()
        invariant
            i <= owned.len(),
            borrowed@.len() == i,
            forall|k: int| 0 <= k < i ==> borrowed@[k]@ == owned@[k]@,
        decreases owned.len() - i,
    {
        borrowed.push(owned[i].as_str());
        i += 1;
    }
    assert(names(borrowed@) =~= texts(owned@));
    borrowed
}

impl Conditional {
    /// The text is a conditional, and every name in it is declared.
    pub open spec fn valid_for(text: Seq<char>, names: Set<Seq<char>>) -> bool {
        well_formed(text) && meaning(text).within(names)
    }

    /// Creates a conditional from its text and the names it may refer to.
    /// Fails when the text is no conditional, and when it names a variable
    /// that is not among `variables`.
    pub fn new(conditional: &str, variables: Vec<String>) -> (r: Result<Self, ParseError>)
        ensures
            r is Ok <==> Self::valid_for(conditional@, names_of(variables@)),
            match r {
                Ok(c) => c.raw@ == conditional@ && c.variables == variables,
                Err(error) => error.reason@ == (if well_formed(conditional@) {
                    unvalidated()
                } else {
                    unparsable()
                }),
            },
    {
        let inner = match parse(conditional) {
            Ok(inner) => inner,
            Err(error) => {
                return Err(error);
            },
        };
        proof {
            lemma_meaning(conditional@, inner@);
        }
        if !validate(inner, borrow_all(&variables)) {
            return Err(
                ParseError { reason: "Could not validate conditional statement".to_owned() },
            );
        }
        Ok(Conditional { raw: conditional.to_owned(), variables })
    }

    /// Parses the text anew and evaluates it under a binding of names to
    /// truth values. Fails when the text is no conditional, and when it
    /// names a variable without a binding.
    pub fn eval(&self, variables: &Bindings) -> (r: Result<bool, EvalError>)
        ensures
            r is Ok <==> Self::valid_for(self.raw@, variables@.dom()),
            match r {
                Ok(value) => value == meaning(self.raw@).value(variables@),
                Err(error) => error.reason@ == (if well_formed(self.raw@) {
                    unbound()
                } else {
                    unparsable()
                }),
            },
    {
        match parse(self.raw.as_str()) {
            Ok(inner) => {
                proof {
                    lemma_meaning(self.raw@, inner@);
                }
                eval(inner, variables)
            },
            Err(_) => Err(EvalError { reason: "Unable to parse conditional".to_owned() }),
        }
    }

    /// Parses the text anew and checks its names against `variables`. Fails
    /// when the text is no conditional; otherwise tells whether every name
    /// in it is among `variables`.
    pub fn validate(&self, variables: Vec<&str>) -> (r: Result<bool, ParseError>)
        ensures
            r is Ok <==> well_formed(self.raw@),
            match r {
                Ok(valid) => valid == meaning(self.raw@).within(declared(variables@)),
                Err(error) => error.reason@ == unparsable(),
            },
    {
        match parse(self.raw.as_str()) {
            Ok(inner) => {
                proof {
                    lemma_meaning(self.raw@, inner@);
                }
                Ok(validate(inner, variables))
            },
            Err(error) => Err(error),
        }
    }
}

/// A conditional is valid for a set of names exactly when every name that
/// occurs in its text is in the set.
pub proof fn lemma_valid_for_names(text: Seq<char>, names: Set<Seq<char>>)
    requires
        well_formed(text),
    ensures
        Conditional::valid_for(text, names) <==> names_in(text).subset_of(names),
{
    lemma_names_of_text(text, meaning(text));
}

/// Why a rule was refused.
#[derive(Debug)]
pub enum ValidationError {
    /// The text of the rule's conditional is no conditional.
    Parse(ParseError),
    /// The conditional names a variable that the rule does not declare.
    Undeclared,
}

impl ValidationError {
    /// The error as one line of text.
    pub fn to_string(&self) -> (line: String)
        ensures
            line@ == (match self {
                ValidationError::Parse(error) => "ValidationError: "@ + error.reason@,
                ValidationError::Undeclared => "ValidationError: "@ + unvalidated(),
            }),
    {
        match self {
            ValidationError::Parse(error) => "ValidationError: ".to_owned().concat(
                error.reason.as_str(),
            ),
            ValidationError::Undeclared => "ValidationError: ".to_owned().concat(
                "Could not validate conditional statement",
            ),
        }
    }
}

/// A named list of variables with a conditional over their names.
#[derive(Debug)]
pub struct Rule {
    pub name: String,
    pub variables: Vec<Variable>,
    pub conditional: Conditional,
}

/// The names of a list of variables, in its order.
pub open spec fn variable_names(variables: Seq<Variable>) -> Seq<Seq<char>> {
    variables.map_values(|v: Variable| v.name())
}

/// The outcome of each variable on a record, by name. Where two variables
/// share a name, the later one decides.
pub open spec fn outcomes(variables: Seq<Variable>, json: Seq<char>) -> Map<Seq<char>, bool>
    decreases variables.len(),
{
    if variables.len() == 0 {
        Map::empty()
    } else {
        outcomes(variables.drop_last(), json).insert(
            variables.last().name(),
            variables.last().holds(json),
        )
    }
}

/// The text found in a record under the field of each variable, by path.
pub open spec fn fields(variables: Seq<Variable>, json: Seq<char>) -> Map<Seq<char>, Seq<char>>
    decreases variables.len(),
{
    if variables.len() == 0 {
        Map::empty()
    } else {
        fields(variables.drop_last(), json).insert(
            variables.last().field(),
            field_value(json, variables.last().field()),
        )
    }
}

/// The outcomes bind exactly the names of the variables.
pub proof fn lemma_outcomes_dom(variables: Seq<Variable>, json: Seq<char>)
    ensures
        outcomes(variables, json).dom() == variable_names(variables).to_set(),
    decreases variables.len(),
{
    let all = variable_names(variables);
    if variables.len() > 0 {
        let front = variable_names(variables.drop_last());
        lemma_outcomes_dom(variables.drop_last(), json);
        assert(front =~= all.drop_last());
        assert forall|name: Seq<char>| all.to_set().contains(name) <==> front.to_set().insert(
            all.last(),
        ).contains(name) by {
            if all.contains(name) {
                let i = choose|i: int| 0 <= i < all.len() && all[i] == name;
                if i < all.len() - 1 {
                    assert(front[i] == name);
                }
            }
            if front.contains(name) {
                let i = choose|i: int| 0 <= i < front.len() && front[i] == name;
                assert(all[i] == name);
            }
            assert(all[all.len() - 1] == all.last());
        }
    }
    assert(outcomes(variables, json).dom() =~= all.to_set());
}

/// Each name is bound to the outcome of the last variable that has it.
pub proof fn lemma_last_decides(variables: Seq<Variable>, json: Seq<char>, i: int)
    requires
        0 <= i < variables.len(),
        forall|j: int| i < j < variables.len() ==> variables[j].name() != variables[i].name(),
    ensures
        outcomes(variables, json).contains_key(variables[i].name()),
        outcomes(variables, json)[variables[i].name()] == variables[i].holds(json),
    decreases variables.len(),
{
    if i < variables.len() - 1 {
        lemma_last_decides(variables.drop_last(), json, i);
    }
}

impl Rule {
    /// The names that the rule's variables declare.
    pub open spec fn declared_names(self) -> Set<Seq<char>> {
        variable_names(self.variables@).to_set()
    }

    /// The outcome of every variable of the rule on a record, by name.
    pub open spec fn bindings(self, json: Seq<char>) -> Map<Seq<char>, bool> {
        outcomes(self.variables@, json)
    }

    /// The text found in a record under the field of every variable, by path.
    pub open spec fn field_values(self, json: Seq<char>) -> Map<Seq<char>, Seq<char>> {
        fields(self.variables@, json)
    }

    /// Builds a rule from its name, its variables and the text of its
    /// conditional, which may refer to the variables' names. Fails when the
    /// text is no conditional, and when it names a variable that the rule
    /// does not declare.
    pub fn new(name: String, variables: Vec<Variable>, conditional: &str) -> (r: Result<
        Rule,
        ParseError,
    >)
        ensures
            r is Ok <==> Conditional::valid_for(
                conditional@,
                variable_names(variables@).to_set(),
            ),
            match r {
                Ok(rule) => rule.name == name && rule.variables == variables
                    && rule.conditional.raw@ == conditional@ && texts(rule.conditional.variables@)
                    == variable_names(variables@),
                Err(error) => error.reason@ == (if well_formed(conditional@) {
                    unvalidated()
                } else {
                    unparsable()
                }),
            },
    {
        let mut declared: Vec<String> = Vec::new();
        let mut i: usize = 0;
        while i < variables.len()
            invariant
                i <= variables.len(),
                declared@.len() == i,
                forall|k: int| 0 <= k < i ==> declared@[k]@ == variables@[k].name(),
            decreases variables.len() - i,
        {
            declared.push(variables[i].get_name().to_owned());
            i += 1;
        }
        assert(texts(declared@) =~= variable_names(variables@));
        match Conditional::new(conditional, declared) {
            Ok(conditional) => Ok(Rule { name, variables, conditional }),
            Err(error) => Err(error),
        }
    }

    /// Checks the rule's conditional against the names of its variables and
    /// hands the rule back unchanged when every name in it is declared.
    pub fn validate(self) -> (r: Result<Self, ValidationError>)
        ensures
            match r {
                Ok(rule) => rule == self && Conditional::valid_for(
                    self.conditional.raw@,
                    self.declared_names(),
                ),
                Err(ValidationError::Parse(error)) => !well_formed(self.conditional.raw@)
                    && error.reason@ == unparsable(),
                Err(ValidationError::Undeclared) => well_formed(self.conditional.raw@) && !meaning(
                    self.conditional.raw@,
                ).within(self.declared_names()),
            },
    {
        let mut keys: Vec<&str> = Vec::new();
        let mut i: usize = 0;
        while i < self.variables.len()
            invariant
                i <= self.variables.len(),
                keys@.len() == i,
                forall|k: int| 0 <= k < i ==> keys@[k]@ == self.variables@[k].name(),
            decreases self.variables.len() - i,
        {
            keys.push(self.variables[i].get_name());
            i += 1;
        }
        assert(names(keys@) =~= variable_names(self.variables@));
        match self.conditional.validate(keys) {
            Ok(true) => Ok(self),
            Ok(false) => Err(ValidationError::Undeclared),
            Err(error) => Err(ValidationError::Parse(error)),
        }
    }

    /// Tests every variable on the record, then evaluates the conditional
    /// under the outcomes. Fails when the text of the conditional is no
    /// conditional, and when it names a variable that the rule does not
    /// declare.
    pub fn match_json(&self, json: &str) -> (r: Result<bool, EvalError>)
        ensures
            r is Ok <==> Conditional::valid_for(self.conditional.raw@, self.declared_names()),
            match r {
                Ok(value) => value == meaning(self.conditional.raw@).value(self.bindings(json@)),
                Err(error) => error.reason@ == (if well_formed(self.conditional.raw@) {
                    unbound()
                } else {
                    unparsable()
                }),
            },
    {
        let mut map = Bindings::new();
        let mut i: usize = 0;
        while i < self.variables.len()
            invariant
                i <= self.variables.len(),
                map@ == outcomes(self.variables@.take(i as int), json@),
            decreases self.variables.len() - i,
        {
            let (name, outcome) = self.variables[i].match_against(json);
            map.insert(name.to_owned(), outcome);
            i += 1;
            assert(self.variables@.take(i as int).drop_last() =~= self.variables@.take(i - 1));
        }
        proof {
            assert(self.variables@.take(i as int) =~= self.variables@);
            lemma_outcomes_dom(self.variables@, json@);
        }
        self.conditional.eval(&map)
    }

    /// The text found in the record under the field of each variable,
    /// whatever the variables' outcomes are.
    pub fn get_matches_json(&self, json: &str) -> (values: FieldValues)
        ensures
            values@ == self.field_values(json@),
    {
        let mut values = FieldValues::new();
        let mut i: usize = 0;
        while i < self.variables.len()
            invariant
                i <= self.variables.len(),
                values@ == fields(self.variables@.take(i as int), json@),
            decreases self.variables.len() - i,
        {
            let path = self.variables[i].get_field();
            values.insert(path.to_owned(), extract(json, path));
            i += 1;
            assert(self.variables@.take(i as int).drop_last() =~= self.variables@.take(i - 1));
        }
        assert(self.variables@.take(i as int) =~= self.variables@);
        values
    }
}

} // verus!
