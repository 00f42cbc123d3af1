//! A rule-matching engine: a rule binds named boolean variables to pattern
//! tests on fields of a JSON record and combines them with a conditional
//! expression over those names.

pub mod bindings;
pub mod conditionals;
pub mod json;
pub mod pattern;
pub mod rule;
pub mod searchable;
pub mod text;
pub mod variable;

pub use bindings::{Bindings, FieldValues};
pub use rule::{Conditional, Rule, ValidationError};
pub use variable::{MatcherConstructionError, Variable};
