//! The expression tree of a conditional and its mathematical model.

use vstd::prelude::*;

verus! {

/// The two connectives of a conditional.
#[derive(Clone, Copy, Debug, PartialEq, Eq, Structural)]
pub enum Operator {
    And,
    Or,
}

impl Operator {
    /// The connective applied to two truth values.
    pub open spec fn apply(self, left: bool, right: bool) -> bool {
        match self {
            Operator::And => left && right,
            Operator::Or => left || right,
        }
    }

    /// Combines two operands that have both been evaluated already.
    pub fn combine(self, left: bool, right: bool) -> (value: bool)
        ensures
            value == self.apply(left, right),
    {
        match self {
            Operator::And => left && right,
            Operator::Or => left || right,
        }
    }
}

/// A conditional as a mathematical tree, with names as character sequences.
pub enum Formula {
    Variable(Seq<char>),
    BinaryOp(Operator, Box<Formula>, Box<Formula>),
}

impl Formula {
    /// The names at the leaves of the tree.
    pub open spec fn names(self) -> Set<Seq<char>>
        decreases self,
    {
        match self {
            Formula::Variable(name) => set![name],
            Formula::BinaryOp(_, left, right) => left.names().union(right.names()),
        }
    }

    /// Every leaf name is a member of `declared`.
    pub open spec fn within(self, declared: Set<Seq<char>>) -> bool {
        self.names().subset_of(declared)
    }

    /// The truth value of the tree under `bindings`; meaningful when every
    /// leaf name is bound.
    pub open spec fn value(self, bindings: Map<Seq<char>, bool>) -> bool
        decreases self,
    {
        match self {
            Formula::Variable(name) => bindings[name],
            Formula::BinaryOp(op, left, right) => op.apply(
                left.value(bindings),
                right.value(bindings),
            ),
        }
    }
}

/// A compound tree stays within a set of names exactly when both of its
/// sides do.
pub proof fn lemma_within_both(f: Formula, names: Set<Seq<char>>)
    requires
        f is BinaryOp,
    ensures
        f.within(names) == ((*f->BinaryOp_1).within(names) && (*f->BinaryOp_2).within(names)),
{
    let left = *f->BinaryOp_1;
    let right = *f->BinaryOp_2;
    assert(f.names() =~= left.names().union(right.names()));
    if left.within(names) && right.within(names) {
        assert(f.names().subset_of(names));
    }
    if f.within(names) {
        assert(left.names().subset_of(names));
        assert(right.names().subset_of(names));
    }
}

/// In a chain of one connective the grouping does not change the value:
/// grouped to the left, as the grammar reads it, or to the right.
pub proof fn lemma_chain_value(
    op: Operator,
    a: Formula,
    b: Formula,
    c: Formula,
    bindings: Map<Seq<char>, bool>,
)
    ensures
        Formula::BinaryOp(
            op,
            Box::new(Formula::BinaryOp(op, Box::new(a), Box::new(b))),
            Box::new(c),
        ).value(bindings) == Formula::BinaryOp(
            op,
            Box::new(a),
            Box::new(Formula::BinaryOp(op, Box::new(b), Box::new(c))),
        ).value(bindings),
{
    reveal_with_fuel(Formula::value, 3);
}

/// A parsed conditional: a variable reference, or two sub-expressions joined
/// by a connective.
#[derive(Debug)]
pub enum Expression {
    Variable(String),
    BinaryOp(Operator, Box<Expression>, Box<Expression>),
}

impl Expression {
    /// The tree with each name replaced by its character sequence.
    pub open spec fn formula(self) -> Formula
        decreases self,
    {
        match self {
            Expression::Variable(name) => Formula::Variable(name@),
            Expression::BinaryOp(op, left, right) => Formula::BinaryOp(
                op,
                Box::new(left.formula()),
                Box::new(right.formula()),
            ),
        }
    }
}

impl View for Expression {
    type V = Formula;

    open spec fn view(&self) -> Formula {
        self.formula()
    }
}

} // verus!
