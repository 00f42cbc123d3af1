//! The grammar of conditionals, as a relation between a sequence of symbols
//! and the tree that it denotes:
//!
//! ```text
//! expr   := term   | expr "or" term
//! term   := factor | term "and" factor
//! factor := name   | "(" expr ")"
//! ```
//!
//! `or` binds looser than `and`, and both associate to the left.

use super::expression::{Formula, Operator};
use super::lexer::{symbols_of, Symbol};
use vstd::prelude::*;

verus! {

/// The symbols `t[i..j]` form a factor that denotes `f`.
pub open spec fn factor_spans(t: Seq<Symbol>, i: int, j: int, f: Formula) -> bool
    decreases j - i, 0int,
{
    &&& 0 <= i < j <= t.len()
    &&& {
        ||| j == i + 1 && t[i] is Name && f == Formula::Variable(t[i]->Name_0)
        ||| t[i] is Open && t[j - 1] is Close && expr_spans(t, i + 1, j - 1, f)
    }
}

/// The symbols `t[i..j]` form a term that denotes `f`.
pub open spec fn term_spans(t: Seq<Symbol>, i: int, j: int, f: Formula) -> bool
    decreases j - i, 1int,
{
    &&& 0 <= i < j <= t.len()
    &&& {
        ||| factor_spans(t, i, j, f)
        ||| f matches Formula::BinaryOp(op, left, right) && op == Operator::And && exists|k: int|
            i < k < j && (#[trigger] t[k]) is And && term_spans(t, i, k, *left) && factor_spans(
                t,
                k + 1,
                j,
                *right,
            )
    }
}

/// The symbols `t[i..j]` form an expression that denotes `f`.
pub open spec fn expr_spans(t: Seq<Symbol>, i: int, j: int, f: Formula) -> bool
    decreases j - i, 2int,
{
    &&& 0 <= i < j <= t.len()
    &&& {
        ||| term_spans(t, i, j, f)
        ||| f matches Formula::BinaryOp(op, left, right) && op == Operator::Or && exists|k: int|
            i < k < j && (#[trigger] t[k]) is Or && expr_spans(t, i, k, *left) && term_spans(
                t,
                k + 1,
                j,
                *right,
            )
    }
}

/// The whole sequence of symbols is an expression that denotes `f`.
pub open spec fn derives(t: Seq<Symbol>, f: Formula) -> bool {
    expr_spans(t, 0, t.len() as int, f)
}

/// The text is a conditional that denotes `f`: it splits into symbols, and
/// the symbols form an expression for `f`.
pub open spec fn parses_as(text: Seq<char>, f: Formula) -> bool {
    symbols_of(text) matches Some(t) && derives(t, f)
}

/// The text is a conditional.
pub open spec fn well_formed(text: Seq<char>) -> bool {
    exists|f: Formula| parses_as(text, f)
}

/// The tree that a conditional denotes.
pub open spec fn meaning(text: Seq<char>) -> Formula
    recommends
        well_formed(text),
{
    choose|f: Formula| parses_as(text, f)
}

/// The names that occur among the symbols `t[i..j]`.
pub open spec fn names_between(t: Seq<Symbol>, i: int, j: int) -> Set<Seq<char>> {
    Set::new(|name: Seq<char>| exists|k: int| i <= k < j && #[trigger] t[k] == Symbol::Name(name))
}

/// The names that occur in a text, where it splits into symbols.
pub open spec fn names_in(text: Seq<char>) -> Set<Seq<char>>
    recommends
        symbols_of(text) is Some,
{
    names_between(symbols_of(text)->0, 0, symbols_of(text)->0.len() as int)
}

} // verus!
