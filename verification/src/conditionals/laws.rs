//! What holds of every conditional.

use super::expression::Formula;
use super::grammar::{
    expr_spans, factor_spans, meaning, names_between, names_in, parses_as, term_spans,
    well_formed,
};
use super::lexer::{is_name, lemma_scanned_names, symbols_of, Symbol};
use super::parser::lemma_derives_unique;
use vstd::prelude::*;

verus! {

/// A conditional denotes one tree only, which is its meaning.
pub proof fn lemma_meaning(text: Seq<char>, f: Formula)
    requires
        parses_as(text, f),
    ensures
        well_formed(text),
        meaning(text) == f,
{
    let t = symbols_of(text)->0;
    lemma_derives_unique(t, meaning(text), f);
}

/// Two readings of one text are the same tree.
pub proof fn lemma_parse_unique(text: Seq<char>, f: Formula, g: Formula)
    requires
        parses_as(text, f),
        parses_as(text, g),
    ensures
        f == g,
{
    lemma_derives_unique(symbols_of(text)->0, f, g);
}

proof fn lemma_names_split(t: Seq<Symbol>, i: int, k: int, j: int)
    requires
        0 <= i <= k < j <= t.len(),
        !(t[k] is Name),
    ensures
        names_between(t, i, j) == names_between(t, i, k).union(names_between(t, k + 1, j)),
{
    let whole = names_between(t, i, j);
    let parts = names_between(t, i, k).union(names_between(t, k + 1, j));
    assert forall|name: Seq<char>| whole.contains(name) implies parts.contains(name) by {
        let m = choose|m: int| i <= m < j && #[trigger] t[m] == Symbol::Name(name);
        if m < k {
            assert(names_between(t, i, k).contains(name));
        } else {
            assert(names_between(t, k + 1, j).contains(name));
        }
    }
    assert(whole =~= parts);
}

proof fn lemma_factor_names(t: Seq<Symbol>, i: int, j: int, f: Formula)
    requires
        factor_spans(t, i, j, f),
    ensures
        f.names() == names_between(t, i, j),
    decreases j - i, 0int,
{
    if t[i] is Open {
        lemma_expr_names(t, i + 1, j - 1, f);
        lemma_names_split(t, i, i, j);
        lemma_names_split(t, i + 1, j - 1, j);
        assert(names_between(t, i, i) =~= Set::empty());
        assert(names_between(t, j, j) =~= Set::empty());
        assert(names_between(t, i, j) =~= names_between(t, i + 1, j - 1));
    } else {
        let name = t[i]->Name_0;
        assert(t[i] == Symbol::Name(name));
        assert(names_between(t, i, j) =~= set![name]);
    }
}

proof fn lemma_term_names(t: Seq<Symbol>, i: int, j: int, f: Formula)
    requires
        term_spans(t, i, j, f),
    ensures
        f.names() == names_between(t, i, j),
    decreases j - i, 1int,
{
    if factor_spans(t, i, j, f) {
        lemma_factor_names(t, i, j, f);
    } else {
        let left = *f->BinaryOp_1;
        let right = *f->BinaryOp_2;
        let k = choose|k: int|
            i < k < j && (#[trigger] t[k]) is And && term_spans(t, i, k, left) && factor_spans(
                t,
                k + 1,
                j,
                right,
            );
        lemma_term_names(t, i, k, left);
        lemma_factor_names(t, k + 1, j, right);
        lemma_names_split(t, i, k, j);
    }
}

proof fn lemma_expr_names(t: Seq<Symbol>, i: int, j: int, f: Formula)
    requires
        expr_spans(t, i, j, f),
    ensures
        f.names() == names_between(t, i, j),
    decreases j - i, 2int,
{
    if term_spans(t, i, j, f) {
        lemma_term_names(t, i, j, f);
    } else {
        let left = *f->BinaryOp_1;
        let right = *f->BinaryOp_2;
        let k = choose|k: int|
            i < k < j && (#[trigger] t[k]) is Or && expr_spans(t, i, k, left) && term_spans(
                t,
                k + 1,
                j,
                right,
            );
        lemma_expr_names(t, i, k, left);
        lemma_term_names(t, k + 1, j, right);
        lemma_names_split(t, i, k, j);
    }
}

/// The names at the leaves of a conditional's tree are the names that occur
/// in its text.
pub proof fn lemma_names_of_text(text: Seq<char>, f: Formula)
    requires
        parses_as(text, f),
    ensures
        f.names() == names_in(text),
{
    let t = symbols_of(text)->0;
    lemma_expr_names(t, 0, t.len() as int, f);
}

/// The names that occur in a conditional are variable names: one or more
/// letters, digits or underscores that spell no keyword.
pub proof fn lemma_names_are_words(text: Seq<char>, name: Seq<char>)
    requires
        symbols_of(text) is Some,
        names_in(text).contains(name),
    ensures
        is_name(name),
{
    let t = symbols_of(text)->0;
    let k = choose|k: int| 0 <= k < t.len() && #[trigger] t[k] == Symbol::Name(name);
    lemma_scanned_names(text, 0);
    assert(t[k] is Name);
}

/// A conditional whose text holds declared names only stays within the
/// declared names.
pub proof fn lemma_declared_names_validate(text: Seq<char>, f: Formula, declared: Set<Seq<char>>)
    requires
        parses_as(text, f),
        names_in(text).subset_of(declared),
    ensures
        f.within(declared),
{
    lemma_names_of_text(text, f);
}

/// A conditional whose text holds a name that is not declared does not stay
/// within the declared names.
pub proof fn lemma_undeclared_name_fails(
    text: Seq<char>,
    f: Formula,
    declared: Set<Seq<char>>,
    name: Seq<char>,
)
    requires
        parses_as(text, f),
        names_in(text).contains(name),
        !declared.contains(name),
    ensures
        !f.within(declared),
{
    lemma_names_of_text(text, f);
}

} // verus!
