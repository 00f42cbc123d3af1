//! A recursive-descent parser for the grammar of conditionals, proved to
//! accept exactly the sequences of symbols that the grammar derives.

use super::expression::{Expression, Formula, Operator};
use super::grammar::{derives, expr_spans, factor_spans, term_spans};
use super::lexer::{symbols, Symbol, Token};
use vstd::prelude::*;

verus! {

// What the parser computes, as functions on symbols. Each takes a position
// and gives the tree read from there with the position behind it.

spec fn model_factor(t: Seq<Symbol>, i: int) -> Option<(Formula, int)>
    decreases t.len() - i, 0int,
{
    if i < 0 || i >= t.len() {
        None
    } else {
        match t[i] {
            Symbol::Name(name) => Some((Formula::Variable(name), i + 1)),
            Symbol::Open => match model_expr(t, i + 1) {
                Some((f, j)) => if j < t.len() && t[j] is Close {
                    Some((f, j + 1))
                } else {
                    None
                },
                None => None,
            },
            _ => None,
        }
    }
}

spec fn model_term_tail(t: Seq<Symbol>, acc: Formula, j: int) -> Option<(Formula, int)>
    decreases t.len() - j, 1int,
{
    if 0 <= j < t.len() && t[j] is And {
        match model_factor(t, j + 1) {
            Some((f, k)) => if j < k <= t.len() {
                model_term_tail(t, Formula::BinaryOp(Operator::And, Box::new(acc), Box::new(f)), k)
            } else {
                None
            },
            None => None,
        }
    } else {
        Some((acc, j))
    }
}

spec fn model_term(t: Seq<Symbol>, i: int) -> Option<(Formula, int)>
    decreases t.len() - i, 2int,
{
    match model_factor(t, i) {
        Some((f, j)) => if i < j <= t.len() {
            model_term_tail(t, f, j)
        } else {
            None
        },
        None => None,
    }
}

spec fn model_expr_tail(t: Seq<Symbol>, acc: Formula, j: int) -> Option<(Formula, int)>
    decreases t.len() - j, 3int,
{
    if 0 <= j < t.len() && t[j] is Or {
        match model_term(t, j + 1) {
            Some((f, k)) => if j < k <= t.len() {
                model_expr_tail(t, Formula::BinaryOp(Operator::Or, Box::new(acc), Box::new(f)), k)
            } else {
                None
            },
            None => None,
        }
    } else {
        Some((acc, j))
    }
}

spec fn model_expr(t: Seq<Symbol>, i: int) -> Option<(Formula, int)>
    decreases t.len() - i, 4int,
{
    match model_term(t, i) {
        Some((f, j)) => if i < j <= t.len() {
            model_expr_tail(t, f, j)
        } else {
            None
        },
        None => None,
    }
}

spec fn model_parse(t: Seq<Symbol>) -> Option<Formula> {
    match model_expr(t, 0) {
        Some((f, j)) => if j == t.len() {
            Some(f)
        } else {
            None
        },
        None => None,
    }
}

// Whatever the parser reads is derived by the grammar.

proof fn lemma_factor_sound(t: Seq<Symbol>, i: int)
    requires
        model_factor(t, i) is Some,
    ensures
        model_factor(t, i) matches Some((f, j)) && factor_spans(t, i, j, f),
    decreases t.len() - i, 0int,
{
    if t[i] is Open {
        lemma_expr_sound(t, i + 1);
    }
}

proof fn lemma_term_tail_sound(t: Seq<Symbol>, start: int, acc: Formula, j: int)
    requires
        term_spans(t, start, j, acc),
        model_term_tail(t, acc, j) is Some,
    ensures
        model_term_tail(t, acc, j) matches Some((f, k)) && term_spans(t, start, k, f),
    decreases t.len() - j, 1int,
{
    if j < t.len() && t[j] is And {
        lemma_factor_sound(t, j + 1);
        let (f, k) = model_factor(t, j + 1)->0;
        let next = Formula::BinaryOp(Operator::And, Box::new(acc), Box::new(f));
        assert(term_spans(t, start, j, acc) && factor_spans(t, j + 1, k, f));
        assert(term_spans(t, start, k, next));
        lemma_term_tail_sound(t, start, next, k);
    }
}

proof fn lemma_term_sound(t: Seq<Symbol>, i: int)
    requires
        model_term(t, i) is Some,
    ensures
        model_term(t, i) matches Some((f, j)) && term_spans(t, i, j, f),
    decreases t.len() - i, 2int,
{
    lemma_factor_sound(t, i);
    let (f, j) = model_factor(t, i)->0;
    lemma_term_tail_sound(t, i, f, j);
}

proof fn lemma_expr_tail_sound(t: Seq<Symbol>, start: int, acc: Formula, j: int)
    requires
        expr_spans(t, start, j, acc),
        model_expr_tail(t, acc, j) is Some,
    ensures
        model_expr_tail(t, acc, j) matches Some((f, k)) && expr_spans(t, start, k, f),
    decreases t.len() - j, 3int,
{
    if j < t.len() && t[j] is Or {
        lemma_term_sound(t, j + 1);
        let (f, k) = model_term(t, j + 1)->0;
        let next = Formula::BinaryOp(Operator::Or, Box::new(acc), Box::new(f));
        assert(expr_spans(t, start, j, acc) && term_spans(t, j + 1, k, f));
        assert(expr_spans(t, start, k, next));
        lemma_expr_tail_sound(t, start, next, k);
    }
}

proof fn lemma_expr_sound(t: Seq<Symbol>, i: int)
    requires
        model_expr(t, i) is Some,
    ensures
        model_expr(t, i) matches Some((f, j)) && expr_spans(t, i, j, f),
    decreases t.len() - i, 4int,
{
    lemma_term_sound(t, i);
    let (f, j) = model_term(t, i)->0;
    lemma_expr_tail_sound(t, i, f, j);
}

// Whatever the grammar derives is what the parser reads.

proof fn lemma_factor_complete(t: Seq<Symbol>, i: int, j: int, f: Formula)
    requires
        factor_spans(t, i, j, f),
    ensures
        model_factor(t, i) == Some((f, j)),
    decreases j - i, 0int,
{
    if t[i] is Open {
        lemma_expr_complete(t, i + 1, j - 1, f);
    }
}

proof fn lemma_term_reach(t: Seq<Symbol>, i: int, j: int, f: Formula)
    requires
        term_spans(t, i, j, f),
    ensures
        model_term(t, i) == model_term_tail(t, f, j),
    decreases j - i, 1int,
{
    if factor_spans(t, i, j, f) {
        lemma_factor_complete(t, i, j, f);
    } else {
        let left = *f->BinaryOp_1;
        let right = *f->BinaryOp_2;
        let k = choose|k: int|
            i < k < j && (#[trigger] t[k]) is And && term_spans(t, i, k, left) && factor_spans(
                t,
                k + 1,
                j,
                right,
            );
        lemma_term_reach(t, i, k, left);
        lemma_factor_complete(t, k + 1, j, right);
    }
}

proof fn lemma_term_complete(t: Seq<Symbol>, i: int, j: int, f: Formula)
    requires
        term_spans(t, i, j, f),
        j == t.len() || !(t[j] is And),
    ensures
        model_term(t, i) == Some((f, j)),
    decreases j - i, 2int,
{
    lemma_term_reach(t, i, j, f);
}

proof fn lemma_expr_reach(t: Seq<Symbol>, i: int, j: int, f: Formula)
    requires
        expr_spans(t, i, j, f),
        j == t.len() || !(t[j] is And),
    ensures
        model_expr(t, i) == model_expr_tail(t, f, j),
    decreases j - i, 3int,
{
    if term_spans(t, i, j, f) {
        lemma_term_complete(t, i, j, f);
    } else {
        let left = *f->BinaryOp_1;
        let right = *f->BinaryOp_2;
        let k = choose|k: int|
            i < k < j && (#[trigger] t[k]) is Or && expr_spans(t, i, k, left) && term_spans(
                t,
                k + 1,
                j,
                right,
            );
        lemma_expr_reach(t, i, k, left);
        lemma_term_complete(t, k + 1, j, right);
    }
}

proof fn lemma_expr_complete(t: Seq<Symbol>, i: int, j: int, f: Formula)
    requires
        expr_spans(t, i, j, f),
        j == t.len() || !(t[j] is And || t[j] is Or),
    ensures
        model_expr(t, i) == Some((f, j)),
    decreases j - i, 4int,
{
    lemma_expr_reach(t, i, j, f);
}

/// The parser's model returns `f` exactly when the grammar derives `f`.
proof fn lemma_model_exact(t: Seq<Symbol>, f: Formula)
    ensures
        model_parse(t) == Some(f) <==> derives(t, f),
{
    if model_parse(t) == Some(f) {
        lemma_expr_sound(t, 0);
    }
    if derives(t, f) {
        lemma_expr_complete(t, 0, t.len() as int, f);
    }
}

/// A sequence of symbols denotes at most one tree.
pub proof fn lemma_derives_unique(t: Seq<Symbol>, f: Formula, g: Formula)
    requires
        derives(t, f),
        derives(t, g),
    ensures
        f == g,
{
    lemma_model_exact(t, f);
    lemma_model_exact(t, g);
}

// The parser itself, on tokens.

fn parse_factor(tokens: &Vec<Token>, i: usize) -> (r: Option<(Expression, usize)>)
    requires
        i <= tokens.len(),
    ensures
        match r {
            Some((e, j)) => i < j <= tokens.len() && model_factor(symbols(tokens@), i as int)
                == Some((e@, j as int)),
            None => model_factor(symbols(tokens@), i as int) is None,
        },
    decreases tokens.len() - i, 0int,
{
    if i >= tokens.len() {
        return None;
    }
    match &tokens[i] {
        Token::Name(name) => Some((Expression::Variable(name.clone()), i + 1)),
        Token::Open => match parse_expr(tokens, i + 1) {
            Some((e, j)) => if j < tokens.len() && tokens[j].is_close() {
                Some((e, j + 1))
            } else {
                None
            },
            None => None,
        },
        _ => None,
    }
}

fn parse_term(tokens: &Vec<Token>, i: usize) -> (r: Option<(Expression, usize)>)
    requires
        i <= tokens.len(),
    ensures
        match r {
            Some((e, j)) => i < j <= tokens.len() && model_term(symbols(tokens@), i as int)
                == Some((e@, j as int)),
            None => model_term(symbols(tokens@), i as int) is None,
        },
    decreases tokens.len() - i, 2int,
{
    let (first, after) = match parse_factor(tokens, i) {
        Some(read) => read,
        None => return None,
    };
    let mut acc = first;
    let mut j = after;
    while j < tokens.len() && tokens[j].is_and()
        invariant
            i < j <= tokens.len(),
            model_term(symbols(tokens@), i as int) == model_term_tail(
                symbols(tokens@),
                acc@,
                j as int,
            ),
        decreases tokens.len() - j,
    {
        match parse_factor(tokens, j + 1) {
            Some((f, k)) => {
                acc = Expression::BinaryOp(Operator::And, Box::new(acc), Box::new(f));
                j = k;
            },
            None => return None,
        }
    }
    Some((acc, j))
}

fn parse_expr(tokens: &Vec<Token>, i: usize) -> (r: Option<(Expression, usize)>)
    requires
        i <= tokens.len(),
    ensures
        match r {
            Some((e, j)) => i < j <= tokens.len() && model_expr(symbols(tokens@), i as int)
                == Some((e@, j as int)),
            None => model_expr(symbols(tokens@), i as int) is None,
        },
    decreases tokens.len() - i, 4int,
{
    let (first, after) = match parse_term(tokens, i) {
        Some(read) => read,
        None => return None,
    };
    let mut acc = first;
    let mut j = after;
    while j < tokens.len() && tokens[j].is_or()
        invariant
            i < j <= tokens.len(),
            model_expr(symbols(tokens@), i as int) == model_expr_tail(
                symbols(tokens@),
                acc@,
                j as int,
            ),
        decreases tokens.len() - j,
    {
        match parse_term(tokens, j + 1) {
            Some((f, k)) => {
                acc = Expression::BinaryOp(Operator::Or, Box::new(acc), Box::new(f));
                j = k;
            },
            None => return None,
        }
    }
    Some((acc, j))
}

/// Reads a whole sequence of tokens as one expression. Returns the tree that
/// the grammar derives for them, or `None` exactly when it derives none.
pub fn parse_tokens(tokens: &Vec<Token>) -> (r: Option<Expression>)
    ensures
        match r {
            Some(e) => derives(symbols(tokens@), e@),
            None => forall|f: Formula| !derives(symbols(tokens@), f),
        },
{
    let ghost t = symbols(tokens@);
    let r = match parse_expr(tokens, 0) {
        Some((e, j)) => if j == tokens.len() {
            Some(e)
        } else {
            None
        },
        None => None,
    };
    proof {
        if let Some(e) = &r {
            lemma_model_exact(t, e@);
        } else {
            assert forall|f: Formula| !derives(t, f) by {
                lemma_model_exact(t, f);
            }
        }
    }
    r
}

} // verus!
