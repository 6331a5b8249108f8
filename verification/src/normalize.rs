//! Reduction of terms: one step, bounded iteration and normal forms.

use crate::term::{SpecTerm, Term};
use vstd::prelude::*;

verus! {

/// The result of one reduction step, or `None` where the term is normal.
///
/// A redex at the head fires first: an abstraction applied to an argument, a
/// let-pair or a projection on a literal pair, a case on a literal injection,
/// and a dereliction, copy or discard on a literal promotion. Otherwise the
/// step is taken in the first subterm, from left to right, that can take one.
/// The branches of a case, the body of a copy and the inside of an abort are
/// never reduced.
pub open spec fn reduct(t: SpecTerm) -> Option<SpecTerm>
    decreases t,
{
    match t {
        SpecTerm::App(f, a) => match *f {
            SpecTerm::Abs(x, body) => Some(body.substitute(x, *a)),
            _ => match reduct(*f) {
                Some(g) => Some(SpecTerm::App(Box::new(g), a)),
                None => match reduct(*a) {
                    Some(b) => Some(SpecTerm::App(f, Box::new(b))),
                    None => None,
                },
            },
        },
        SpecTerm::LetPair(x, y, p, body) => match *p {
            SpecTerm::Pair(a, b) => Some(body.substitute(x, *a).substitute(y, *b)),
            _ => match reduct(*p) {
                Some(q) => Some(SpecTerm::LetPair(x, y, Box::new(q), body)),
                None => match reduct(*body) {
                    Some(c) => Some(SpecTerm::LetPair(x, y, p, Box::new(c))),
                    None => None,
                },
            },
        },
        SpecTerm::Case(s, x, l, y, r) => match *s {
            SpecTerm::Inl(v) => Some(l.substitute(x, *v)),
            SpecTerm::Inr(v) => Some(r.substitute(y, *v)),
            _ => match reduct(*s) {
                Some(u) => Some(SpecTerm::Case(Box::new(u), x, l, y, r)),
                None => None,
            },
        },
        SpecTerm::Fst(p) => match *p {
            SpecTerm::Pair(a, _) => Some(*a),
            _ => match reduct(*p) {
                Some(q) => Some(SpecTerm::Fst(Box::new(q))),
                None => None,
            },
        },
        SpecTerm::Snd(p) => match *p {
            SpecTerm::Pair(_, b) => Some(*b),
            _ => match reduct(*p) {
                Some(q) => Some(SpecTerm::Snd(Box::new(q))),
                None => None,
            },
        },
        SpecTerm::Derelict(e) => match *e {
            SpecTerm::Promote(v) => Some(*v),
            _ => match reduct(*e) {
                Some(d) => Some(SpecTerm::Derelict(Box::new(d))),
                None => None,
            },
        },
        SpecTerm::Copy(s, x, y, body) => match *s {
            SpecTerm::Promote(_) => Some(body.substitute(x, *s).substitute(y, *s)),
            _ => match reduct(*s) {
                Some(u) => Some(SpecTerm::Copy(Box::new(u), x, y, body)),
                None => None,
            },
        },
        SpecTerm::Discard(d, body) => match *d {
            SpecTerm::Promote(_) => Some(*body),
            _ => match reduct(*d) {
                Some(u) => Some(SpecTerm::Discard(Box::new(u), body)),
                None => match reduct(*body) {
                    Some(c) => Some(SpecTerm::Discard(d, Box::new(c))),
                    None => None,
                },
            },
        },
        SpecTerm::Abs(x, body) => match reduct(*body) {
            Some(c) => Some(SpecTerm::Abs(x, Box::new(c))),
            None => None,
        },
        SpecTerm::Pair(a, b) => match reduct(*a) {
            Some(c) => Some(SpecTerm::Pair(Box::new(c), b)),
            None => match reduct(*b) {
                Some(c) => Some(SpecTerm::Pair(a, Box::new(c))),
                None => None,
            },
        },
        SpecTerm::Inl(e) => match reduct(*e) {
            Some(c) => Some(SpecTerm::Inl(Box::new(c))),
            None => None,
        },
        SpecTerm::Inr(e) => match reduct(*e) {
            Some(c) => Some(SpecTerm::Inr(Box::new(c))),
            None => None,
        },
        SpecTerm::Promote(e) => match reduct(*e) {
            Some(c) => Some(SpecTerm::Promote(Box::new(c))),
            None => None,
        },
        SpecTerm::Var(_) => None,
        SpecTerm::Unit => None,
        SpecTerm::Trivial => None,
        SpecTerm::Abort(_) => None,
    }
}

/// A term is normal when no reduction step applies to it.
pub open spec fn normal(t: SpecTerm) -> bool {
    reduct(t) is None
}

/// The term reached from `t` after `n` reduction steps, or the normal form of
/// `t` where fewer than `n` steps lead to it.
pub open spec fn reduce(t: SpecTerm, n: nat) -> SpecTerm
    decreases n,
{
    if n == 0 {
        t
    } else {
        match reduct(t) {
            Some(u) => reduce(u, (n - 1) as nat),
            None => t,
        }
    }
}

/// Whether reduction of `t` ends: some number of steps leads to a normal term.
pub open spec fn normalizes(t: SpecTerm) -> bool {
    exists|n: nat| normal(#[trigger] reduce(t, n))
}

/// The normal form of a term whose reduction ends.
pub open spec fn normal_form(t: SpecTerm) -> SpecTerm {
    reduce(t, choose|n: nat| normal(#[trigger] reduce(t, n)))
}

/// The model of an optional term.
pub open spec fn option_model(r: Option<Term>) -> Option<SpecTerm> {
    match r {
        Some(t) => Some(t@),
        None => None,
    }
}

/// Once a normal term is reached, more steps change nothing.
pub proof fn lemma_reduce_stable(t: SpecTerm, n: nat, m: nat)
    requires
        normal(reduce(t, n)),
        n <= m,
    ensures
        reduce(t, m) == reduce(t, n),
    decreases n,
{
    if n == 0 {
        assert(reduce(t, m) == t);
    } else {
        match reduct(t) {
            Some(u) => {
                lemma_reduce_stable(u, (n - 1) as nat, (m - 1) as nat);
            },
            None => {},
        }
    }
}

/// Every number of steps that reaches a normal term reaches the normal form.
pub proof fn lemma_normal_form_unique(t: SpecTerm, n: nat)
    requires
        normal(reduce(t, n)),
    ensures
        normalizes(t),
        normal_form(t) == reduce(t, n),
        normal(normal_form(t)),
{
    let k = choose|k: nat| normal(#[trigger] reduce(t, k));
    if k <= n {
        lemma_reduce_stable(t, k, n);
    } else {
        lemma_reduce_stable(t, n, k);
    }
}

/// Taking one step does not change whether reduction ends, nor the normal form.
pub proof fn lemma_normal_form_step(t: SpecTerm)
    requires
        normalizes(t),
    ensures
        match reduct(t) {
            Some(u) => normalizes(u) && normal_form(u) == normal_form(t),
            None => normal_form(t) == t,
        },
{
    let k = choose|k: nat| normal(#[trigger] reduce(t, k));
    match reduct(t) {
        Some(u) => {
            assert(k > 0);
            lemma_normal_form_unique(u, (k - 1) as nat);
        },
        None => {
            assert(reduce(t, k) == t);
        },
    }
}

/// Normalization is idempotent: the normal form of a term is its own normal
/// form.
pub proof fn lemma_normalize_idempotent(t: SpecTerm)
    requires
        normalizes(t),
    ensures
        normalizes(normal_form(t)),
        normal_form(normal_form(t)) == normal_form(t),
{
    let k = choose|k: nat| normal(#[trigger] reduce(t, k));
    let u = normal_form(t);
    assert(reduce(u, 0) == u);
    lemma_normal_form_unique(u, 0);
}

/// Bounded reduction with no steps allowed returns the term as it is.
pub proof fn lemma_reduce_zero(t: SpecTerm)
    ensures
        reduce(t, 0) == t,
{
}

/// Number of nodes of a term.
pub open spec fn size(t: SpecTerm) -> nat
    decreases t,
{
    match t {
        SpecTerm::Var(_) => 1,
        SpecTerm::Unit => 1,
        SpecTerm::Trivial => 1,
        SpecTerm::Abs(_, b) => 1 + size(*b),
        SpecTerm::App(f, a) => 1 + size(*f) + size(*a),
        SpecTerm::Pair(a, b) => 1 + size(*a) + size(*b),
        SpecTerm::LetPair(_, _, p, b) => 1 + size(*p) + size(*b),
        SpecTerm::Inl(e) => 1 + size(*e),
        SpecTerm::Inr(e) => 1 + size(*e),
        SpecTerm::Case(s, _, l, _, r) => 1 + size(*s) + size(*l) + size(*r),
        SpecTerm::Promote(e) => 1 + size(*e),
        SpecTerm::Derelict(e) => 1 + size(*e),
        SpecTerm::Copy(s, _, _, b) => 1 + size(*s) + size(*b),
        SpecTerm::Discard(d, b) => 1 + size(*d) + size(*b),
        SpecTerm::Abort(e) => 1 + size(*e),
        SpecTerm::Fst(e) => 1 + size(*e),
        SpecTerm::Snd(e) => 1 + size(*e),
    }
}

/// The terms in which nothing is ever substituted: they are built without
/// application, let-pair, case, projection and abort, they copy variables
/// only, and they discard the unit only. Their only redexes are derelictions
/// of promotions.
pub open spec fn steady(t: SpecTerm) -> bool
    decreases t,
{
    match t {
        SpecTerm::Var(_) => true,
        SpecTerm::Unit => true,
        SpecTerm::Trivial => true,
        SpecTerm::Abs(_, b) => steady(*b),
        SpecTerm::Pair(a, b) => steady(*a) && steady(*b),
        SpecTerm::Inl(e) => steady(*e),
        SpecTerm::Inr(e) => steady(*e),
        SpecTerm::Promote(e) => steady(*e),
        SpecTerm::Derelict(e) => steady(*e),
        SpecTerm::Copy(s, _, _, _) => *s is Var,
        SpecTerm::Discard(d, b) => *d is Unit && steady(*b),
        _ => false,
    }
}

/// A step on a steady term gives a smaller steady term.
pub proof fn lemma_steady_step(t: SpecTerm)
    requires
        steady(t),
    ensures
        reduct(t) matches Some(u) ==> steady(u) && size(u) < size(t),
    decreases t,
{
    reveal_with_fuel(steady, 2);
    reveal_with_fuel(size, 2);
    reveal_with_fuel(reduct, 2);
    match t {
        SpecTerm::Abs(_, b) => lemma_steady_step(*b),
        SpecTerm::Pair(a, b) => {
            lemma_steady_step(*a);
            lemma_steady_step(*b);
        },
        SpecTerm::Inl(e) => lemma_steady_step(*e),
        SpecTerm::Inr(e) => lemma_steady_step(*e),
        SpecTerm::Promote(e) => lemma_steady_step(*e),
        SpecTerm::Derelict(e) => lemma_steady_step(*e),
        SpecTerm::Discard(d, b) => lemma_steady_step(*b),
        _ => {},
    }
}

/// Reduction of a steady term ends, within as many steps as the term has
/// nodes.
pub proof fn lemma_steady_normalizes(t: SpecTerm, n: nat)
    requires
        steady(t),
        size(t) <= n,
    ensures
        normal(reduce(t, n)),
        normalizes(t),
    decreases n,
{
    lemma_steady_step(t);
    if n > 0 {
        if let Some(u) = reduct(t) {
            lemma_steady_normalizes(u, (n - 1) as nat);
        }
    }
}

/// Performs one step of reduction, if possible.
pub fn step(term: &Term) -> (r: Option<Term>)
    ensures
        option_model(r) == reduct(term@),
    decreases term,
{
    proof {
        reveal_with_fuel(Term::model, 3);
    }
    match term {
        Term::App(f, arg) => {
            if let Term::Abs(x, body) = &**f {
                Some(body.substitute_name(x, arg))
            } else if let Some(f_reduced) = step(f) {
                Some(Term::App(Box::new(f_reduced), Box::new((&**arg).clone())))
            } else if let Some(arg_reduced) = step(arg) {
                Some(Term::App(Box::new((&**f).clone()), Box::new(arg_reduced)))
            } else {
                None
            }
        },
        Term::LetPair(x, y, pair, body) => {
            if let Term::Pair(a, b) = &**pair {
                Some(body.substitute_name(x, a).substitute_name(y, b))
            } else if let Some(pair_reduced) = step(pair) {
                Some(
                    Term::LetPair(
                        x.clone(),
                        y.clone(),
                        Box::new(pair_reduced),
                        Box::new((&**body).clone()),
                    ),
                )
            } else if let Some(body_reduced) = step(body) {
                Some(
                    Term::LetPair(
                        x.clone(),
                        y.clone(),
                        Box::new((&**pair).clone()),
                        Box::new(body_reduced),
                    ),
                )
            } else {
                None
            }
        },
        Term::Case(scrut, x, left, y, right) => {
            match &**scrut {
                Term::Inl(v) => Some(left.substitute_name(x, v)),
                Term::Inr(v) => Some(right.substitute_name(y, v)),
                _ => {
                    if let Some(scrut_reduced) = step(scrut) {
                        Some(
                            Term::Case(
                                Box::new(scrut_reduced),
                                x.clone(),
                                Box::new((&**left).clone()),
                                y.clone(),
                                Box::new((&**right).clone()),
                            ),
                        )
                    } else {
                        None
                    }
                },
            }
        },
        Term::Fst(pair) => {
            if let Term::Pair(a, _) = &**pair {
                Some((&**a).clone())
            } else if let Some(pair_reduced) = step(pair) {
                Some(Term::Fst(Box::new(pair_reduced)))
            } else {
                None
            }
        },
        Term::Snd(pair) => {
            if let Term::Pair(_, b) = &**pair {
                Some((&**b).clone())
            } else if let Some(pair_reduced) = step(pair) {
                Some(Term::Snd(Box::new(pair_reduced)))
            } else {
                None
            }
        },
        Term::Derelict(e) => {
            if let Term::Promote(v) = &**e {
                Some((&**v).clone())
            } else if let Some(e_reduced) = step(e) {
                Some(Term::Derelict(Box::new(e_reduced)))
            } else {
                None
            }
        },
        Term::Copy(src, x, y, body) => {
            if let Term::Promote(_) = &**src {
                Some(body.substitute_name(x, src).substitute_name(y, src))
            } else if let Some(src_reduced) = step(src) {
                Some(
                    Term::Copy(
                        Box::new(src_reduced),
                        x.clone(),
                        y.clone(),
                        Box::new((&**body).clone()),
                    ),
                )
            } else {
                None
            }
        },
        Term::Discard(discarded, body) => {
            if let Term::Promote(_) = &**discarded {
                Some((&**body).clone())
            } else if let Some(discarded_reduced) = step(discarded) {
                Some(Term::Discard(Box::new(discarded_reduced), Box::new((&**body).clone())))
            } else if let Some(body_reduced) = step(body) {
                Some(Term::Discard(Box::new((&**discarded).clone()), Box::new(body_reduced)))
            } else {
                None
            }
        },
        Term::Abs(x, body) => {
            match step(body) {
                Some(reduced) => Some(Term::Abs(x.clone(), Box::new(reduced))),
                None => None,
            }
        },
        Term::Pair(a, b) => {
            if let Some(a_reduced) = step(a) {
                Some(Term::Pair(Box::new(a_reduced), Box::new((&**b).clone())))
            } else {
                match step(b) {
                    Some(b_reduced) => Some(
                        Term::Pair(Box::new((&**a).clone()), Box::new(b_reduced)),
                    ),
                    None => None,
                }
            }
        },
        Term::Inl(e) => match step(e) {
            Some(reduced) => Some(Term::Inl(Box::new(reduced))),
            None => None,
        },
        Term::Inr(e) => match step(e) {
            Some(reduced) => Some(Term::Inr(Box::new(reduced))),
            None => None,
        },
        Term::Promote(e) => match step(e) {
            Some(reduced) => Some(Term::Promote(Box::new(reduced))),
            None => None,
        },
        Term::Var(_) => None,
        Term::Unit => None,
        Term::Trivial => None,
        Term::Abort(_) => None,
    }
}

/// Reduces a term to its normal form.
///
/// Reduction of the term must end; [`normalize_bounded`] takes any term.
pub fn normalize(term: &Term) -> (r: Term)
    requires
        normalizes(term@),
    ensures
        r@ == normal_form(term@),
        normal(r@),
{
    let mut current = term.clone();
    let ghost mut left: nat = choose|n: nat| normal(#[trigger] reduce(term@, n));
    proof {
        lemma_normal_form_unique(term@, left);
    }
    loop
        invariant
            normal(reduce(current@, left)),
            reduce(current@, left) == normal_form(term@),
        ensures
            current@ == normal_form(term@),
            normal(current@),
        decreases left,
    {
        match step(&current) {
            Some(reduced) => {
                proof {
                    left = (left - 1) as nat;
                }
                current = reduced;
            },
            None => {
                break ;
            },
        }
    }
    current
}

/// Reduces a term by at most `max_steps` steps.
pub fn normalize_bounded(term: &Term, max_steps: usize) -> (r: Term)
    ensures
        r@ == reduce(term@, max_steps as nat),
        max_steps == 0 ==> r@ == term@,
{
    let mut current = term.clone();
    let mut done: usize = 0;
    while done < max_steps
        invariant
            done <= max_steps,
            reduce(current@, (max_steps - done) as nat) == reduce(term@, max_steps as nat),
        ensures
            current@ == reduce(term@, max_steps as nat),
        decreases max_steps - done,
    {
        match step(&current) {
            Some(reduced) => {
                current = reduced;
                done = done + 1;
            },
            None => {
                break ;
            },
        }
    }
    current
}

/// Checks whether a term is in normal form.
pub fn is_normal(term: &Term) -> (r: bool)
    ensures
        r == normal(term@),
{
    step(term).is_none()
}

} // verus!
