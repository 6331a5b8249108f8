//! Bounded, focused, backward proof search.

use crate::calculus::{closed, first_invertible, keeps_focus, proves};
use crate::derivation::{Proof, Rule, SpecProof, SpecRule};
use crate::formula::{
    clone_formulas, dual_atoms, find_head, has_head, lemma_models_push, models, splice, spliced,
    Formula, Head, SpecFormula,
};
use crate::sequent::{negate_all, Sequent, TwoSidedSequent};
use crate::soundness::{
    lemma_search_characterization, lemma_search_sound, lemma_search_well_formed,
};
use crate::verify::{first_error, well_formed};
use vstd::prelude::*;

verus! {

/// A proof tree without premises.
pub open spec fn leaf(ctx: Seq<SpecFormula>, rule: SpecRule) -> SpecProof {
    SpecProof { conclusion: ctx, rule, premises: Seq::empty() }
}

/// The proof tree with one premise, where the premise was found.
pub open spec fn unary(ctx: Seq<SpecFormula>, rule: SpecRule, premise: Option<SpecProof>) -> Option<
    SpecProof,
> {
    match premise {
        Some(p) => Some(SpecProof { conclusion: ctx, rule, premises: seq![p] }),
        None => None,
    }
}

/// The proof tree with two premises, where both were found.
pub open spec fn binary(
    ctx: Seq<SpecFormula>,
    rule: SpecRule,
    left: Option<SpecProof>,
    right: Option<SpecProof>,
) -> Option<SpecProof> {
    match (left, right) {
        (Some(l), Some(r)) => Some(SpecProof { conclusion: ctx, rule, premises: seq![l, r] }),
        _ => None,
    }
}

/// The first of two attempts that found a proof.
pub open spec fn or_else(first: Option<SpecProof>, second: Option<SpecProof>) -> Option<
    SpecProof,
> {
    match first {
        Some(p) => Some(p),
        None => second,
    }
}

/// The context with the formula at `i` replaced by `middle`.
pub open spec fn put(ctx: Seq<SpecFormula>, i: int, middle: Seq<SpecFormula>) -> Seq<SpecFormula> {
    spliced(ctx, i, i + 1, middle)
}

/// Whether every formula but the one at `i` is a why-not.
pub open spec fn others_why_not(ctx: Seq<SpecFormula>, i: int) -> bool {
    forall|j: int| 0 <= j < ctx.len() && j != i ==> (#[trigger] ctx[j]) is WhyNot
}

/// The proof that the search finds for the context `ctx` with `depth` rule
/// applications allowed along a branch, or `None` where it finds none.
///
/// A context that holds top, that is an atom with its negation, or that is the
/// formula one alone is proved at once, at any depth. Any other step needs
/// depth. The first invertible formula, if there is one, is decomposed; else
/// the positive formulas are tried as the focus, from left to right; else the
/// of-course formulas are derelicted, from left to right.
pub open spec fn search(ctx: Seq<SpecFormula>, depth: nat) -> Option<SpecProof>
    decreases depth, 3nat, 0nat,
{
    if has_head(ctx, Head::Top) {
        Some(leaf(ctx, SpecRule::TopIntro))
    } else if ctx.len() == 2 && dual_atoms(ctx[0], ctx[1]) {
        Some(leaf(ctx, SpecRule::Axiom))
    } else if ctx.len() == 1 && ctx[0] is One {
        Some(leaf(ctx, SpecRule::OneIntro))
    } else if depth == 0 {
        None
    } else {
        match first_invertible(ctx, 0) {
            Some(i) => invert(ctx, i as int, depth),
            None => or_else(focus_from(ctx, 0, depth), derelict_from(ctx, 0, depth)),
        }
    }
}

/// The proof found with the focus coming in on the formula at `j`: where the
/// focus stays on it, the formula is decomposed, and nothing else is tried;
/// else the search starts afresh.
pub open spec fn follow(ctx: Seq<SpecFormula>, j: int, depth: nat) -> Option<SpecProof>
    decreases depth, 4nat, 0nat,
{
    if depth > 0 && keeps_focus(ctx, j) {
        focus_on(ctx, j, depth)
    } else {
        search(ctx, depth)
    }
}

/// The proof found by decomposing the invertible formula at `i`.
///
/// Par is replaced by its two sides and bottom is removed. With needs a proof
/// for each side, over the same remaining context. Why-not is replaced by its
/// operand; where that finds no proof it is discarded, and where that finds
/// none either it is duplicated.
pub open spec fn invert(ctx: Seq<SpecFormula>, i: int, depth: nat) -> Option<SpecProof>
    decreases depth, 1nat, 0nat,
{
    if depth == 0 || !(0 <= i < ctx.len()) {
        None
    } else {
        let d = (depth - 1) as nat;
        match ctx[i] {
            SpecFormula::Par(a, b) => unary(
                ctx,
                SpecRule::ParIntro,
                search(put(ctx, i, seq![*a, *b]), d),
            ),
            SpecFormula::Bottom => unary(
                ctx,
                SpecRule::BottomIntro,
                search(put(ctx, i, Seq::empty()), d),
            ),
            SpecFormula::With(a, b) => binary(
                ctx,
                SpecRule::WithIntro,
                search(put(ctx, i, seq![*a]), d),
                search(put(ctx, i, seq![*b]), d),
            ),
            SpecFormula::WhyNot(a) => or_else(
                unary(ctx, SpecRule::WhyNotIntro, search(put(ctx, i, seq![*a]), d)),
                or_else(
                    unary(ctx, SpecRule::Weakening, search(put(ctx, i, Seq::empty()), d)),
                    unary(
                        ctx,
                        SpecRule::Contraction,
                        search(put(ctx, i, seq![ctx[i], ctx[i]]), d),
                    ),
                ),
            ),
            _ => None,
        }
    }
}

/// The proof found with the focus on the first formula from `i` on that gives
/// one.
pub open spec fn focus_from(ctx: Seq<SpecFormula>, i: nat, depth: nat) -> Option<SpecProof>
    decreases depth, 2nat, ctx.len() - i,
{
    if i >= ctx.len() {
        None
    } else {
        or_else(focus_on(ctx, i as int, depth), focus_from(ctx, i + 1, depth))
    }
}

/// The proof found with the focus on the formula at `i`.
///
/// A tensor splits the other formulas between its two sides, in every way. A
/// plus is proved from its left side, or else from its right side. In these
/// premises the focus goes on to the side. An of-course is promoted where
/// every other formula is a why-not; the focus ends there. No other formula
/// can be the focus.
pub open spec fn focus_on(ctx: Seq<SpecFormula>, i: int, depth: nat) -> Option<SpecProof>
    decreases depth, 1nat, 0nat,
{
    if depth == 0 || !(0 <= i < ctx.len()) {
        None
    } else {
        let d = (depth - 1) as nat;
        match ctx[i] {
            SpecFormula::Tensor(a, b) => split(
                ctx,
                *a,
                *b,
                ctx.remove(i),
                0,
                Seq::empty(),
                Seq::empty(),
                depth,
            ),
            SpecFormula::Plus(a, b) => or_else(
                unary(ctx, SpecRule::PlusIntroLeft, follow(put(ctx, i, seq![*a]), i, d)),
                unary(ctx, SpecRule::PlusIntroRight, follow(put(ctx, i, seq![*b]), i, d)),
            ),
            SpecFormula::OfCourse(a) => if others_why_not(ctx, i) {
                unary(ctx, SpecRule::OfCourseIntro, search(put(ctx, i, seq![*a]), d))
            } else {
                None
            },
            _ => None,
        }
    }
}

/// The proof of `ctx` by tensor-introduction found by giving each of the
/// formulas `others` from `k` on to the left premise or to the right one, the
/// left being tried first. The formulas before `k` have been given out
/// already, as `left` and `right`. The left premise ends in `a`, the right one
/// in `b`, and the focus goes on to them.
pub open spec fn split(
    ctx: Seq<SpecFormula>,
    a: SpecFormula,
    b: SpecFormula,
    others: Seq<SpecFormula>,
    k: nat,
    left: Seq<SpecFormula>,
    right: Seq<SpecFormula>,
    depth: nat,
) -> Option<SpecProof>
    decreases depth, 0nat, others.len() - k,
{
    if depth == 0 {
        None
    } else if k >= others.len() {
        binary(
            ctx,
            SpecRule::TensorIntro,
            follow(left.push(a), left.len() as int, (depth - 1) as nat),
            follow(right.push(b), right.len() as int, (depth - 1) as nat),
        )
    } else {
        or_else(
            split(ctx, a, b, others, k + 1, left.push(others[k as int]), right, depth),
            split(ctx, a, b, others, k + 1, left, right.push(others[k as int]), depth),
        )
    }
}

/// The proof found by dereliction of the first of-course formula from `i` on
/// that gives one: the formula is replaced by its operand.
pub open spec fn derelict_from(ctx: Seq<SpecFormula>, i: nat, depth: nat) -> Option<SpecProof>
    decreases depth, 2nat, ctx.len() - i,
{
    if depth == 0 || i >= ctx.len() {
        None
    } else {
        let here = match ctx[i as int] {
            SpecFormula::OfCourse(a) => unary(
                ctx,
                SpecRule::Dereliction,
                search(put(ctx, i as int, seq![*a]), (depth - 1) as nat),
            ),
            _ => None,
        };
        or_else(here, derelict_from(ctx, i + 1, depth))
    }
}

/// The desugared forms of a sequence of formulas, in order.
pub open spec fn desugar_all(fs: Seq<SpecFormula>) -> Seq<SpecFormula> {
    Seq::new(fs.len(), |i: int| fs[i].desugar())
}

/// The model of an optional proof tree.
pub open spec fn option_model(r: Option<Proof>) -> Option<SpecProof> {
    match r {
        Some(p) => Some(p@),
        None => None,
    }
}

/// An empty list of formulas.
fn none() -> (r: Vec<Formula>)
    ensures
        models(r@) == Seq::<SpecFormula>::empty(),
{
    Vec::new()
}

/// The list of one formula.
fn one(a: &Formula) -> (r: Vec<Formula>)
    ensures
        models(r@) == seq![a@],
{
    let mut v: Vec<Formula> = Vec::new();
    v.push(a.clone());
    v
}

/// The list of two formulas.
fn two(a: &Formula, b: &Formula) -> (r: Vec<Formula>)
    ensures
        models(r@) == seq![a@, b@],
{
    let mut v: Vec<Formula> = Vec::new();
    v.push(a.clone());
    v.push(b.clone());
    v
}

/// Copies the context with the formula at `i` replaced by `middle`.
fn put_at(ctx: &Vec<Formula>, i: usize, middle: Vec<Formula>) -> (r: Vec<Formula>)
    requires
        i < ctx.len(),
    ensures
        models(r@) == put(models(ctx@), i as int, models(middle@)),
{
    splice(ctx, i, i + 1, middle)
}

/// Copies the list with one more formula at its end.
fn with_last(list: &Vec<Formula>, f: &Formula) -> (r: Vec<Formula>)
    ensures
        models(r@) == models(list@).push(f@),
{
    let r = splice(list, list.len(), list.len(), one(f));
    proof {
        let m = models(list@);
        assert(m.take(m.len() as int) == m);
        assert(m.skip(m.len() as int) == Seq::<SpecFormula>::empty());
        assert(m + seq![f@] + Seq::<SpecFormula>::empty() == m.push(f@));
    }
    r
}

/// Builds a proof tree without premises.
fn close(ctx: &Vec<Formula>, rule: Rule) -> (r: Proof)
    ensures
        r@ == leaf(models(ctx@), rule@),
{
    let r = Proof { conclusion: Sequent::new(clone_formulas(ctx)), rule, premises: Vec::new() };
    proof {
        r.lemma_model();
        assert(r@.premises == Seq::<SpecProof>::empty());
    }
    r
}

/// Builds the proof tree with one premise, where the premise was found.
fn above(ctx: &Vec<Formula>, rule: Rule, premise: Option<Proof>) -> (r: Option<Proof>)
    ensures
        option_model(r) == unary(models(ctx@), rule@, option_model(premise)),
{
    match premise {
        Some(p) => {
            let ghost pm = p@;
            let mut premises: Vec<Proof> = Vec::new();
            premises.push(p);
            let r = Proof { conclusion: Sequent::new(clone_formulas(ctx)), rule, premises };
            proof {
                r.lemma_model();
                assert(r@.premises == seq![pm]);
            }
            Some(r)
        },
        None => None,
    }
}

/// Builds the proof tree with two premises.
fn join(ctx: &Vec<Formula>, rule: Rule, left: Proof, right: Proof) -> (r: Proof)
    ensures
        Some(r@) == binary(models(ctx@), rule@, Some(left@), Some(right@)),
{
    let ghost lm = left@;
    let ghost rm = right@;
    let mut premises: Vec<Proof> = Vec::new();
    premises.push(left);
    premises.push(right);
    let r = Proof { conclusion: Sequent::new(clone_formulas(ctx)), rule, premises };
    proof {
        r.lemma_model();
        assert(r@.premises == seq![lm, rm]);
    }
    r
}

/// Finds the first invertible formula.
fn find_invertible(ctx: &Vec<Formula>) -> (r: Option<usize>)
    ensures
        match r {
            Some(i) => i < ctx.len() && first_invertible(models(ctx@), 0) == Some(i as nat),
            None => first_invertible(models(ctx@), 0) is None,
        },
{
    let ghost m = models(ctx@);
    let mut i: usize = 0;
    while i < ctx.len()
        invariant
            i <= ctx.len(),
            m == models(ctx@),
            first_invertible(m, i as nat) == first_invertible(m, 0),
        decreases ctx.len() - i,
    {
        assert(m[i as int] == ctx[i as int]@);
        let h = ctx[i].head();
        if h == Head::Par || h == Head::Bottom || h == Head::With || h == Head::WhyNot {
            return Some(i);
        }
        i = i + 1;
    }
    None
}

/// Checks whether every formula but the one at `i` is a why-not.
fn check_others_why_not(ctx: &Vec<Formula>, i: usize) -> (r: bool)
    ensures
        r == others_why_not(models(ctx@), i as int),
{
    let ghost m = models(ctx@);
    let mut j: usize = 0;
    while j < ctx.len()
        invariant
            j <= ctx.len(),
            m == models(ctx@),
            forall|k: int| 0 <= k < j && k != i ==> (#[trigger] m[k]) is WhyNot,
        decreases ctx.len() - j,
    {
        assert(m[j as int] == ctx[j as int]@);
        if j != i && ctx[j].head() != Head::WhyNot {
            return false;
        }
        j = j + 1;
    }
    true
}

/// Searches for a proof of the context with `depth` rule applications allowed
/// along a branch.
pub fn search_context(ctx: &Vec<Formula>, depth: usize) -> (r: Option<Proof>)
    ensures
        option_model(r) == search(models(ctx@), depth as nat),
    decreases depth, 3nat, 0nat,
{
    let ghost m = models(ctx@);
    if find_head(ctx, Head::Top).is_some() {
        return Some(close(ctx, Rule::TopIntro));
    }
    if ctx.len() == 2 {
        assert(m[0] == ctx[0]@ && m[1] == ctx[1]@);
        if ctx[0].is_dual_atom_of(&ctx[1]) {
            return Some(close(ctx, Rule::Axiom));
        }
    }
    if ctx.len() == 1 {
        assert(m[0] == ctx[0]@);
        if ctx[0].head() == Head::One {
            return Some(close(ctx, Rule::OneIntro));
        }
    }
    if depth == 0 {
        return None;
    }
    match find_invertible(ctx) {
        Some(i) => invert_at(ctx, i, depth),
        None => {
            let mut i: usize = 0;
            while i < ctx.len()
                invariant
                    i <= ctx.len(),
                    depth > 0,
                    m == models(ctx@),
                    search(m, depth as nat) == or_else(
                        focus_from(m, 0, depth as nat),
                        derelict_from(m, 0, depth as nat),
                    ),
                    focus_from(m, i as nat, depth as nat) == focus_from(m, 0, depth as nat),
                decreases ctx.len() - i,
            {
                let found = focus_at(ctx, i, depth);
                if found.is_some() {
                    return found;
                }
                i = i + 1;
            }
            let mut k: usize = 0;
            while k < ctx.len()
                invariant
                    k <= ctx.len(),
                    depth > 0,
                    m == models(ctx@),
                    search(m, depth as nat) == derelict_from(m, 0, depth as nat),
                    derelict_from(m, k as nat, depth as nat) == derelict_from(
                        m,
                        0,
                        depth as nat,
                    ),
                decreases ctx.len() - k,
            {
                assert(m[k as int] == ctx[k as int]@);
                match &ctx[k] {
                    Formula::OfCourse(a) => {
                        let next = put_at(ctx, k, one(a));
                        let found = above(
                            ctx,
                            Rule::Dereliction,
                            search_context(&next, depth - 1),
                        );
                        if found.is_some() {
                            return found;
                        }
                    },
                    _ => {},
                }
                k = k + 1;
            }
            None
        },
    }
}

/// Checks whether a context is proved without premises.
fn is_closed(ctx: &Vec<Formula>) -> (r: bool)
    ensures
        r == closed(models(ctx@)),
{
    let ghost m = models(ctx@);
    if find_head(ctx, Head::Top).is_some() {
        return true;
    }
    if ctx.len() == 2 {
        assert(m[0] == ctx[0]@ && m[1] == ctx[1]@);
        return ctx[0].is_dual_atom_of(&ctx[1]);
    }
    if ctx.len() == 1 {
        assert(m[0] == ctx[0]@);
        return ctx[0].head() == Head::One;
    }
    false
}

/// Searches for a proof with the focus coming in on the formula at `j`.
fn follow_at(ctx: &Vec<Formula>, j: usize, depth: usize) -> (r: Option<Proof>)
    ensures
        option_model(r) == follow(models(ctx@), j as int, depth as nat),
    decreases depth, 4nat, 0nat,
{
    if depth > 0 && j < ctx.len() && !is_closed(ctx) && find_invertible(ctx).is_none() {
        assert(models(ctx@)[j as int] == ctx[j as int]@);
        let h = ctx[j].head();
        if h == Head::Tensor || h == Head::Plus {
            return focus_at(ctx, j, depth);
        }
    }
    search_context(ctx, depth)
}

/// Searches for a proof by decomposing the invertible formula at `i`.
fn invert_at(ctx: &Vec<Formula>, i: usize, depth: usize) -> (r: Option<Proof>)
    requires
        i < ctx.len(),
        depth > 0,
    ensures
        option_model(r) == invert(models(ctx@), i as int, depth as nat),
    decreases depth, 1nat, 0nat,
{
    assert(models(ctx@)[i as int] == ctx[i as int]@);
    match &ctx[i] {
        Formula::Par(a, b) => {
            let next = put_at(ctx, i, two(a, b));
            above(ctx, Rule::ParIntro, search_context(&next, depth - 1))
        },
        Formula::Bottom => {
            let next = put_at(ctx, i, none());
            above(ctx, Rule::BottomIntro, search_context(&next, depth - 1))
        },
        Formula::With(a, b) => {
            let left = put_at(ctx, i, one(a));
            match search_context(&left, depth - 1) {
                Some(l) => {
                    let right = put_at(ctx, i, one(b));
                    match search_context(&right, depth - 1) {
                        Some(r) => Some(join(ctx, Rule::WithIntro, l, r)),
                        None => None,
                    }
                },
                None => None,
            }
        },
        Formula::WhyNot(a) => {
            let used = put_at(ctx, i, one(a));
            let first = above(ctx, Rule::WhyNotIntro, search_context(&used, depth - 1));
            if first.is_some() {
                return first;
            }
            let dropped = put_at(ctx, i, none());
            let second = above(ctx, Rule::Weakening, search_context(&dropped, depth - 1));
            if second.is_some() {
                return second;
            }
            let doubled = put_at(ctx, i, two(&ctx[i], &ctx[i]));
            above(ctx, Rule::Contraction, search_context(&doubled, depth - 1))
        },
        _ => None,
    }
}

/// Searches for a proof with the focus on the formula at `i`.
fn focus_at(ctx: &Vec<Formula>, i: usize, depth: usize) -> (r: Option<Proof>)
    requires
        i < ctx.len(),
        depth > 0,
    ensures
        option_model(r) == focus_on(models(ctx@), i as int, depth as nat),
    decreases depth, 1nat, 0nat,
{
    assert(models(ctx@)[i as int] == ctx[i as int]@);
    match &ctx[i] {
        Formula::Tensor(a, b) => {
            let others = put_at(ctx, i, none());
            proof {
                let m = models(ctx@);
                assert(put(m, i as int, Seq::empty()) == m.remove(i as int));
            }
            let left = none();
            let right = none();
            split_between(ctx, a, b, &others, 0, &left, &right, depth)
        },
        Formula::Plus(a, b) => {
            let left = put_at(ctx, i, one(a));
            let first = above(ctx, Rule::PlusIntroLeft, follow_at(&left, i, depth - 1));
            if first.is_some() {
                return first;
            }
            let right = put_at(ctx, i, one(b));
            above(ctx, Rule::PlusIntroRight, follow_at(&right, i, depth - 1))
        },
        Formula::OfCourse(a) => {
            if check_others_why_not(ctx, i) {
                let next = put_at(ctx, i, one(a));
                above(ctx, Rule::OfCourseIntro, search_context(&next, depth - 1))
            } else {
                None
            }
        },
        _ => None,
    }
}

/// Searches for a proof by tensor-introduction, giving each of the formulas
/// `others` from `k` on to the left premise or to the right one.
fn split_between(
    ctx: &Vec<Formula>,
    a: &Formula,
    b: &Formula,
    others: &Vec<Formula>,
    k: usize,
    left: &Vec<Formula>,
    right: &Vec<Formula>,
    depth: usize,
) -> (r: Option<Proof>)
    requires
        depth > 0,
        k <= others.len(),
    ensures
        option_model(r) == split(
            models(ctx@),
            a@,
            b@,
            models(others@),
            k as nat,
            models(left@),
            models(right@),
            depth as nat,
        ),
    decreases depth, 0nat, others.len() - k,
{
    if k >= others.len() {
        let first = with_last(left, a);
        match follow_at(&first, left.len(), depth - 1) {
            Some(l) => {
                let second = with_last(right, b);
                match follow_at(&second, right.len(), depth - 1) {
                    Some(r) => Some(join(ctx, Rule::TensorIntro, l, r)),
                    None => None,
                }
            },
            None => None,
        }
    } else {
        assert(models(others@)[k as int] == others[k as int]@);
        let more_left = with_last(left, &others[k]);
        let first = split_between(ctx, a, b, others, k + 1, &more_left, right, depth);
        if first.is_some() {
            return first;
        }
        let more_right = with_last(right, &others[k]);
        split_between(ctx, a, b, others, k + 1, left, &more_right, depth)
    }
}

/// Copies a list of formulas, desugaring each.
fn desugared(formulas: &Vec<Formula>) -> (r: Vec<Formula>)
    ensures
        models(r@) == desugar_all(models(formulas@)),
{
    let ghost m = models(formulas@);
    let mut out: Vec<Formula> = Vec::new();
    let mut i: usize = 0;
    while i < formulas.len()
        invariant
            i <= formulas.len(),
            m == models(formulas@),
            models(out@) == desugar_all(m).take(i as int),
        decreases formulas.len() - i,
    {
        let f = formulas[i].desugar();
        proof {
            lemma_models_push(out@, f);
            assert(desugar_all(m).take(i + 1) == desugar_all(m).take(i as int).push(
                m[i as int].desugar(),
            ));
        }
        out.push(f);
        i = i + 1;
    }
    assert(desugar_all(m).take(i as int) == desugar_all(m));
    out
}

/// A proof search engine with a bound on the depth of the proofs it looks for.
#[derive(Debug)]
pub struct Prover {
    max_depth: usize,
}

impl Default for Prover {
    /// A prover that allows a hundred rule applications along a branch.
    fn default() -> (r: Prover)
        ensures
            r.depth_limit() == 100,
    {
        Prover::new(100)
    }
}

impl Prover {
    /// The number of rule applications allowed along a branch.
    pub closed spec fn depth_limit(&self) -> nat {
        self.max_depth as nat
    }

    /// Creates a prover that allows `max_depth` rule applications along a
    /// branch.
    pub fn new(max_depth: usize) -> (r: Prover)
        ensures
            r.depth_limit() == max_depth,
    {
        Prover { max_depth }
    }

    /// Searches for a proof of a one-sided sequent, after desugaring its
    /// formulas. Finds a proof exactly where the desugared sequent has a
    /// focused derivation within the depth limit; the proof found is one, and
    /// the checker accepts it.
    pub fn prove(&mut self, sequent: &Sequent) -> (r: Option<Proof>)
        ensures
            final(self).depth_limit() == old(self).depth_limit(),
            option_model(r) == search(desugar_all(sequent@), old(self).depth_limit()),
            r matches Some(p) ==> proves(p@, desugar_all(sequent@), old(self).depth_limit())
                && well_formed(p@) && first_error(p@) is None,
            r is Some <==> exists|p: SpecProof|
                proves(p, desugar_all(sequent@), old(self).depth_limit()),
    {
        let ctx = desugared(&sequent.linear);
        proof {
            lemma_search_sound(models(ctx@), self.max_depth as nat);
            lemma_search_well_formed(models(ctx@), self.max_depth as nat);
            lemma_search_characterization(models(ctx@), self.max_depth as nat);
        }
        search_context(&ctx, self.max_depth)
    }

    /// Searches for a proof of a two-sided sequent: of the one-sided sequent
    /// made of its negated hypotheses, then its conclusions.
    pub fn prove_two_sided(&mut self, sequent: &TwoSidedSequent) -> (r: Option<Proof>)
        ensures
            final(self).depth_limit() == old(self).depth_limit(),
            option_model(r) == search(
                desugar_all(negate_all(sequent.left()) + sequent.right()),
                old(self).depth_limit(),
            ),
            r matches Some(p) ==> proves(
                p@,
                desugar_all(negate_all(sequent.left()) + sequent.right()),
                old(self).depth_limit(),
            ) && well_formed(p@) && first_error(p@) is None,
            r is Some <==> exists|p: SpecProof|
                proves(
                    p,
                    desugar_all(negate_all(sequent.left()) + sequent.right()),
                    old(self).depth_limit(),
                ),
    {
        let one_sided = sequent.to_one_sided();
        self.prove(&one_sided)
    }
}

} // verus!
