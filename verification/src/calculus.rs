//! The rules of the sequent calculus, as a predicate on proof trees.

use crate::derivation::{cut_free, SpecProof, SpecRule};
use crate::formula::{dual_atoms, has_head, spliced, Head, SpecFormula};
use crate::verify::{arity_met, fits, well_formed};
use vstd::prelude::*;

verus! {

/// Whether the node has exactly one premise, whose conclusion is the
/// conclusion of the node with the formula at `i` replaced by `middle`.
pub open spec fn rewrites(p: SpecProof, i: int, middle: Seq<SpecFormula>) -> bool {
    &&& 0 <= i < p.conclusion.len()
    &&& p.premises.len() == 1
    &&& p.premises[0].conclusion == spliced(p.conclusion, i, i + 1, middle)
}

/// Whether the two sequences hold, between them, the formulas of `all`, each
/// as often as `all` does.
pub open spec fn shares(all: Seq<SpecFormula>, left: Seq<SpecFormula>, right: Seq<SpecFormula>) -> bool {
    all.to_multiset() == left.to_multiset().add(right.to_multiset())
}

/// Whether the node has exactly two premises, which conclude the two sides of
/// the with formula at `i`, each in the place of that formula, over the same
/// remaining context.
pub open spec fn shares_context(p: SpecProof, i: int) -> bool {
    &&& 0 <= i < p.conclusion.len()
    &&& p.premises.len() == 2
    &&& p.conclusion[i] matches SpecFormula::With(a, b) && {
        &&& p.premises[0].conclusion == spliced(p.conclusion, i, i + 1, seq![*a])
        &&& p.premises[1].conclusion == spliced(p.conclusion, i, i + 1, seq![*b])
    }
}

/// Nothing is shared out as nothing and nothing.
pub proof fn lemma_shares_nothing()
    ensures
        shares(Seq::empty(), Seq::empty(), Seq::empty()),
{
    broadcast use vstd::multiset::group_multiset_axioms;

    let e = Seq::<SpecFormula>::empty();
    e.to_multiset_ensures();
    vstd::multiset::lemma_multiset_empty_len(e.to_multiset());
    assert(e.to_multiset() =~= e.to_multiset().add(e.to_multiset()));
}

/// One more formula can go to either side.
pub proof fn lemma_shares_one_more(
    all: Seq<SpecFormula>,
    left: Seq<SpecFormula>,
    right: Seq<SpecFormula>,
    x: SpecFormula,
)
    requires
        shares(all, left, right),
    ensures
        shares(all.push(x), left.push(x), right),
        shares(all.push(x), left, right.push(x)),
{
    broadcast use vstd::multiset::group_multiset_axioms;

    vstd::seq_lib::to_multiset_build(all, x);
    vstd::seq_lib::to_multiset_build(left, x);
    vstd::seq_lib::to_multiset_build(right, x);
    let l = left.to_multiset();
    let r = right.to_multiset();
    assert(l.add(r).insert(x) =~= l.insert(x).add(r));
    assert(l.add(r).insert(x) =~= l.add(r.insert(x)));
}

/// Whether the root of the proof tree applies its rule to the formula at `i`
/// of its conclusion.
pub open spec fn applies_at(p: SpecProof, i: int) -> bool {
    let ctx = p.conclusion;
    &&& 0 <= i < ctx.len()
    &&& match p.rule {
        SpecRule::ParIntro => ctx[i] matches SpecFormula::Par(a, b) && rewrites(
            p,
            i,
            seq![*a, *b],
        ),
        SpecRule::BottomIntro => ctx[i] is Bottom && rewrites(p, i, Seq::empty()),
        SpecRule::WithIntro => shares_context(p, i),
        SpecRule::TensorIntro => ctx[i] matches SpecFormula::Tensor(a, b) && {
            &&& p.premises.len() == 2
            &&& exists|left: Seq<SpecFormula>, right: Seq<SpecFormula>|
                #![trigger left.push(*a), right.push(*b)]
                {
                    &&& shares(ctx.remove(i), left, right)
                    &&& p.premises[0].conclusion == left.push(*a)
                    &&& p.premises[1].conclusion == right.push(*b)
                }
        },
        SpecRule::PlusIntroLeft => ctx[i] matches SpecFormula::Plus(a, _) && rewrites(
            p,
            i,
            seq![*a],
        ),
        SpecRule::PlusIntroRight => ctx[i] matches SpecFormula::Plus(_, b) && rewrites(
            p,
            i,
            seq![*b],
        ),
        SpecRule::OfCourseIntro => ctx[i] matches SpecFormula::OfCourse(a) && rewrites(
            p,
            i,
            seq![*a],
        ) && forall|j: int| 0 <= j < ctx.len() && j != i ==> (#[trigger] ctx[j]) is WhyNot,
        SpecRule::WhyNotIntro => ctx[i] matches SpecFormula::WhyNot(a) && rewrites(
            p,
            i,
            seq![*a],
        ),
        SpecRule::Weakening => ctx[i] is WhyNot && rewrites(p, i, Seq::empty()),
        SpecRule::Contraction => ctx[i] is WhyNot && rewrites(p, i, seq![ctx[i], ctx[i]]),
        SpecRule::Dereliction => ctx[i] matches SpecFormula::OfCourse(a) && rewrites(
            p,
            i,
            seq![*a],
        ),
        _ => false,
    }
}

/// Whether the root of the proof tree is an instance of its rule.
///
/// The axiom concludes an atom and its negation, one-introduction the formula
/// one, and top-introduction any context with top; they have no premises. A
/// rule on a formula of the conclusion replaces it in its premise: par by its
/// two sides, with and plus by one side, an exponential by its operand; bottom
/// and a weakened why-not are removed, and a contracted why-not is doubled.
/// With has a premise for each side, over the same context. Tensor gives the
/// other formulas out between its two premises, which end in its sides.
/// Promotion needs every other formula to be a why-not. Cut gives the
/// conclusion out between its two premises, which end in the cut formula and
/// in its negation. A bookkeeping rule has one premise, with the same
/// conclusion.
pub open spec fn instance(p: SpecProof) -> bool {
    let ctx = p.conclusion;
    match p.rule {
        SpecRule::Axiom => ctx.len() == 2 && dual_atoms(ctx[0], ctx[1]) && p.premises.len() == 0,
        SpecRule::OneIntro => ctx.len() == 1 && ctx[0] is One && p.premises.len() == 0,
        SpecRule::TopIntro => has_head(ctx, Head::Top) && p.premises.len() == 0,
        SpecRule::Cut(f) => {
            &&& p.premises.len() == 2
            &&& exists|left: Seq<SpecFormula>, right: Seq<SpecFormula>|
                #![trigger left.push(f), right.push(f.negate())]
                {
                    &&& shares(ctx, left, right)
                    &&& p.premises[0].conclusion == left.push(f)
                    &&& p.premises[1].conclusion == right.push(f.negate())
                }
        },
        SpecRule::FocusPositive(_) | SpecRule::FocusNegative(_) | SpecRule::Blur => {
            p.premises.len() == 1 && p.premises[0].conclusion == ctx
        },
        _ => exists|i: int| applies_at(p, i),
    }
}

/// A derivation is a proof tree in which every node is an instance of its
/// rule.
pub open spec fn derivation(p: SpecProof) -> bool
    decreases p,
{
    &&& instance(p)
    &&& forall|i: int| 0 <= i < p.premises.len() ==> derivation(#[trigger] p.premises[i])
}

/// At an instance of a rule, the rule fits the conclusion and has the right
/// number of premises.
pub proof fn lemma_instance_fits(p: SpecProof)
    requires
        instance(p),
    ensures
        fits(p.rule, p.conclusion),
        arity_met(p.rule, p.premises.len()),
{
    match p.rule {
        SpecRule::Axiom | SpecRule::OneIntro | SpecRule::TopIntro | SpecRule::Cut(_) => {},
        SpecRule::FocusPositive(_) | SpecRule::FocusNegative(_) | SpecRule::Blur => {},
        _ => {
            let i = choose|i: int| applies_at(p, i);
            assert(applies_at(p, i));
            assert(has_head(p.conclusion, p.conclusion[i].head()));
        },
    }
}

/// Every derivation is well formed, so the checker accepts it.
pub proof fn lemma_derivation_well_formed(p: SpecProof)
    requires
        derivation(p),
    ensures
        well_formed(p),
    decreases p,
{
    lemma_instance_fits(p);
    assert forall|i: int| 0 <= i < p.premises.len() implies well_formed(
        #[trigger] p.premises[i],
    ) by {
        lemma_derivation_well_formed(p.premises[i]);
    }
}

/// The formulas that the invertible phase decomposes: par, bottom, with and
/// why-not. (Top ends the search at once, and a negated atom has no
/// decomposition.)
pub open spec fn invertible(f: SpecFormula) -> bool {
    f is Par || f is Bottom || f is With || f is WhyNot
}

/// The index of the first invertible formula from `from` on.
pub open spec fn first_invertible(ctx: Seq<SpecFormula>, from: nat) -> Option<nat>
    decreases ctx.len() - from,
{
    if from >= ctx.len() {
        None
    } else if invertible(ctx[from as int]) {
        Some(from)
    } else {
        first_invertible(ctx, from + 1)
    }
}

/// The first invertible formula is an invertible formula of the context.
pub proof fn lemma_first_invertible(ctx: Seq<SpecFormula>, from: nat)
    ensures
        first_invertible(ctx, from) matches Some(i) ==> from <= i < ctx.len() && invertible(
            ctx[i as int],
        ),
    decreases ctx.len() - from,
{
    if from < ctx.len() && !invertible(ctx[from as int]) {
        lemma_first_invertible(ctx, from + 1);
    }
}

/// A context that is proved without premises: it holds top, or it is an atom
/// with its negation, or it is the formula one alone.
pub open spec fn closed(ctx: Seq<SpecFormula>) -> bool {
    ||| has_head(ctx, Head::Top)
    ||| ctx.len() == 2 && dual_atoms(ctx[0], ctx[1])
    ||| ctx.len() == 1 && ctx[0] is One
}

/// The formulas that a mask gives to one side, in their order: those at
/// which the mask says `which`.
pub open spec fn side(others: Seq<SpecFormula>, mask: Seq<bool>, which: bool) -> Seq<SpecFormula>
    decreases others.len(),
{
    if others.len() == 0 || mask.len() != others.len() {
        Seq::empty()
    } else {
        let before = side(others.drop_last(), mask.drop_last(), which);
        if mask.last() == which {
            before.push(others.last())
        } else {
            before
        }
    }
}

/// Whether the root applies tensor-introduction to the formula at `i` and
/// gives the other formulas out in their order: each premise holds its share
/// in the order of the conclusion, and ends in a side of the tensor.
pub open spec fn splits_in_order(p: SpecProof, i: int) -> bool {
    let ctx = p.conclusion;
    &&& 0 <= i < ctx.len()
    &&& p.rule is TensorIntro
    &&& p.premises.len() == 2
    &&& ctx[i] matches SpecFormula::Tensor(a, b) && exists|mask: Seq<bool>|
        #![trigger side(ctx.remove(i), mask, true)]
        {
            &&& mask.len() == ctx.len() - 1
            &&& p.premises[0].conclusion == side(ctx.remove(i), mask, true).push(*a)
            &&& p.premises[1].conclusion == side(ctx.remove(i), mask, false).push(*b)
        }
}

/// Whether the focus stays on the formula at `j` of an open context: the
/// context has no invertible formula, and the formula is a tensor or a plus.
pub open spec fn keeps_focus(ctx: Seq<SpecFormula>, j: int) -> bool {
    &&& !closed(ctx)
    &&& first_invertible(ctx, 0) is None
    &&& 0 <= j < ctx.len()
    &&& (ctx[j] is Tensor || ctx[j] is Plus)
}

/// Whether the root of a proof tree of an open context follows the discipline
/// of focusing: where the context has an invertible formula, the rule
/// decomposes the first one; else the rule decomposes a tensor, splitting in
/// order, or a plus or an of-course.
pub open spec fn disciplined(p: SpecProof) -> bool {
    match first_invertible(p.conclusion, 0) {
        Some(i) => applies_at(p, i as int),
        None => match p.rule {
            SpecRule::TensorIntro => exists|i: int| splits_in_order(p, i),
            SpecRule::PlusIntroLeft => exists|i: int| applies_at(p, i),
            SpecRule::PlusIntroRight => exists|i: int| applies_at(p, i),
            SpecRule::OfCourseIntro => exists|i: int| applies_at(p, i),
            SpecRule::Dereliction => exists|i: int| applies_at(p, i),
            _ => false,
        },
    }
}

/// A focused proof tree follows the discipline of focusing, down to the first
/// closed context on each branch. Where its context has an invertible
/// formula, it decomposes the first one, over focused premises. Else it puts
/// the focus on a positive formula, or it derelicts an of-course over a
/// focused premise.
pub open spec fn focused(p: SpecProof) -> bool
    decreases p, 2nat, 0nat,
{
    closed(p.conclusion) || match first_invertible(p.conclusion, 0) {
        Some(i) => applies_at(p, i as int) && forall|k: int|
            0 <= k < p.premises.len() ==> focused(#[trigger] p.premises[k]),
        None => {
            ||| focused_from(p, 0)
            ||| p.rule is Dereliction && (exists|i: int| applies_at(p, i)) && focused(
                p.premises[0],
            )
        },
    }
}

/// Whether the root decomposes a positive formula in focus, at `i` or after.
pub open spec fn focused_from(p: SpecProof, i: nat) -> bool
    decreases p, 1nat, p.conclusion.len() - i,
{
    i < p.conclusion.len() && (focused_at(p, i as int) || focused_from(p, i + 1))
}

/// Whether the root decomposes the positive formula at `i`, which is in
/// focus: a tensor, splitting in order, or a plus, with premises in which the
/// focus follows the side that they prove; or an of-course, over a focused
/// premise.
pub open spec fn focused_at(p: SpecProof, i: int) -> bool
    decreases p, 0nat, 0nat,
{
    match p.rule {
        SpecRule::TensorIntro => splits_in_order(p, i) && follows(
            p.premises[0],
            p.premises[0].conclusion.len() - 1,
        ) && follows(p.premises[1], p.premises[1].conclusion.len() - 1),
        SpecRule::PlusIntroLeft => applies_at(p, i) && follows(p.premises[0], i),
        SpecRule::PlusIntroRight => applies_at(p, i) && follows(p.premises[0], i),
        SpecRule::OfCourseIntro => applies_at(p, i) && focused(p.premises[0]),
        _ => false,
    }
}

/// Whether the proof tree is focused with the focus coming in on the formula
/// at `j`: where the focus stays on it, the root decomposes it.
pub open spec fn follows(p: SpecProof, j: int) -> bool
    decreases p, 3nat, 0nat,
{
    if keeps_focus(p.conclusion, j) {
        focused_at(p, j)
    } else {
        focused(p)
    }
}

/// A root that decomposes a formula in focus, at `from` or after, does so at
/// some index.
pub proof fn lemma_focus_index(p: SpecProof, from: nat) -> (i: int)
    requires
        focused_from(p, from),
    ensures
        from <= i < p.conclusion.len(),
        focused_at(p, i),
    decreases p.conclusion.len() - from,
{
    if focused_at(p, from as int) {
        from as int
    } else {
        lemma_focus_index(p, from + 1)
    }
}

/// A root that decomposes the formula in focus at `i` does so at every start
/// up to `i`.
pub proof fn lemma_focus_at_index(p: SpecProof, from: nat, i: int)
    requires
        from <= i < p.conclusion.len(),
        focused_at(p, i),
    ensures
        focused_from(p, from),
    decreases i - from,
{
    if from < i {
        lemma_focus_at_index(p, from + 1, i);
    }
}

/// A focused proof tree of an open context is disciplined at its root.
pub proof fn lemma_focused_disciplined(p: SpecProof)
    requires
        focused(p),
        !closed(p.conclusion),
    ensures
        disciplined(p),
{
    if first_invertible(p.conclusion, 0) is None {
        if focused_from(p, 0) {
            let i = lemma_focus_index(p, 0);
            if p.rule is TensorIntro {
                assert(splits_in_order(p, i));
            } else {
                assert(applies_at(p, i));
            }
        }
    }
}

/// Whether `p` is a focused derivation of `ctx`, without cuts, that is at most
/// `depth` deep.
pub open spec fn proves(p: SpecProof, ctx: Seq<SpecFormula>, depth: nat) -> bool {
    &&& p.conclusion == ctx
    &&& derivation(p)
    &&& focused(p)
    &&& cut_free(p)
    &&& p.depth() <= depth
}

/// A share that is given one more formula, and a share that is not.
pub proof fn lemma_side_push(
    others: Seq<SpecFormula>,
    mask: Seq<bool>,
    x: SpecFormula,
    to: bool,
    which: bool,
)
    requires
        mask.len() == others.len(),
    ensures
        side(others.push(x), mask.push(to), which) == if to == which {
            side(others, mask, which).push(x)
        } else {
            side(others, mask, which)
        },
{
    assert(others.push(x).drop_last() == others);
    assert(mask.push(to).drop_last() == mask);
}

/// The two sides of a mask share the formulas out.
pub proof fn lemma_sides_share(others: Seq<SpecFormula>, mask: Seq<bool>)
    requires
        mask.len() == others.len(),
    ensures
        shares(others, side(others, mask, true), side(others, mask, false)),
    decreases others.len(),
{
    if others.len() == 0 {
        lemma_shares_nothing();
        assert(others == Seq::<SpecFormula>::empty());
    } else {
        let front = others.drop_last();
        let front_mask = mask.drop_last();
        lemma_sides_share(front, front_mask);
        lemma_shares_one_more(
            front,
            side(front, front_mask, true),
            side(front, front_mask, false),
            others.last(),
        );
        assert(front.push(others.last()) == others);
    }
}

} // verus!
