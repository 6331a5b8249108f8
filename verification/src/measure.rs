//! The structural measure that every rule but contraction decreases.

use crate::calculus::{
    applies_at, disciplined, first_invertible, lemma_first_invertible, side, splits_in_order,
};
use crate::derivation::SpecProof;
use crate::formula::{spliced, SpecFormula};
use vstd::prelude::*;

verus! {

/// The weight of a context: the number of nodes of its formulas.
pub open spec fn weight(ctx: Seq<SpecFormula>) -> nat
    decreases ctx.len(),
{
    if ctx.len() == 0 {
        0
    } else {
        weight(ctx.drop_last()) + ctx.last().size()
    }
}

/// Every formula has a node.
pub proof fn lemma_size_positive(f: SpecFormula)
    ensures
        f.size() >= 1,
{
}

/// The weight of two contexts put together is the sum of their weights.
pub proof fn lemma_weight_concat(a: Seq<SpecFormula>, b: Seq<SpecFormula>)
    ensures
        weight(a + b) == weight(a) + weight(b),
    decreases b.len(),
{
    if b.len() == 0 {
        assert(a + b == a);
    } else {
        lemma_weight_concat(a, b.drop_last());
        assert((a + b).drop_last() == a + b.drop_last());
    }
}

/// The weight of a context is the weight of its parts around a formula, and
/// the size of the formula.
pub proof fn lemma_weight_at(ctx: Seq<SpecFormula>, i: int)
    requires
        0 <= i < ctx.len(),
    ensures
        weight(ctx) == weight(ctx.take(i)) + ctx[i].size() + weight(ctx.skip(i + 1)),
        weight(ctx.remove(i)) + ctx[i].size() == weight(ctx),
{
    let one = seq![ctx[i]];
    lemma_weight_small(ctx[i], ctx[i]);
    assert(ctx == ctx.take(i) + one + ctx.skip(i + 1));
    lemma_weight_concat(ctx.take(i), one);
    lemma_weight_concat(ctx.take(i) + one, ctx.skip(i + 1));
    assert(ctx.remove(i) == ctx.take(i) + ctx.skip(i + 1));
    lemma_weight_concat(ctx.take(i), ctx.skip(i + 1));
}

/// Replacing a formula changes the weight by the difference between the
/// formula and what replaces it.
pub proof fn lemma_weight_spliced(ctx: Seq<SpecFormula>, i: int, middle: Seq<SpecFormula>)
    requires
        0 <= i < ctx.len(),
    ensures
        weight(spliced(ctx, i, i + 1, middle)) + ctx[i].size() == weight(ctx) + weight(middle),
{
    lemma_weight_at(ctx, i);
    lemma_weight_concat(ctx.take(i), middle);
    lemma_weight_concat(ctx.take(i) + middle, ctx.skip(i + 1));
}

/// The two sides of a mask weigh as much as the context that they share out.
pub proof fn lemma_weight_sides(others: Seq<SpecFormula>, mask: Seq<bool>)
    requires
        mask.len() == others.len(),
    ensures
        weight(side(others, mask, true)) + weight(side(others, mask, false)) == weight(others),
    decreases others.len(),
{
    if others.len() > 0 {
        lemma_weight_sides(others.drop_last(), mask.drop_last());
        let left = side(others.drop_last(), mask.drop_last(), true);
        let right = side(others.drop_last(), mask.drop_last(), false);
        assert(left.push(others.last()).drop_last() == left);
        assert(right.push(others.last()).drop_last() == right);
    }
}

/// The weight of a context with one formula, and with two.
proof fn lemma_weight_small(a: SpecFormula, b: SpecFormula)
    ensures
        weight(Seq::<SpecFormula>::empty()) == 0,
        weight(seq![a]) == a.size(),
        weight(seq![a, b]) == a.size() + b.size(),
{
    let none = Seq::<SpecFormula>::empty();
    let one = seq![a];
    let two = seq![a, b];
    assert(weight(none) == 0);
    assert(one.drop_last() == none);
    assert(one.last() == a);
    assert(weight(one) == weight(one.drop_last()) + one.last().size());
    assert(two.drop_last() == one);
    assert(two.last() == b);
    assert(weight(two) == weight(two.drop_last()) + two.last().size());
}

/// Every rule but contraction, applied with discipline, has premises that
/// weigh less than its conclusion.
pub proof fn lemma_rules_shrink(p: SpecProof, k: int)
    requires
        disciplined(p),
        !(p.rule is Contraction),
        0 <= k < p.premises.len(),
    ensures
        weight(p.premises[k].conclusion) < weight(p.conclusion),
{
    let ctx = p.conclusion;
    if first_invertible(ctx, 0) is None && p.rule is TensorIntro {
        let i = choose|i: int| splits_in_order(p, i);
        assert(splits_in_order(p, i));
        let a = *ctx[i]->Tensor_0;
        let b = *ctx[i]->Tensor_1;
        let others = ctx.remove(i);
        let mask = choose|mask: Seq<bool>|
            #![trigger side(others, mask, true)]
            {
                &&& mask.len() == ctx.len() - 1
                &&& p.premises[0].conclusion == side(others, mask, true).push(a)
                &&& p.premises[1].conclusion == side(others, mask, false).push(b)
            };
        lemma_weight_sides(others, mask);
        lemma_weight_at(ctx, i);
        let left = side(others, mask, true);
        let right = side(others, mask, false);
        assert(left.push(a).drop_last() == left);
        assert(right.push(b).drop_last() == right);
        assert(weight(left.push(a)) == weight(left) + a.size());
        assert(weight(right.push(b)) == weight(right) + b.size());
        lemma_size_positive(a);
        lemma_size_positive(b);
        assert(ctx[i].size() == 1 + a.size() + b.size());
    } else {
        let i = if first_invertible(ctx, 0) is Some {
            first_invertible(ctx, 0).unwrap() as int
        } else {
            choose|i: int| applies_at(p, i)
        };
        lemma_first_invertible(ctx, 0);
        assert(applies_at(p, i));
        match ctx[i] {
            SpecFormula::Par(a, b) => {
                lemma_weight_spliced(ctx, i, seq![*a, *b]);
                lemma_weight_small(*a, *b);
            },
            SpecFormula::With(a, b) => {
                lemma_weight_spliced(ctx, i, seq![*a]);
                lemma_weight_spliced(ctx, i, seq![*b]);
                lemma_weight_small(*a, *b);
                lemma_weight_small(*b, *a);
            },
            SpecFormula::Plus(a, b) => {
                lemma_weight_spliced(ctx, i, seq![*a]);
                lemma_weight_spliced(ctx, i, seq![*b]);
                lemma_weight_small(*a, *b);
                lemma_weight_small(*b, *a);
            },
            SpecFormula::OfCourse(a) => {
                lemma_weight_spliced(ctx, i, seq![*a]);
                lemma_weight_small(*a, *a);
            },
            SpecFormula::WhyNot(a) => {
                lemma_weight_spliced(ctx, i, seq![*a]);
                lemma_weight_spliced(ctx, i, Seq::empty());
                lemma_weight_small(*a, *a);
            },
            _ => {
                lemma_weight_spliced(ctx, i, Seq::empty());
                lemma_weight_small(ctx[i], ctx[i]);
            },
        }
    }
}

} // verus!
