//! What the proof search finds: soundness, and completeness for focused
//! derivations.

use crate::calculus::{
    applies_at, closed, derivation, first_invertible, focused, focused_at, focused_from, follows,
    instance, keeps_focus, lemma_derivation_well_formed, lemma_first_invertible,
    lemma_focus_at_index, lemma_focus_index, lemma_side_push, lemma_sides_share, proves,
    shares_context, side, splits_in_order,
};
use crate::derivation::{cut_free, SpecProof, SpecRule};
use crate::formula::{dual_atoms, has_head, Head, SpecFormula};
use crate::search::{
    binary, derelict_from, focus_from, focus_on, follow, invert, leaf, others_why_not, put,
    search, split, unary,
};
use crate::verify::{first_error, lemma_accepted_iff_well_formed, well_formed};
use vstd::prelude::*;

verus! {

/// What holds of every result of the search for `ctx` at `depth`: it is a
/// focused derivation of `ctx`, not deeper than `depth`.
pub open spec fn sound(ctx: Seq<SpecFormula>, depth: nat, r: Option<SpecProof>) -> bool {
    r matches Some(p) ==> proves(p, ctx, depth)
}

/// Whether `p` is a derivation of `ctx`, without cuts, that is at most `depth`
/// deep.
pub open spec fn derives(p: SpecProof, ctx: Seq<SpecFormula>, depth: nat) -> bool {
    &&& p.conclusion == ctx
    &&& derivation(p)
    &&& cut_free(p)
    &&& p.depth() <= depth
}

/// What holds of every result of the search for `ctx` with the focus coming in
/// on the formula at `j`.
pub open spec fn sound_after(
    ctx: Seq<SpecFormula>,
    j: int,
    depth: nat,
    r: Option<SpecProof>,
) -> bool {
    r matches Some(p) ==> derives(p, ctx, depth) && follows(p, j)
}

/// What holds of every result of the search for `ctx` with the focus on the
/// formula at `i`.
pub open spec fn sound_on(ctx: Seq<SpecFormula>, i: int, depth: nat, r: Option<SpecProof>) -> bool {
    r matches Some(p) ==> derives(p, ctx, depth) && focused_at(p, i)
}

/// Trees that are at most `bound` deep lie under a node at most `bound + 1`
/// deep.
proof fn lemma_max_depth(trees: Seq<SpecProof>, n: nat, bound: nat)
    requires
        n <= trees.len(),
        forall|i: int| 0 <= i < trees.len() ==> (#[trigger] trees[i]).depth() <= bound,
    ensures
        SpecProof::max_depth(trees, n) <= bound + 1,
    decreases n,
{
    if n > 0 {
        lemma_max_depth(trees, (n - 1) as nat, bound);
    }
}

/// An instance of a rule but cut, over derivations without cuts, is a
/// derivation without cuts, one deeper than its premises.
proof fn lemma_node_derives(p: SpecProof, depth: nat)
    requires
        instance(p),
        !(p.rule is Cut),
        depth > 0,
        forall|i: int|
            0 <= i < p.premises.len() ==> derivation(#[trigger] p.premises[i]) && cut_free(
                p.premises[i],
            ) && p.premises[i].depth() <= depth - 1,
    ensures
        derives(p, p.conclusion, depth),
{
    lemma_max_depth(p.premises, p.premises.len(), (depth - 1) as nat);
}

/// A rule on the formula at `i`, over a derivation of its premise, gives a
/// derivation.
proof fn lemma_unary_derives(
    ctx: Seq<SpecFormula>,
    rule: SpecRule,
    i: int,
    middle: Seq<SpecFormula>,
    q: SpecProof,
    depth: nat,
)
    requires
        depth > 0,
        0 <= i < ctx.len(),
        derives(q, put(ctx, i, middle), (depth - 1) as nat),
        applies_at(SpecProof { conclusion: ctx, rule, premises: seq![q] }, i),
    ensures
        derives(SpecProof { conclusion: ctx, rule, premises: seq![q] }, ctx, depth),
{
    let p = SpecProof { conclusion: ctx, rule, premises: seq![q] };
    assert(applies_at(p, i));
    assert(instance(p));
    lemma_node_derives(p, depth);
}

/// A rule on the first invertible formula, over a sound premise, gives a sound
/// result.
proof fn lemma_inverted_sound(
    ctx: Seq<SpecFormula>,
    rule: SpecRule,
    i: int,
    middle: Seq<SpecFormula>,
    premise: Option<SpecProof>,
    depth: nat,
)
    requires
        depth > 0,
        0 <= i < ctx.len(),
        first_invertible(ctx, 0) == Some(i as nat),
        sound(put(ctx, i, middle), (depth - 1) as nat, premise),
        premise matches Some(q) ==> applies_at(
            SpecProof { conclusion: ctx, rule, premises: seq![q] },
            i,
        ),
    ensures
        sound(ctx, depth, unary(ctx, rule, premise)),
{
    if let Some(q) = premise {
        lemma_unary_derives(ctx, rule, i, middle, q, depth);
    }
}

/// Every proof that the search finds is a focused derivation of the context
/// searched for, has no cut, and is not deeper than the depth allowed.
pub proof fn lemma_search_sound(ctx: Seq<SpecFormula>, depth: nat)
    ensures
        sound(ctx, depth, search(ctx, depth)),
    decreases depth, 3nat, 0nat,
{
    if has_head(ctx, Head::Top) {
        let p = leaf(ctx, SpecRule::TopIntro);
        assert(instance(p));
        assert(derivation(p));
        assert(focused(p));
        assert(cut_free(p));
        assert(p.depth() == 0);
    } else if ctx.len() == 2 && dual_atoms(ctx[0], ctx[1]) {
        let p = leaf(ctx, SpecRule::Axiom);
        assert(instance(p));
        assert(derivation(p));
        assert(focused(p));
        assert(cut_free(p));
        assert(p.depth() == 0);
    } else if ctx.len() == 1 && ctx[0] is One {
        let p = leaf(ctx, SpecRule::OneIntro);
        assert(instance(p));
        assert(derivation(p));
        assert(focused(p));
        assert(cut_free(p));
        assert(p.depth() == 0);
    } else if depth == 0 {
    } else {
        match first_invertible(ctx, 0) {
            Some(i) => {
                lemma_first_invertible(ctx, 0);
                lemma_invert_sound(ctx, i as int, depth);
            },
            None => {
                lemma_focus_from_sound(ctx, 0, depth);
                lemma_derelict_sound(ctx, 0, depth);
            },
        }
    }
}

/// Every proof found with the focus coming in on a formula is a derivation in
/// which the focus follows that formula.
proof fn lemma_follow_sound(ctx: Seq<SpecFormula>, j: int, depth: nat)
    ensures
        sound_after(ctx, j, depth, follow(ctx, j, depth)),
    decreases depth, 4nat, 0nat,
{
    if depth > 0 && keeps_focus(ctx, j) {
        lemma_focus_on_sound(ctx, j, depth);
    } else {
        lemma_search_sound(ctx, depth);
    }
}

proof fn lemma_invert_sound(ctx: Seq<SpecFormula>, i: int, depth: nat)
    requires
        first_invertible(ctx, 0) == Some(i as nat),
    ensures
        sound(ctx, depth, invert(ctx, i, depth)),
    decreases depth, 1nat, 0nat,
{
    if depth == 0 || !(0 <= i < ctx.len()) {
    } else {
        let d = (depth - 1) as nat;
        match ctx[i] {
            SpecFormula::Par(a, b) => {
                let next = put(ctx, i, seq![*a, *b]);
                lemma_search_sound(next, d);
                lemma_inverted_sound(
                    ctx,
                    SpecRule::ParIntro,
                    i,
                    seq![*a, *b],
                    search(next, d),
                    depth,
                );
            },
            SpecFormula::Bottom => {
                let next = put(ctx, i, Seq::empty());
                lemma_search_sound(next, d);
                lemma_inverted_sound(
                    ctx,
                    SpecRule::BottomIntro,
                    i,
                    Seq::empty(),
                    search(next, d),
                    depth,
                );
            },
            SpecFormula::With(a, b) => {
                let left = put(ctx, i, seq![*a]);
                let right = put(ctx, i, seq![*b]);
                lemma_search_sound(left, d);
                lemma_search_sound(right, d);
                if let Some(p) = binary(
                    ctx,
                    SpecRule::WithIntro,
                    search(left, d),
                    search(right, d),
                ) {
                    assert(applies_at(p, i));
                    assert(instance(p));
                    lemma_node_derives(p, depth);
                }
            },
            SpecFormula::WhyNot(a) => {
                let used = put(ctx, i, seq![*a]);
                let dropped = put(ctx, i, Seq::empty());
                let doubled = put(ctx, i, seq![ctx[i], ctx[i]]);
                lemma_search_sound(used, d);
                lemma_search_sound(dropped, d);
                lemma_search_sound(doubled, d);
                lemma_inverted_sound(
                    ctx,
                    SpecRule::WhyNotIntro,
                    i,
                    seq![*a],
                    search(used, d),
                    depth,
                );
                lemma_inverted_sound(
                    ctx,
                    SpecRule::Weakening,
                    i,
                    Seq::empty(),
                    search(dropped, d),
                    depth,
                );
                lemma_inverted_sound(
                    ctx,
                    SpecRule::Contraction,
                    i,
                    seq![ctx[i], ctx[i]],
                    search(doubled, d),
                    depth,
                );
            },
            _ => {},
        }
    }
}

proof fn lemma_focus_from_sound(ctx: Seq<SpecFormula>, i: nat, depth: nat)
    requires
        first_invertible(ctx, 0) is None,
    ensures
        sound(ctx, depth, focus_from(ctx, i, depth)),
    decreases depth, 2nat, ctx.len() - i,
{
    if i < ctx.len() {
        lemma_focus_on_sound(ctx, i as int, depth);
        lemma_focus_from_sound(ctx, i + 1, depth);
        if let Some(p) = focus_on(ctx, i as int, depth) {
            lemma_focus_at_index(p, 0, i as int);
        }
    }
}

proof fn lemma_focus_on_sound(ctx: Seq<SpecFormula>, i: int, depth: nat)
    ensures
        sound_on(ctx, i, depth, focus_on(ctx, i, depth)),
    decreases depth, 1nat, 0nat,
{
    if depth == 0 || !(0 <= i < ctx.len()) {
    } else {
        let d = (depth - 1) as nat;
        match ctx[i] {
            SpecFormula::Tensor(a, b) => {
                let others = ctx.remove(i);
                assert(others.take(0) == Seq::<SpecFormula>::empty());
                lemma_split_sound(
                    ctx,
                    i,
                    *a,
                    *b,
                    others,
                    0,
                    Seq::empty(),
                    Seq::empty(),
                    Seq::empty(),
                    depth,
                );
            },
            SpecFormula::Plus(a, b) => {
                let left = put(ctx, i, seq![*a]);
                let right = put(ctx, i, seq![*b]);
                lemma_follow_sound(left, i, d);
                lemma_follow_sound(right, i, d);
                if let Some(q) = follow(left, i, d) {
                    lemma_unary_derives(ctx, SpecRule::PlusIntroLeft, i, seq![*a], q, depth);
                }
                if let Some(q) = follow(right, i, d) {
                    lemma_unary_derives(ctx, SpecRule::PlusIntroRight, i, seq![*b], q, depth);
                }
            },
            SpecFormula::OfCourse(a) => {
                if others_why_not(ctx, i) {
                    let next = put(ctx, i, seq![*a]);
                    lemma_search_sound(next, d);
                    if let Some(q) = search(next, d) {
                        lemma_unary_derives(ctx, SpecRule::OfCourseIntro, i, seq![*a], q, depth);
                    }
                }
            },
            _ => {},
        }
    }
}

proof fn lemma_split_sound(
    ctx: Seq<SpecFormula>,
    i: int,
    a: SpecFormula,
    b: SpecFormula,
    others: Seq<SpecFormula>,
    k: nat,
    mask: Seq<bool>,
    left: Seq<SpecFormula>,
    right: Seq<SpecFormula>,
    depth: nat,
)
    requires
        0 <= i < ctx.len(),
        ctx[i] == SpecFormula::Tensor(Box::new(a), Box::new(b)),
        others == ctx.remove(i),
        k <= others.len(),
        mask.len() == k,
        left == side(others.take(k as int), mask, true),
        right == side(others.take(k as int), mask, false),
    ensures
        sound_on(ctx, i, depth, split(ctx, a, b, others, k, left, right, depth)),
    decreases depth, 0nat, others.len() - k,
{
    if depth == 0 {
    } else if k >= others.len() {
        let d = (depth - 1) as nat;
        lemma_follow_sound(left.push(a), left.len() as int, d);
        lemma_follow_sound(right.push(b), right.len() as int, d);
        assert(others.take(k as int) == others);
        lemma_sides_share(others, mask);
        if let Some(p) = binary(
            ctx,
            SpecRule::TensorIntro,
            follow(left.push(a), left.len() as int, d),
            follow(right.push(b), right.len() as int, d),
        ) {
            assert(applies_at(p, i));
            assert(instance(p));
            assert(splits_in_order(p, i));
            lemma_node_derives(p, depth);
        }
    } else {
        let x = others[k as int];
        assert(others.take(k as int + 1) == others.take(k as int).push(x));
        lemma_side_push(others.take(k as int), mask, x, true, true);
        lemma_side_push(others.take(k as int), mask, x, true, false);
        lemma_side_push(others.take(k as int), mask, x, false, true);
        lemma_side_push(others.take(k as int), mask, x, false, false);
        lemma_split_sound(ctx, i, a, b, others, k + 1, mask.push(true), left.push(x), right, depth);
        lemma_split_sound(
            ctx,
            i,
            a,
            b,
            others,
            k + 1,
            mask.push(false),
            left,
            right.push(x),
            depth,
        );
    }
}

proof fn lemma_derelict_sound(ctx: Seq<SpecFormula>, i: nat, depth: nat)
    requires
        first_invertible(ctx, 0) is None,
    ensures
        sound(ctx, depth, derelict_from(ctx, i, depth)),
    decreases depth, 2nat, ctx.len() - i,
{
    if depth == 0 || i >= ctx.len() {
    } else {
        match ctx[i as int] {
            SpecFormula::OfCourse(a) => {
                let next = put(ctx, i as int, seq![*a]);
                lemma_search_sound(next, (depth - 1) as nat);
                if let Some(q) = search(next, (depth - 1) as nat) {
                    lemma_unary_derives(ctx, SpecRule::Dereliction, i as int, seq![*a], q, depth);
                }
            },
            _ => {},
        }
        lemma_derelict_sound(ctx, i + 1, depth);
    }
}

/// Every proof that the search finds is accepted by the checker: it is well
/// formed, so the checker finds no error in it.
pub proof fn lemma_search_well_formed(ctx: Seq<SpecFormula>, depth: nat)
    ensures
        search(ctx, depth) matches Some(p) ==> well_formed(p) && first_error(p) is None,
{
    lemma_search_sound(ctx, depth);
    if let Some(p) = search(ctx, depth) {
        lemma_derivation_well_formed(p);
        lemma_accepted_iff_well_formed(p);
    }
}

/// An atom and its negation are proved by the axiom, at any depth.
pub proof fn lemma_identity_found(name: Seq<char>, depth: nat)
    ensures
        search(seq![SpecFormula::Atom(name), SpecFormula::NegAtom(name)], depth) == Some(
            leaf(seq![SpecFormula::Atom(name), SpecFormula::NegAtom(name)], SpecRule::Axiom),
        ),
        search(seq![SpecFormula::NegAtom(name), SpecFormula::Atom(name)], depth) == Some(
            leaf(seq![SpecFormula::NegAtom(name), SpecFormula::Atom(name)], SpecRule::Axiom),
        ),
{
}

/// A context of atoms and negated atoms has no invertible formula, no focus
/// and no dereliction.
proof fn lemma_atoms_stuck(ctx: Seq<SpecFormula>, i: nat, depth: nat)
    requires
        forall|j: int| 0 <= j < ctx.len() ==> (#[trigger] ctx[j]) is Atom || ctx[j] is NegAtom,
    ensures
        first_invertible(ctx, i) is None,
        focus_from(ctx, i, depth) is None,
        derelict_from(ctx, i, depth) is None,
    decreases ctx.len() - i,
{
    if i < ctx.len() {
        lemma_atoms_stuck(ctx, i + 1, depth);
        assert(ctx[i as int] is Atom || ctx[i as int] is NegAtom);
        assert(focus_on(ctx, i as int, depth) is None);
    }
}

/// Two atoms have no proof, at any depth.
pub proof fn lemma_two_atoms_unprovable(a: Seq<char>, b: Seq<char>, depth: nat)
    ensures
        search(seq![SpecFormula::Atom(a), SpecFormula::Atom(b)], depth) is None,
{
    let ctx = seq![SpecFormula::Atom(a), SpecFormula::Atom(b)];
    lemma_atoms_stuck(ctx, 0, depth);
}

/// A proof found by with-introduction has exactly two premises: they conclude
/// the two sides of a with formula of the context, each in the place of that
/// formula, over the same remaining context.
pub proof fn lemma_with_intro_premises(ctx: Seq<SpecFormula>, depth: nat)
    ensures
        search(ctx, depth) matches Some(p) ==> (p.rule is WithIntro ==> p.conclusion == ctx
            && p.premises.len() == 2 && exists|i: int| shares_context(p, i)),
{
    lemma_search_sound(ctx, depth);
    if let Some(p) = search(ctx, depth) {
        if p.rule is WithIntro {
            let i = choose|i: int| applies_at(p, i);
            assert(shares_context(p, i));
        }
    }
}

/// Each of the first `n` trees is less deep than a node over them.
proof fn lemma_max_depth_covers(trees: Seq<SpecProof>, n: nat, k: int)
    requires
        0 <= k < n <= trees.len(),
    ensures
        trees[k].depth() + 1 <= SpecProof::max_depth(trees, n),
    decreases n,
{
    if k < n - 1 {
        lemma_max_depth_covers(trees, (n - 1) as nat, k);
    }
}

/// A premise is less deep than its node.
pub proof fn lemma_premise_depth(p: SpecProof, k: int)
    requires
        0 <= k < p.premises.len(),
    ensures
        p.premises[k].depth() + 1 <= p.depth(),
{
    lemma_max_depth_covers(p.premises, p.premises.len(), k);
}

/// Where the focus on the formula at `i` finds a proof, so does the scan of
/// the focus from an earlier formula on.
proof fn lemma_focus_from_finds(ctx: Seq<SpecFormula>, from: nat, i: int, depth: nat)
    requires
        from <= i < ctx.len(),
        focus_on(ctx, i, depth) is Some,
    ensures
        focus_from(ctx, from, depth) is Some,
    decreases i - from,
{
    if from < i {
        lemma_focus_from_finds(ctx, from + 1, i, depth);
    }
}

/// Where the dereliction of the formula at `i` finds a proof, so does the scan
/// from an earlier formula on.
proof fn lemma_derelict_from_finds(ctx: Seq<SpecFormula>, from: nat, i: int, depth: nat)
    requires
        from <= i < ctx.len(),
        depth > 0,
        ctx[i] matches SpecFormula::OfCourse(a) && search(
            put(ctx, i, seq![*a]),
            (depth - 1) as nat,
        ) is Some,
    ensures
        derelict_from(ctx, from, depth) is Some,
    decreases i - from,
{
    if from < i {
        lemma_derelict_from_finds(ctx, from + 1, i, depth);
    }
}

/// Where some way of giving the formulas out lets both premises be proved, the
/// split finds a proof, from every start that agrees with that way.
proof fn lemma_split_finds(
    ctx: Seq<SpecFormula>,
    a: SpecFormula,
    b: SpecFormula,
    others: Seq<SpecFormula>,
    k: nat,
    mask: Seq<bool>,
    depth: nat,
)
    requires
        depth > 0,
        mask.len() == others.len(),
        k <= others.len(),
        follow(
            side(others, mask, true).push(a),
            side(others, mask, true).len() as int,
            (depth - 1) as nat,
        ) is Some,
        follow(
            side(others, mask, false).push(b),
            side(others, mask, false).len() as int,
            (depth - 1) as nat,
        ) is Some,
    ensures
        split(
            ctx,
            a,
            b,
            others,
            k,
            side(others.take(k as int), mask.take(k as int), true),
            side(others.take(k as int), mask.take(k as int), false),
            depth,
        ) is Some,
    decreases others.len() - k,
{
    if k >= others.len() {
        assert(others.take(k as int) == others);
        assert(mask.take(k as int) == mask);
    } else {
        let x = others[k as int];
        assert(others.take(k as int + 1) == others.take(k as int).push(x));
        assert(mask.take(k as int + 1) == mask.take(k as int).push(mask[k as int]));
        lemma_side_push(others.take(k as int), mask.take(k as int), x, mask[k as int], true);
        lemma_side_push(others.take(k as int), mask.take(k as int), x, mask[k as int], false);
        lemma_split_finds(ctx, a, b, others, k + 1, mask, depth);
    }
}

/// Bounded completeness: a sequent with a focused derivation that is at most
/// `depth` deep is proved by the search at `depth`. (So is one with a focused
/// derivation that has cuts under closed contexts.)
pub proof fn lemma_search_finds(p: SpecProof, depth: nat)
    requires
        derivation(p),
        focused(p),
        p.depth() <= depth,
    ensures
        search(p.conclusion, depth) is Some,
    decreases p, 1nat,
{
    let ctx = p.conclusion;
    if closed(ctx) {
    } else {
        assert(instance(p));
        match first_invertible(ctx, 0) {
            Some(at) => {
                let i = at as int;
                lemma_first_invertible(ctx, 0);
                assert(applies_at(p, i));
                if p.rule is WithIntro {
                    lemma_premise_depth(p, 0);
                    lemma_premise_depth(p, 1);
                    lemma_search_finds(p.premises[0], (depth - 1) as nat);
                    lemma_search_finds(p.premises[1], (depth - 1) as nat);
                } else {
                    lemma_premise_depth(p, 0);
                    lemma_search_finds(p.premises[0], (depth - 1) as nat);
                }
                assert(invert(ctx, i, depth) is Some);
            },
            None => {
                if focused_from(p, 0) {
                    let i = lemma_focus_index(p, 0);
                    lemma_focus_on_finds(p, i, depth);
                    lemma_focus_from_finds(ctx, 0, i, depth);
                } else {
                    let i = choose|i: int| applies_at(p, i);
                    assert(applies_at(p, i));
                    lemma_premise_depth(p, 0);
                    lemma_search_finds(p.premises[0], (depth - 1) as nat);
                    lemma_derelict_from_finds(ctx, 0, i, depth);
                }
            },
        }
    }
}

/// A derivation that decomposes the formula in focus is found by the focus on
/// that formula.
proof fn lemma_focus_on_finds(p: SpecProof, i: int, depth: nat)
    requires
        derivation(p),
        focused_at(p, i),
        p.depth() <= depth,
    ensures
        depth > 0,
        0 <= i < p.conclusion.len(),
        focus_on(p.conclusion, i, depth) is Some,
    decreases p, 0nat,
{
    let ctx = p.conclusion;
    assert(instance(p));
    if p.rule is TensorIntro {
        assert(splits_in_order(p, i));
        let a = *ctx[i]->Tensor_0;
        let b = *ctx[i]->Tensor_1;
        let others = ctx.remove(i);
        let mask = choose|mask: Seq<bool>|
            #![trigger side(others, mask, true)]
            {
                &&& mask.len() == ctx.len() - 1
                &&& p.premises[0].conclusion == side(others, mask, true).push(a)
                &&& p.premises[1].conclusion == side(others, mask, false).push(b)
            };
        lemma_premise_depth(p, 0);
        lemma_premise_depth(p, 1);
        lemma_follow_finds(
            p.premises[0],
            p.premises[0].conclusion.len() - 1,
            (depth - 1) as nat,
        );
        lemma_follow_finds(
            p.premises[1],
            p.premises[1].conclusion.len() - 1,
            (depth - 1) as nat,
        );
        lemma_split_finds(ctx, a, b, others, 0, mask, depth);
        assert(others.take(0) == Seq::<SpecFormula>::empty());
        assert(mask.take(0) == Seq::<bool>::empty());
    } else if p.rule is OfCourseIntro {
        assert(applies_at(p, i));
        lemma_premise_depth(p, 0);
        lemma_search_finds(p.premises[0], (depth - 1) as nat);
        assert(others_why_not(ctx, i));
    } else {
        assert(applies_at(p, i));
        lemma_premise_depth(p, 0);
        lemma_follow_finds(p.premises[0], i, (depth - 1) as nat);
    }
}

/// A derivation in which the focus follows the formula at `j` is found with
/// the focus coming in on that formula.
proof fn lemma_follow_finds(p: SpecProof, j: int, depth: nat)
    requires
        derivation(p),
        follows(p, j),
        p.depth() <= depth,
    ensures
        follow(p.conclusion, j, depth) is Some,
    decreases p, 2nat,
{
    if keeps_focus(p.conclusion, j) {
        lemma_focus_on_finds(p, j, depth);
    } else {
        lemma_search_finds(p, depth);
    }
}

/// The search finds a proof exactly where the sequent has a focused
/// derivation within the depth.
pub proof fn lemma_search_characterization(ctx: Seq<SpecFormula>, depth: nat)
    ensures
        search(ctx, depth) is Some <==> exists|p: SpecProof| proves(p, ctx, depth),
{
    lemma_search_sound(ctx, depth);
    if let Some(p) = search(ctx, depth) {
        assert(proves(p, ctx, depth));
    }
    if exists|p: SpecProof| proves(p, ctx, depth) {
        let p = choose|p: SpecProof| proves(p, ctx, depth);
        lemma_search_finds(p, depth);
    }
}

/// A sequent that is proved at some depth is proved at every larger depth.
pub proof fn lemma_search_monotone(ctx: Seq<SpecFormula>, depth: nat, more: nat)
    requires
        depth <= more,
        search(ctx, depth) is Some,
    ensures
        search(ctx, more) is Some,
{
    lemma_search_sound(ctx, depth);
    lemma_search_finds(search(ctx, depth).unwrap(), more);
}

} // verus!
