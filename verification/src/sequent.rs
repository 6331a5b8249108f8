//! One-sided and two-sided sequents.

use crate::formula::{clone_formulas, list_text, models, render_list, Formula, Notation, SpecFormula};
use vstd::prelude::*;
use vstd::string::*;

verus! {

/// A one-sided sequent: the formulas of its linear context, in order.
#[derive(Debug, PartialEq, Eq)]
pub struct Sequent {
    /// The linear context. Each formula must be used exactly once.
    pub linear: Vec<Formula>,
}

/// A two-sided sequent: hypotheses on the left of the turnstile, conclusions on
/// the right.
#[derive(Debug, PartialEq, Eq)]
pub struct TwoSidedSequent {
    /// The hypotheses.
    pub antecedent: Vec<Formula>,
    /// The conclusions.
    pub succedent: Vec<Formula>,
}

impl View for Sequent {
    type V = Seq<SpecFormula>;

    open spec fn view(&self) -> Seq<SpecFormula> {
        models(self.linear@)
    }
}

/// The negations of a sequence of formulas, in order.
pub open spec fn negate_all(fs: Seq<SpecFormula>) -> Seq<SpecFormula> {
    Seq::new(fs.len(), |i: int| fs[i].negate())
}

/// The text of a one-sided sequent: its formulas with mathematical symbols,
/// separated by a comma and a space.
pub open spec fn sequent_text(fs: Seq<SpecFormula>) -> Seq<char> {
    list_text(fs, Notation::Unicode)
}

impl Clone for Sequent {
    fn clone(&self) -> (r: Sequent)
        ensures
            r.linear@ == self.linear@,
    {
        Sequent { linear: clone_formulas(&self.linear) }
    }
}

impl Clone for TwoSidedSequent {
    fn clone(&self) -> (r: TwoSidedSequent)
        ensures
            r.antecedent@ == self.antecedent@,
            r.succedent@ == self.succedent@,
    {
        TwoSidedSequent {
            antecedent: clone_formulas(&self.antecedent),
            succedent: clone_formulas(&self.succedent),
        }
    }
}

impl Sequent {
    /// Creates a sequent from its formulas.
    pub fn new(linear: Vec<Formula>) -> (r: Sequent)
        ensures
            r.linear == linear,
            r@ == models(linear@),
    {
        Sequent { linear }
    }

    /// Writes the formulas of the sequent with mathematical symbols.
    pub fn pretty(&self) -> (r: String)
        ensures
            r@ == sequent_text(self@),
    {
        render_list(&self.linear, Notation::Unicode)
    }
}

impl TwoSidedSequent {
    /// The hypotheses, as models.
    pub open spec fn left(&self) -> Seq<SpecFormula> {
        models(self.antecedent@)
    }

    /// The conclusions, as models.
    pub open spec fn right(&self) -> Seq<SpecFormula> {
        models(self.succedent@)
    }

    /// Creates a two-sided sequent.
    pub fn new(antecedent: Vec<Formula>, succedent: Vec<Formula>) -> (r: TwoSidedSequent)
        ensures
            r.antecedent == antecedent,
            r.succedent == succedent,
    {
        TwoSidedSequent { antecedent, succedent }
    }

    /// Converts to a one-sided sequent: the negated hypotheses first, then the
    /// conclusions.
    pub fn to_one_sided(&self) -> (r: Sequent)
        ensures
            r@ == negate_all(self.left()) + self.right(),
    {
        let mut linear: Vec<Formula> = Vec::new();
        let mut i: usize = 0;
        while i < self.antecedent.len()
            invariant
                i <= self.antecedent.len(),
                linear@.len() == i,
                models(linear@) == negate_all(self.left()).take(i as int),
            decreases self.antecedent.len() - i,
        {
            let ghost before = linear@;
            linear.push(self.antecedent[i].negate());
            proof {
                let goal = negate_all(self.left()).take(i + 1);
                assert forall|k: int| 0 <= k < i + 1 implies models(linear@)[k] == goal[k] by {
                    if k < i {
                        assert(models(before)[k] == negate_all(self.left()).take(i as int)[k]);
                    }
                }
            }
            i = i + 1;
        }
        let mut j: usize = 0;
        while j < self.succedent.len()
            invariant
                j <= self.succedent.len(),
                linear@.len() == self.antecedent.len() + j,
                models(linear@) == negate_all(self.left()) + self.right().take(j as int),
            decreases self.succedent.len() - j,
        {
            let ghost before = linear@;
            linear.push(self.succedent[j].clone());
            proof {
                let goal = negate_all(self.left()) + self.right().take(j + 1);
                let earlier = negate_all(self.left()) + self.right().take(j as int);
                assert forall|k: int| 0 <= k < goal.len() implies models(linear@)[k] == goal[k] by {
                    if k < before.len() {
                        assert(models(before)[k] == earlier[k]);
                    }
                }
            }
            j = j + 1;
        }
        proof {
            assert(self.right().take(j as int) == self.right());
        }
        Sequent { linear }
    }

    /// Writes the sequent with mathematical symbols: hypotheses, turnstile,
    /// conclusions.
    pub fn pretty(&self) -> (r: String)
        ensures
            r@ == list_text(self.left(), Notation::Unicode) + " ⊢ "@ + list_text(
                self.right(),
                Notation::Unicode,
            ),
    {
        let mut out = render_list(&self.antecedent, Notation::Unicode);
        out.append(" ⊢ ");
        out.append(render_list(&self.succedent, Notation::Unicode).as_str());
        out
    }
}

} // verus!
