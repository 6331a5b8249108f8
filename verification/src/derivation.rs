//! Inference rules and proof trees.

use crate::formula::{Formula, SpecFormula};
use crate::sequent::Sequent;
use vstd::prelude::*;
use vstd::string::*;

verus! {

/// An inference rule of the one-sided sequent calculus.
#[derive(Debug, PartialEq, Eq)]
pub enum Rule {
    /// Identity on an atom and its negation.
    Axiom,
    /// Introduction of one.
    OneIntro,
    /// Introduction of top.
    TopIntro,
    /// Introduction of bottom.
    BottomIntro,
    /// Introduction of tensor, which splits the context.
    TensorIntro,
    /// Introduction of par.
    ParIntro,
    /// Introduction of with, which shares the context.
    WithIntro,
    /// Introduction of plus from its left side.
    PlusIntroLeft,
    /// Introduction of plus from its right side.
    PlusIntroRight,
    /// Promotion.
    OfCourseIntro,
    /// Introduction of why-not.
    WhyNotIntro,
    /// Discards a why-not formula.
    Weakening,
    /// Duplicates a why-not formula.
    Contraction,
    /// Uses the formula under a why-not once.
    Dereliction,
    /// Cut on a formula.
    Cut(Formula),
    /// Marks the start of a positive focus on a formula.
    FocusPositive(Formula),
    /// Marks the start of a negative focus on a formula.
    FocusNegative(Formula),
    /// Marks the end of a focus.
    Blur,
}

/// The mathematical model of a [`Rule`].
pub ghost enum SpecRule {
    Axiom,
    OneIntro,
    TopIntro,
    BottomIntro,
    TensorIntro,
    ParIntro,
    WithIntro,
    PlusIntroLeft,
    PlusIntroRight,
    OfCourseIntro,
    WhyNotIntro,
    Weakening,
    Contraction,
    Dereliction,
    Cut(SpecFormula),
    FocusPositive(SpecFormula),
    FocusNegative(SpecFormula),
    Blur,
}

impl View for Rule {
    type V = SpecRule;

    open spec fn view(&self) -> SpecRule {
        match self {
            Rule::Axiom => SpecRule::Axiom,
            Rule::OneIntro => SpecRule::OneIntro,
            Rule::TopIntro => SpecRule::TopIntro,
            Rule::BottomIntro => SpecRule::BottomIntro,
            Rule::TensorIntro => SpecRule::TensorIntro,
            Rule::ParIntro => SpecRule::ParIntro,
            Rule::WithIntro => SpecRule::WithIntro,
            Rule::PlusIntroLeft => SpecRule::PlusIntroLeft,
            Rule::PlusIntroRight => SpecRule::PlusIntroRight,
            Rule::OfCourseIntro => SpecRule::OfCourseIntro,
            Rule::WhyNotIntro => SpecRule::WhyNotIntro,
            Rule::Weakening => SpecRule::Weakening,
            Rule::Contraction => SpecRule::Contraction,
            Rule::Dereliction => SpecRule::Dereliction,
            Rule::Cut(f) => SpecRule::Cut(f@),
            Rule::FocusPositive(f) => SpecRule::FocusPositive(f@),
            Rule::FocusNegative(f) => SpecRule::FocusNegative(f@),
            Rule::Blur => SpecRule::Blur,
        }
    }
}

impl SpecRule {
    /// The text of the rule as a value: its name, with the formula that it
    /// holds, if any, in parentheses.
    pub open spec fn debug_text(self) -> Seq<char> {
        match self {
            SpecRule::Axiom => "Axiom"@,
            SpecRule::OneIntro => "OneIntro"@,
            SpecRule::TopIntro => "TopIntro"@,
            SpecRule::BottomIntro => "BottomIntro"@,
            SpecRule::TensorIntro => "TensorIntro"@,
            SpecRule::ParIntro => "ParIntro"@,
            SpecRule::WithIntro => "WithIntro"@,
            SpecRule::PlusIntroLeft => "PlusIntroLeft"@,
            SpecRule::PlusIntroRight => "PlusIntroRight"@,
            SpecRule::OfCourseIntro => "OfCourseIntro"@,
            SpecRule::WhyNotIntro => "WhyNotIntro"@,
            SpecRule::Weakening => "Weakening"@,
            SpecRule::Contraction => "Contraction"@,
            SpecRule::Dereliction => "Dereliction"@,
            SpecRule::Cut(f) => "Cut("@ + f.debug_text() + ")"@,
            SpecRule::FocusPositive(f) => "FocusPositive("@ + f.debug_text() + ")"@,
            SpecRule::FocusNegative(f) => "FocusNegative("@ + f.debug_text() + ")"@,
            SpecRule::Blur => "Blur"@,
        }
    }
}

impl Rule {
    /// Writes the rule as a value, as `{:?}` does.
    pub fn debug_text(&self) -> (r: String)
        ensures
            r@ == self@.debug_text(),
    {
        match self {
            Rule::Axiom => String::from_str("Axiom"),
            Rule::OneIntro => String::from_str("OneIntro"),
            Rule::TopIntro => String::from_str("TopIntro"),
            Rule::BottomIntro => String::from_str("BottomIntro"),
            Rule::TensorIntro => String::from_str("TensorIntro"),
            Rule::ParIntro => String::from_str("ParIntro"),
            Rule::WithIntro => String::from_str("WithIntro"),
            Rule::PlusIntroLeft => String::from_str("PlusIntroLeft"),
            Rule::PlusIntroRight => String::from_str("PlusIntroRight"),
            Rule::OfCourseIntro => String::from_str("OfCourseIntro"),
            Rule::WhyNotIntro => String::from_str("WhyNotIntro"),
            Rule::Weakening => String::from_str("Weakening"),
            Rule::Contraction => String::from_str("Contraction"),
            Rule::Dereliction => String::from_str("Dereliction"),
            Rule::Cut(f) => {
                let mut out = String::from_str("Cut(");
                out.append(f.debug_text().as_str());
                out.append(")");
                out
            },
            Rule::FocusPositive(f) => {
                let mut out = String::from_str("FocusPositive(");
                out.append(f.debug_text().as_str());
                out.append(")");
                out
            },
            Rule::FocusNegative(f) => {
                let mut out = String::from_str("FocusNegative(");
                out.append(f.debug_text().as_str());
                out.append(")");
                out
            },
            Rule::Blur => String::from_str("Blur"),
        }
    }
}

impl Clone for Rule {
    fn clone(&self) -> (r: Rule)
        ensures
            r == *self,
    {
        match self {
            Rule::Axiom => Rule::Axiom,
            Rule::OneIntro => Rule::OneIntro,
            Rule::TopIntro => Rule::TopIntro,
            Rule::BottomIntro => Rule::BottomIntro,
            Rule::TensorIntro => Rule::TensorIntro,
            Rule::ParIntro => Rule::ParIntro,
            Rule::WithIntro => Rule::WithIntro,
            Rule::PlusIntroLeft => Rule::PlusIntroLeft,
            Rule::PlusIntroRight => Rule::PlusIntroRight,
            Rule::OfCourseIntro => Rule::OfCourseIntro,
            Rule::WhyNotIntro => Rule::WhyNotIntro,
            Rule::Weakening => Rule::Weakening,
            Rule::Contraction => Rule::Contraction,
            Rule::Dereliction => Rule::Dereliction,
            Rule::Cut(f) => Rule::Cut(f.clone()),
            Rule::FocusPositive(f) => Rule::FocusPositive(f.clone()),
            Rule::FocusNegative(f) => Rule::FocusNegative(f.clone()),
            Rule::Blur => Rule::Blur,
        }
    }
}

/// A proof tree: a conclusion, the rule that derives it, and the proofs of the
/// rule's premises.
#[derive(Debug, PartialEq, Eq)]
pub struct Proof {
    /// The sequent that this node derives.
    pub conclusion: Sequent,
    /// The rule applied at this node.
    pub rule: Rule,
    /// The proofs of the premises, in order.
    pub premises: Vec<Proof>,
}

/// The mathematical model of a [`Proof`].
pub ghost struct SpecProof {
    pub conclusion: Seq<SpecFormula>,
    pub rule: SpecRule,
    pub premises: Seq<SpecProof>,
}

impl Proof {
    /// The model of this proof tree.
    pub open spec fn model(&self) -> SpecProof
        decreases self,
    {
        SpecProof {
            conclusion: self.conclusion@,
            rule: self.rule@,
            premises: Seq::new(
                self.premises.len() as nat,
                |i: int|
                    if 0 <= i < self.premises.len() {
                        self.premises[i].model()
                    } else {
                        arbitrary()
                    },
            ),
        }
    }
}

impl Proof {
    /// The model of a proof tree is made of the models of its parts.
    pub proof fn lemma_model(&self)
        ensures
            self@.conclusion == self.conclusion@,
            self@.rule == self.rule@,
            self@.premises.len() == self.premises.len(),
            forall|i: int|
                0 <= i < self.premises.len() ==> #[trigger] self@.premises[i]
                    == self.premises[i]@,
    {
    }
}

impl View for Proof {
    type V = SpecProof;

    open spec fn view(&self) -> SpecProof {
        self.model()
    }
}

impl SpecProof {
    /// Length of the longest path from this node to a leaf.
    pub open spec fn depth(self) -> nat
        decreases self,
    {
        Self::max_depth(self.premises, self.premises.len())
    }

    /// One more than the largest depth among the first `n` trees, or zero
    /// where `n` is zero.
    pub open spec fn max_depth(trees: Seq<SpecProof>, n: nat) -> nat
        decreases trees, n,
    {
        if n == 0 || n > trees.len() {
            0
        } else {
            let rest = Self::max_depth(trees, (n - 1) as nat);
            let here = trees[n - 1].depth() + 1;
            if here > rest {
                here
            } else {
                rest
            }
        }
    }
}

impl SpecProof {
    /// Number of nodes that apply the cut rule.
    pub open spec fn cut_count(self) -> nat
        decreases self, self.premises.len() + 1,
    {
        Self::cuts_among(self, 0) + if self.rule is Cut {
            1nat
        } else {
            0nat
        }
    }

    /// Number of cuts in the premises of `parent` from index `k` on.
    pub open spec fn cuts_among(parent: SpecProof, k: nat) -> nat
        decreases parent, parent.premises.len() - k,
    {
        if k >= parent.premises.len() {
            0
        } else {
            parent.premises[k as int].cut_count() + Self::cuts_among(parent, k + 1)
        }
    }
}

/// Whether no node of the proof tree applies the cut rule.
pub open spec fn cut_free(p: SpecProof) -> bool
    decreases p,
{
    &&& !(p.rule is Cut)
    &&& forall|k: int| 0 <= k < p.premises.len() ==> cut_free(#[trigger] p.premises[k])
}

/// The number `n`, or the largest machine number where `n` is larger.
pub open spec fn capped(n: nat) -> usize {
    if n <= usize::MAX {
        n as usize
    } else {
        usize::MAX
    }
}

/// Adds two machine numbers, stopping at the largest.
fn capped_sum(a: usize, b: usize) -> (r: usize)
    ensures
        r == capped((a + b) as nat),
{
    if a <= usize::MAX - b {
        a + b
    } else {
        usize::MAX
    }
}

impl Proof {
    /// Length of the longest path from the root to a leaf, or the largest
    /// machine number where the path is longer.
    pub fn depth(&self) -> (r: usize)
        ensures
            r == capped(self@.depth()),
        decreases self,
    {
        proof {
            self.lemma_model();
        }
        let mut deepest: usize = 0;
        let mut k: usize = 0;
        while k < self.premises.len()
            invariant
                k <= self.premises.len(),
                self@.premises.len() == self.premises.len(),
                forall|i: int|
                    0 <= i < self.premises.len() ==> #[trigger] self@.premises[i]
                        == self.premises[i]@,
                deepest == capped(SpecProof::max_depth(self@.premises, k as nat)),
            decreases self.premises.len() - k,
        {
            assert(self@.premises[k as int] == self.premises[k as int]@);
            let here = capped_sum(self.premises[k].depth(), 1);
            if here > deepest {
                deepest = here;
            }
            k = k + 1;
        }
        deepest
    }

    /// Number of nodes that apply the cut rule, or the largest machine number
    /// where there are more.
    pub fn cut_count(&self) -> (r: usize)
        ensures
            r == capped(self@.cut_count()),
        decreases self,
    {
        proof {
            self.lemma_model();
        }
        let mut count: usize = match &self.rule {
            Rule::Cut(_) => 1,
            _ => 0,
        };
        let ghost own: nat = if self@.rule is Cut {
            1
        } else {
            0
        };
        let ghost mut seen: nat = own;
        let mut k: usize = 0;
        while k < self.premises.len()
            invariant
                k <= self.premises.len(),
                self@.premises.len() == self.premises.len(),
                forall|i: int|
                    0 <= i < self.premises.len() ==> #[trigger] self@.premises[i]
                        == self.premises[i]@,
                count == capped(seen),
                seen + SpecProof::cuts_among(self@, k as nat) == own + SpecProof::cuts_among(
                    self@,
                    0,
                ),
            decreases self.premises.len() - k,
        {
            assert(self@.premises[k as int] == self.premises[k as int]@);
            let below = self.premises[k].cut_count();
            count = capped_sum(count, below);
            proof {
                seen = seen + self@.premises[k as int].cut_count();
            }
            k = k + 1;
        }
        count
    }
}

impl Proof {
    /// Checks whether no node of the proof tree applies the cut rule.
    pub fn is_cut_free(&self) -> (r: bool)
        ensures
            r == cut_free(self@),
        decreases self,
    {
        proof {
            self.lemma_model();
        }
        if let Rule::Cut(_) = &self.rule {
            return false;
        }
        let mut k: usize = 0;
        while k < self.premises.len()
            invariant
                k <= self.premises.len(),
                self@.premises.len() == self.premises.len(),
                forall|i: int|
                    0 <= i < self.premises.len() ==> #[trigger] self@.premises[i]
                        == self.premises[i]@,
                forall|i: int| 0 <= i < k ==> cut_free(#[trigger] self@.premises[i]),
            decreases self.premises.len() - k,
        {
            assert(self@.premises[k as int] == self.premises[k as int]@);
            if !self.premises[k].is_cut_free() {
                return false;
            }
            k = k + 1;
        }
        true
    }
}

impl Clone for Proof {
    fn clone(&self) -> (r: Proof)
        ensures
            r@ == self@,
        decreases self,
    {
        proof {
            self.lemma_model();
        }
        let mut premises: Vec<Proof> = Vec::new();
        let mut k: usize = 0;
        while k < self.premises.len()
            invariant
                k <= self.premises.len(),
                premises.len() == k,
                forall|i: int| 0 <= i < k ==> (#[trigger] premises[i])@ == self.premises[i]@,
            decreases self.premises.len() - k,
        {
            premises.push(self.premises[k].clone());
            k = k + 1;
        }
        let r = Proof { conclusion: self.conclusion.clone(), rule: self.rule.clone(), premises };
        proof {
            r.lemma_model();
            assert(r@.premises =~= self@.premises);
        }
        r
    }
}

} // verus!
