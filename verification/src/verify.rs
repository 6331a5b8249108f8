//! Checking of proof trees, node by node.

use crate::derivation::{Proof, Rule, SpecProof, SpecRule};
use crate::formula::{dual_atoms, find_head, has_head, Head, SpecFormula};
use crate::sequent::sequent_text;
use crate::counter::{decimal, decimal_string};
use vstd::prelude::*;
use vstd::string::*;

verus! {

/// Why a proof tree was rejected.
#[derive(Debug, PartialEq, Eq)]
pub enum ProofError {
    /// The rule does not fit the conclusion of its node.
    InvalidRule {
        /// The rule that was applied.
        rule: Rule,
        /// The conclusion of the node, written out.
        conclusion: String,
    },
    /// The node has the wrong number of premises for its rule.
    WrongPremiseCount {
        /// The number of premises that the rule takes.
        expected: usize,
        /// The number of premises of the node.
        got: usize,
    },
    /// The contexts of a node and of its premises do not agree.
    ContextMismatch {
        /// What does not agree.
        message: String,
    },
    /// A premise was rejected, for the reason inside.
    PremiseFailed(Box<ProofError>),
}

/// The mathematical model of a [`ProofError`].
pub ghost enum SpecProofError {
    InvalidRule { rule: SpecRule, conclusion: Seq<char> },
    WrongPremiseCount { expected: nat, got: nat },
    ContextMismatch { message: Seq<char> },
    PremiseFailed(Box<SpecProofError>),
}

impl ProofError {
    /// The model of this error.
    pub open spec fn model(&self) -> SpecProofError
        decreases self,
    {
        match self {
            ProofError::InvalidRule { rule, conclusion } => SpecProofError::InvalidRule {
                rule: rule@,
                conclusion: conclusion@,
            },
            ProofError::WrongPremiseCount { expected, got } => SpecProofError::WrongPremiseCount {
                expected: *expected as nat,
                got: *got as nat,
            },
            ProofError::ContextMismatch { message } => SpecProofError::ContextMismatch {
                message: message@,
            },
            ProofError::PremiseFailed(inner) => SpecProofError::PremiseFailed(
                Box::new(inner.model()),
            ),
        }
    }
}

impl View for ProofError {
    type V = SpecProofError;

    open spec fn view(&self) -> SpecProofError {
        self.model()
    }
}

impl SpecProofError {
    /// The message of the error.
    pub open spec fn text(self) -> Seq<char>
        decreases self,
    {
        match self {
            SpecProofError::InvalidRule { rule, conclusion } => "Invalid rule "@
                + rule.debug_text() + " for conclusion "@ + conclusion,
            SpecProofError::WrongPremiseCount { expected, got } => "Expected "@ + decimal(
                expected,
            ) + " premises, got "@ + decimal(got),
            SpecProofError::ContextMismatch { message } => "Context mismatch: "@ + message,
            SpecProofError::PremiseFailed(inner) => "Premise verification failed: "@
                + inner.text(),
        }
    }
}

impl ProofError {
    /// Writes the message of the error.
    pub fn message(&self) -> (r: String)
        ensures
            r@ == self@.text(),
        decreases self,
    {
        match self {
            ProofError::InvalidRule { rule, conclusion } => {
                let mut out = String::from_str("Invalid rule ");
                out.append(rule.debug_text().as_str());
                out.append(" for conclusion ");
                out.append(conclusion.as_str());
                out
            },
            ProofError::WrongPremiseCount { expected, got } => {
                let mut out = String::from_str("Expected ");
                out.append(decimal_string(*expected).as_str());
                out.append(" premises, got ");
                out.append(decimal_string(*got).as_str());
                out
            },
            ProofError::ContextMismatch { message } => {
                let mut out = String::from_str("Context mismatch: ");
                out.append(message.as_str());
                out
            },
            ProofError::PremiseFailed(inner) => {
                let mut out = String::from_str("Premise verification failed: ");
                out.append(inner.message().as_str());
                out
            },
        }
    }
}

/// The number of premises that a rule takes, or `None` where any number is
/// accepted (the bookkeeping rules of focusing).
pub open spec fn arity(rule: SpecRule) -> Option<nat> {
    match rule {
        SpecRule::Axiom => Some(0),
        SpecRule::OneIntro => Some(0),
        SpecRule::TopIntro => Some(0),
        SpecRule::BottomIntro => Some(1),
        SpecRule::TensorIntro => Some(2),
        SpecRule::ParIntro => Some(1),
        SpecRule::WithIntro => Some(2),
        SpecRule::PlusIntroLeft => Some(1),
        SpecRule::PlusIntroRight => Some(1),
        SpecRule::OfCourseIntro => Some(1),
        SpecRule::WhyNotIntro => Some(1),
        SpecRule::Weakening => Some(1),
        SpecRule::Contraction => Some(1),
        SpecRule::Dereliction => Some(1),
        SpecRule::Cut(_) => Some(2),
        SpecRule::FocusPositive(_) => None,
        SpecRule::FocusNegative(_) => None,
        SpecRule::Blur => None,
    }
}

/// Whether the conclusion has the shape that the rule asks for: the axiom two
/// dual atoms and nothing else, one-introduction the formula one alone, and an
/// introduction of another connective a formula with that connective. The
/// remaining rules ask for nothing.
pub open spec fn fits(rule: SpecRule, conclusion: Seq<SpecFormula>) -> bool {
    match rule {
        SpecRule::Axiom => conclusion.len() == 2 && dual_atoms(conclusion[0], conclusion[1]),
        SpecRule::OneIntro => conclusion.len() == 1 && conclusion[0] is One,
        SpecRule::TopIntro => has_head(conclusion, Head::Top),
        SpecRule::BottomIntro => has_head(conclusion, Head::Bottom),
        SpecRule::TensorIntro => has_head(conclusion, Head::Tensor),
        SpecRule::ParIntro => has_head(conclusion, Head::Par),
        SpecRule::WithIntro => has_head(conclusion, Head::With),
        SpecRule::PlusIntroLeft => has_head(conclusion, Head::Plus),
        SpecRule::PlusIntroRight => has_head(conclusion, Head::Plus),
        SpecRule::OfCourseIntro => has_head(conclusion, Head::OfCourse),
        _ => true,
    }
}

/// Whether the shape of the conclusion is checked before the number of
/// premises: so for the rules that introduce a unit, and for the axiom.
pub open spec fn shape_first(rule: SpecRule) -> bool {
    rule is Axiom || rule is OneIntro || rule is TopIntro || rule is BottomIntro
}

/// Whether the number of premises is the one that the rule takes.
pub open spec fn arity_met(rule: SpecRule, premises: nat) -> bool {
    arity(rule) matches Some(n) ==> premises == n
}

/// The error of a rule that does not fit its conclusion.
pub open spec fn invalid_rule(p: SpecProof) -> SpecProofError {
    SpecProofError::InvalidRule { rule: p.rule, conclusion: sequent_text(p.conclusion) }
}

/// The error of a node with the wrong number of premises.
pub open spec fn wrong_count(p: SpecProof) -> SpecProofError {
    SpecProofError::WrongPremiseCount {
        expected: arity(p.rule).unwrap(),
        got: p.premises.len(),
    }
}

/// The error at the root node of a proof tree, or `None` where its rule fits
/// its conclusion and has the right number of premises.
pub open spec fn node_error(p: SpecProof) -> Option<SpecProofError> {
    if shape_first(p.rule) && !fits(p.rule, p.conclusion) {
        Some(invalid_rule(p))
    } else if !arity_met(p.rule, p.premises.len()) {
        Some(wrong_count(p))
    } else if !fits(p.rule, p.conclusion) {
        Some(invalid_rule(p))
    } else {
        None
    }
}

/// The first error of a proof tree, or `None` where there is none: the error at
/// the root, or else the first error of the first premise that has one, marked
/// as the failure of a premise.
pub open spec fn first_error(p: SpecProof) -> Option<SpecProofError>
    decreases p, p.premises.len() + 1,
{
    match node_error(p) {
        Some(e) => Some(e),
        None => premise_error(p, 0),
    }
}

/// The first error among the premises of `p` from index `from` on.
pub open spec fn premise_error(p: SpecProof, from: nat) -> Option<SpecProofError>
    decreases p, p.premises.len() - from,
{
    if from >= p.premises.len() {
        None
    } else {
        match first_error(p.premises[from as int]) {
            Some(e) => Some(SpecProofError::PremiseFailed(Box::new(e))),
            None => premise_error(p, from + 1),
        }
    }
}

/// A proof tree is well formed when at every node the rule fits the conclusion
/// and has the right number of premises.
pub open spec fn well_formed(p: SpecProof) -> bool
    decreases p,
{
    &&& fits(p.rule, p.conclusion)
    &&& arity_met(p.rule, p.premises.len())
    &&& forall|i: int| 0 <= i < p.premises.len() ==> well_formed(#[trigger] p.premises[i])
}

/// The model of the result of a check.
pub open spec fn verdict(r: Result<(), ProofError>) -> Option<SpecProofError> {
    match r {
        Ok(_) => None,
        Err(e) => Some(e@),
    }
}

/// No premise from `from` on has an error exactly when each of them has none.
pub proof fn lemma_premise_error_none(p: SpecProof, from: nat)
    ensures
        premise_error(p, from) is None <==> forall|i: int|
            from <= i < p.premises.len() ==> first_error(#[trigger] p.premises[i]) is None,
    decreases p.premises.len() - from,
{
    if from < p.premises.len() {
        lemma_premise_error_none(p, from + 1);
        if premise_error(p, from) is None {
            assert forall|i: int| from <= i < p.premises.len() implies first_error(
                #[trigger] p.premises[i],
            ) is None by {
                if i > from {
                    assert(from + 1 <= i);
                }
            }
        } else if first_error(p.premises[from as int]) is None {
            let i = choose|i: int|
                from + 1 <= i < p.premises.len() && first_error(#[trigger] p.premises[i]) is Some;
            assert(from <= i);
        }
    }
}

/// A proof tree has no error exactly when it is well formed.
pub proof fn lemma_accepted_iff_well_formed(p: SpecProof)
    ensures
        first_error(p) is None <==> well_formed(p),
    decreases p,
{
    lemma_premise_error_none(p, 0);
    assert forall|i: int| 0 <= i < p.premises.len() implies (first_error(
        #[trigger] p.premises[i],
    ) is None <==> well_formed(p.premises[i])) by {
        lemma_accepted_iff_well_formed(p.premises[i]);
    }
}

fn invalid(p: &Proof) -> (r: Result<(), ProofError>)
    ensures
        verdict(r) == Some(invalid_rule(p@)),
{
    Err(ProofError::InvalidRule { rule: p.rule.clone(), conclusion: p.conclusion.pretty() })
}

fn count(p: &Proof, expected: usize) -> (r: Result<(), ProofError>)
    requires
        arity(p@.rule) == Some(expected as nat),
    ensures
        verdict(r) == if p@.premises.len() == expected {
            None
        } else {
            Some(wrong_count(p@))
        },
{
    if p.premises.len() != expected {
        Err(ProofError::WrongPremiseCount { expected, got: p.premises.len() })
    } else {
        Ok(())
    }
}

fn count_then_head(p: &Proof, expected: usize, h: Head) -> (r: Result<(), ProofError>)
    requires
        arity(p@.rule) == Some(expected as nat),
        !shape_first(p@.rule),
        fits(p@.rule, p@.conclusion) == has_head(p@.conclusion, h),
    ensures
        verdict(r) == node_error(p@),
{
    if p.premises.len() != expected {
        Err(ProofError::WrongPremiseCount { expected, got: p.premises.len() })
    } else if find_head(&p.conclusion.linear, h).is_none() {
        invalid(p)
    } else {
        Ok(())
    }
}

/// Checks that the rule at the root of a proof tree fits the conclusion there
/// and has the right number of premises.
pub fn verify_rule_application(p: &Proof) -> (r: Result<(), ProofError>)
    ensures
        verdict(r) == node_error(p@),
{
    let seq = &p.conclusion;
    match &p.rule {
        Rule::Axiom => {
            if seq.linear.len() != 2 {
                return invalid(p);
            }
            if !seq.linear[0].is_dual_atom_of(&seq.linear[1]) {
                return invalid(p);
            }
            count(p, 0)
        },
        Rule::OneIntro => {
            if seq.linear.len() != 1 {
                return invalid(p);
            }
            if seq.linear[0].head() != Head::One {
                return invalid(p);
            }
            count(p, 0)
        },
        Rule::TopIntro => {
            if find_head(&seq.linear, Head::Top).is_none() {
                return invalid(p);
            }
            count(p, 0)
        },
        Rule::BottomIntro => {
            if find_head(&seq.linear, Head::Bottom).is_none() {
                return invalid(p);
            }
            count(p, 1)
        },
        Rule::TensorIntro => count_then_head(p, 2, Head::Tensor),
        Rule::ParIntro => count_then_head(p, 1, Head::Par),
        Rule::WithIntro => count_then_head(p, 2, Head::With),
        Rule::PlusIntroLeft => count_then_head(p, 1, Head::Plus),
        Rule::PlusIntroRight => count_then_head(p, 1, Head::Plus),
        Rule::WhyNotIntro => count(p, 1),
        Rule::OfCourseIntro => count_then_head(p, 1, Head::OfCourse),
        Rule::Cut(_) => count(p, 2),
        Rule::Weakening => count(p, 1),
        Rule::Contraction => count(p, 1),
        Rule::Dereliction => count(p, 1),
        Rule::FocusPositive(_) => Ok(()),
        Rule::FocusNegative(_) => Ok(()),
        Rule::Blur => Ok(()),
    }
}

/// Checks a proof tree: every node must apply its rule to a conclusion that
/// fits, with the right number of premises. Reports the first error found,
/// root first, then the premises in order, with the path to it.
pub fn verify_proof(p: &Proof) -> (r: Result<(), ProofError>)
    ensures
        verdict(r) == first_error(p@),
        r is Ok <==> well_formed(p@),
    decreases p,
{
    proof {
        lemma_accepted_iff_well_formed(p@);
    }
    match verify_rule_application(p) {
        Err(e) => {
            return Err(e);
        },
        Ok(_) => {},
    }
    let mut i: usize = 0;
    while i < p.premises.len()
        invariant
            i <= p.premises.len(),
            node_error(p@) is None,
            premise_error(p@, i as nat) == first_error(p@),
        decreases p.premises.len() - i,
    {
        match verify_proof(&p.premises[i]) {
            Err(e) => {
                return Err(ProofError::PremiseFailed(Box::new(e)));
            },
            Ok(_) => {},
        }
        i = i + 1;
    }
    Ok(())
}

} // verus!
