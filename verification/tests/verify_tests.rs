use lolli::{verify_proof, Formula, Proof, ProofError, Rule, Sequent};

#[test]
fn test_verify_axiom() {
    let proof = Proof {
        conclusion: Sequent::new(vec![
            Formula::atom("A"),
            Formula::neg_atom("A"),
        ]),
        rule: Rule::Axiom,
        premises: vec![],
    };

    assert!(verify_proof(&proof).is_ok());
}

#[test]
fn test_verify_invalid_axiom() {
    let proof = Proof {
        conclusion: Sequent::new(vec![
            Formula::atom("A"),
            Formula::neg_atom("B"),
        ]),
        rule: Rule::Axiom,
        premises: vec![],
    };

    assert!(verify_proof(&proof).is_err());
}

#[test]
fn test_verify_one() {
    let proof = Proof {
        conclusion: Sequent::new(vec![Formula::One]),
        rule: Rule::OneIntro,
        premises: vec![],
    };

    assert!(verify_proof(&proof).is_ok());
}

#[test]
fn test_verify_top() {
    let proof = Proof {
        conclusion: Sequent::new(vec![Formula::atom("A"), Formula::Top]),
        rule: Rule::TopIntro,
        premises: vec![],
    };

    assert!(verify_proof(&proof).is_ok());
}

fn node(formulas: Vec<Formula>, rule: Rule, premises: Vec<Proof>) -> Proof {
    Proof {
        conclusion: Sequent::new(formulas),
        rule,
        premises,
    }
}

fn identity_leaf(name: &str) -> Proof {
    node(
        vec![Formula::neg_atom(name), Formula::atom(name)],
        Rule::Axiom,
        vec![],
    )
}

#[test]
fn invalid_rule_carries_the_rule_and_the_conclusion() {
    let proof = node(
        vec![Formula::atom("A"), Formula::neg_atom("B")],
        Rule::Axiom,
        vec![],
    );
    assert_eq!(
        verify_proof(&proof),
        Err(ProofError::InvalidRule {
            rule: Rule::Axiom,
            conclusion: "A, B⊥".to_string(),
        })
    );
}

#[test]
fn axiom_with_three_formulas_is_invalid() {
    let proof = node(
        vec![Formula::atom("A"), Formula::neg_atom("A"), Formula::One],
        Rule::Axiom,
        vec![],
    );
    assert!(matches!(
        verify_proof(&proof),
        Err(ProofError::InvalidRule { .. })
    ));
}

#[test]
fn axiom_with_a_premise_has_the_wrong_premise_count() {
    let proof = node(
        vec![Formula::atom("A"), Formula::neg_atom("A")],
        Rule::Axiom,
        vec![identity_leaf("A")],
    );
    assert_eq!(
        verify_proof(&proof),
        Err(ProofError::WrongPremiseCount {
            expected: 0,
            got: 1
        })
    );
}

#[test]
fn unit_rules_check_the_conclusion_before_the_premises() {
    let proof = node(vec![Formula::atom("A")], Rule::OneIntro, vec![identity_leaf("A")]);
    assert!(matches!(
        verify_proof(&proof),
        Err(ProofError::InvalidRule { .. })
    ));
    let proof = node(vec![Formula::atom("A")], Rule::TopIntro, vec![identity_leaf("A")]);
    assert!(matches!(
        verify_proof(&proof),
        Err(ProofError::InvalidRule { .. })
    ));
    let proof = node(vec![Formula::atom("A")], Rule::BottomIntro, vec![]);
    assert!(matches!(
        verify_proof(&proof),
        Err(ProofError::InvalidRule { .. })
    ));
    let proof = node(vec![Formula::Bottom], Rule::BottomIntro, vec![]);
    assert_eq!(
        verify_proof(&proof),
        Err(ProofError::WrongPremiseCount {
            expected: 1,
            got: 0
        })
    );
}

#[test]
fn connective_rules_check_the_premises_before_the_conclusion() {
    let rules = vec![
        (Rule::TensorIntro, 2),
        (Rule::ParIntro, 1),
        (Rule::WithIntro, 2),
        (Rule::PlusIntroLeft, 1),
        (Rule::PlusIntroRight, 1),
        (Rule::OfCourseIntro, 1),
    ];
    for (rule, expected) in rules {
        let proof = node(vec![Formula::atom("A")], rule.clone(), vec![]);
        assert_eq!(
            verify_proof(&proof),
            Err(ProofError::WrongPremiseCount { expected, got: 0 })
        );
        let mut premises = Vec::new();
        for _ in 0..expected {
            premises.push(identity_leaf("A"));
        }
        let proof = node(vec![Formula::atom("A")], rule.clone(), premises);
        assert_eq!(
            verify_proof(&proof),
            Err(ProofError::InvalidRule {
                rule,
                conclusion: "A".to_string(),
            })
        );
    }
}

#[test]
fn structural_rules_check_the_premise_count_only() {
    let rules = vec![
        (Rule::WhyNotIntro, 1),
        (Rule::Weakening, 1),
        (Rule::Contraction, 1),
        (Rule::Dereliction, 1),
        (Rule::Cut(Formula::atom("A")), 2),
    ];
    for (rule, expected) in rules {
        let proof = node(vec![], rule.clone(), vec![]);
        assert_eq!(
            verify_proof(&proof),
            Err(ProofError::WrongPremiseCount { expected, got: 0 })
        );
        let mut premises = Vec::new();
        for _ in 0..expected {
            premises.push(identity_leaf("A"));
        }
        let proof = node(vec![], rule, premises);
        assert_eq!(verify_proof(&proof), Ok(()));
    }
}

#[test]
fn bookkeeping_rules_take_any_number_of_premises() {
    for count in 0..3 {
        for rule in [
            Rule::FocusPositive(Formula::One),
            Rule::FocusNegative(Formula::Top),
            Rule::Blur,
        ] {
            let mut premises = Vec::new();
            for _ in 0..count {
                premises.push(identity_leaf("A"));
            }
            assert_eq!(verify_proof(&node(vec![], rule, premises)), Ok(()));
        }
    }
}

#[test]
fn the_first_failing_premise_is_reported_with_its_path() {
    let bad = node(
        vec![Formula::atom("A"), Formula::atom("B")],
        Rule::Axiom,
        vec![],
    );
    let worse = node(vec![], Rule::OneIntro, vec![]);
    let inner = node(
        vec![Formula::par(Formula::atom("A"), Formula::atom("B"))],
        Rule::ParIntro,
        vec![bad],
    );
    let proof = node(
        vec![Formula::tensor(Formula::atom("A"), Formula::atom("B"))],
        Rule::TensorIntro,
        vec![inner, worse],
    );
    assert_eq!(
        verify_proof(&proof),
        Err(ProofError::PremiseFailed(Box::new(
            ProofError::PremiseFailed(Box::new(ProofError::InvalidRule {
                rule: Rule::Axiom,
                conclusion: "A, B".to_string(),
            }))
        )))
    );
}

#[test]
fn a_well_formed_tree_is_accepted() {
    let proof = node(
        vec![
            Formula::neg_atom("A"),
            Formula::neg_atom("B"),
            Formula::tensor(Formula::atom("A"), Formula::atom("B")),
        ],
        Rule::TensorIntro,
        vec![identity_leaf("A"), identity_leaf("B")],
    );
    assert_eq!(verify_proof(&proof), Ok(()));
}

#[test]
fn errors_have_messages() {
    let invalid = ProofError::InvalidRule {
        rule: Rule::Cut(Formula::atom("A")),
        conclusion: "A, B".to_string(),
    };
    assert_eq!(
        invalid.message(),
        "Invalid rule Cut(Atom(\"A\")) for conclusion A, B"
    );
    let count = ProofError::WrongPremiseCount {
        expected: 2,
        got: 10,
    };
    assert_eq!(count.message(), "Expected 2 premises, got 10");
    let context = ProofError::ContextMismatch {
        message: "left over".to_string(),
    };
    assert_eq!(context.message(), "Context mismatch: left over");
    let nested = ProofError::PremiseFailed(Box::new(ProofError::PremiseFailed(Box::new(count))));
    assert_eq!(
        nested.message(),
        "Premise verification failed: Premise verification failed: Expected 2 premises, got 10"
    );
}

#[test]
fn depth_and_cut_count_measure_a_tree() {
    let leaf = || identity_leaf("A");
    assert_eq!(leaf().depth(), 0);
    assert_eq!(leaf().cut_count(), 0);
    let cut = node(vec![], Rule::Cut(Formula::One), vec![leaf(), leaf()]);
    let tree = node(
        vec![],
        Rule::Cut(Formula::Top),
        vec![node(vec![], Rule::Blur, vec![cut]), leaf()],
    );
    assert_eq!(tree.depth(), 3);
    assert_eq!(tree.cut_count(), 2);
    assert_eq!(tree.clone(), tree);
}
