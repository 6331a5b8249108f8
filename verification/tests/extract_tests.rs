use lolli::{extract_term, Extractor, Formula, Proof, Rule, Sequent, Term};

#[test]
fn test_extract_axiom() {
    let proof = Proof {
        conclusion: Sequent::new(vec![Formula::neg_atom("A"), Formula::atom("A")]),
        rule: Rule::Axiom,
        premises: vec![],
    };

    let mut extractor = Extractor::new();
    let term = extractor.extract(&proof);

    assert!(matches!(term, Term::Var(_) | Term::Abs(_, _)));
}

#[test]
fn test_extract_one() {
    let proof = Proof {
        conclusion: Sequent::new(vec![Formula::One]),
        rule: Rule::OneIntro,
        premises: vec![],
    };

    let mut extractor = Extractor::new();
    let term = extractor.extract(&proof);

    assert_eq!(term, Term::Unit);
}

#[test]
fn test_extract_top() {
    let proof = Proof {
        conclusion: Sequent::new(vec![Formula::atom("A"), Formula::Top]),
        rule: Rule::TopIntro,
        premises: vec![],
    };

    let mut extractor = Extractor::new();
    let term = extractor.extract(&proof);

    assert_eq!(term, Term::Trivial);
}

#[test]
fn test_extract_tensor() {
    let left = Proof {
        conclusion: Sequent::new(vec![Formula::neg_atom("A"), Formula::atom("A")]),
        rule: Rule::Axiom,
        premises: vec![],
    };
    let right = Proof {
        conclusion: Sequent::new(vec![Formula::neg_atom("B"), Formula::atom("B")]),
        rule: Rule::Axiom,
        premises: vec![],
    };
    let proof = Proof {
        conclusion: Sequent::new(vec![
            Formula::neg_atom("A"),
            Formula::neg_atom("B"),
            Formula::tensor(Formula::atom("A"), Formula::atom("B")),
        ]),
        rule: Rule::TensorIntro,
        premises: vec![left, right],
    };

    let mut extractor = Extractor::new();
    let term = extractor.extract(&proof);

    assert!(matches!(term, Term::Pair(_, _)));
}

#[test]
fn test_extract_plus_left() {
    let inner = Proof {
        conclusion: Sequent::new(vec![Formula::neg_atom("A"), Formula::atom("A")]),
        rule: Rule::Axiom,
        premises: vec![],
    };
    let proof = Proof {
        conclusion: Sequent::new(vec![
            Formula::neg_atom("A"),
            Formula::plus(Formula::atom("A"), Formula::atom("B")),
        ]),
        rule: Rule::PlusIntroLeft,
        premises: vec![inner],
    };

    let mut extractor = Extractor::new();
    let term = extractor.extract(&proof);

    assert!(matches!(term, Term::Inl(_)));
}

#[test]
fn test_extract_plus_right() {
    let inner = Proof {
        conclusion: Sequent::new(vec![Formula::neg_atom("B"), Formula::atom("B")]),
        rule: Rule::Axiom,
        premises: vec![],
    };
    let proof = Proof {
        conclusion: Sequent::new(vec![
            Formula::neg_atom("B"),
            Formula::plus(Formula::atom("A"), Formula::atom("B")),
        ]),
        rule: Rule::PlusIntroRight,
        premises: vec![inner],
    };

    let mut extractor = Extractor::new();
    let term = extractor.extract(&proof);

    assert!(matches!(term, Term::Inr(_)));
}

#[test]
fn test_extract_with() {
    let left = Proof {
        conclusion: Sequent::new(vec![Formula::atom("A")]),
        rule: Rule::Axiom,
        premises: vec![],
    };
    let right = Proof {
        conclusion: Sequent::new(vec![Formula::atom("B")]),
        rule: Rule::Axiom,
        premises: vec![],
    };
    let proof = Proof {
        conclusion: Sequent::new(vec![Formula::with(Formula::atom("A"), Formula::atom("B"))]),
        rule: Rule::WithIntro,
        premises: vec![left, right],
    };

    let mut extractor = Extractor::new();
    let term = extractor.extract(&proof);

    assert!(matches!(term, Term::Pair(_, _)));
}

#[test]
fn test_extract_promote() {
    let inner = Proof {
        conclusion: Sequent::new(vec![Formula::atom("A")]),
        rule: Rule::Axiom,
        premises: vec![],
    };
    let proof = Proof {
        conclusion: Sequent::new(vec![Formula::of_course(Formula::atom("A"))]),
        rule: Rule::OfCourseIntro,
        premises: vec![inner],
    };

    let mut extractor = Extractor::new();
    let term = extractor.extract(&proof);

    assert!(matches!(term, Term::Promote(_)));
}

#[test]
fn extract_test_pretty_print() {
    let proof = Proof {
        conclusion: Sequent::new(vec![
            Formula::neg_atom("A"),
            Formula::neg_atom("B"),
            Formula::tensor(Formula::atom("A"), Formula::atom("B")),
        ]),
        rule: Rule::TensorIntro,
        premises: vec![
            Proof {
                conclusion: Sequent::new(vec![Formula::neg_atom("A"), Formula::atom("A")]),
                rule: Rule::Axiom,
                premises: vec![],
            },
            Proof {
                conclusion: Sequent::new(vec![Formula::neg_atom("B"), Formula::atom("B")]),
                rule: Rule::Axiom,
                premises: vec![],
            },
        ],
    };

    let mut extractor = Extractor::new();
    let term = extractor.extract(&proof);
    let pretty = term.pretty();

    assert!(pretty.contains(',') || pretty.contains('('));
}

fn node(formulas: Vec<Formula>, rule: Rule, premises: Vec<Proof>) -> Proof {
    Proof {
        conclusion: Sequent::new(formulas),
        rule,
        premises,
    }
}

fn identity_leaf(name: &str) -> Proof {
    node(
        vec![Formula::neg_atom(name), Formula::atom(name)],
        Rule::Axiom,
        vec![],
    )
}

fn var(name: &str) -> Term {
    Term::Var(name.to_string())
}

#[test]
fn an_axiom_on_an_atom_gives_the_lowercase_name() {
    assert_eq!(extract_term(&identity_leaf("File")), var("file"));
    assert_eq!(
        extract_term(&node(vec![Formula::atom("ÉTÉ")], Rule::Axiom, vec![])),
        var("été")
    );
}

#[test]
fn an_axiom_without_atoms_gives_the_identity_on_a_fresh_variable() {
    let proof = node(vec![Formula::neg_atom("A"), Formula::One], Rule::Axiom, vec![]);
    assert_eq!(
        extract_term(&proof),
        Term::Abs("x0".to_string(), Box::new(var("x0")))
    );
}

#[test]
fn fresh_variables_count_up_in_decimal() {
    let mut extractor = Extractor::new();
    let mut names = Vec::new();
    for _ in 0..12 {
        names.push(extractor.fresh_var());
    }
    assert_eq!(
        names,
        vec!["x0", "x1", "x2", "x3", "x4", "x5", "x6", "x7", "x8", "x9", "x10", "x11"]
    );
    for _ in 12..99 {
        extractor.fresh_var();
    }
    assert_eq!(extractor.fresh_var(), "x99");
    assert_eq!(extractor.fresh_var(), "x100");
    assert_eq!(extractor.fresh_var(), "x101");
}

#[test]
fn a_variable_for_an_atom_carries_its_lowercase_name() {
    let mut extractor = Extractor::new();
    assert_eq!(extractor.var_for_formula(&Formula::atom("Foo")), "foo0");
    assert_eq!(extractor.var_for_formula(&Formula::neg_atom("BAR")), "bar1");
    assert_eq!(extractor.var_for_formula(&Formula::One), "x2");
    assert_eq!(extractor.fresh_var(), "x3");
}

#[test]
fn tensor_and_with_pair_their_premises() {
    let proof = node(vec![], Rule::TensorIntro, vec![identity_leaf("A"), identity_leaf("B")]);
    assert_eq!(
        extract_term(&proof),
        Term::Pair(Box::new(var("a")), Box::new(var("b")))
    );
    let proof = node(vec![], Rule::WithIntro, vec![identity_leaf("A"), identity_leaf("B")]);
    assert_eq!(
        extract_term(&proof),
        Term::Pair(Box::new(var("a")), Box::new(var("b")))
    );
    assert_eq!(
        extract_term(&node(vec![], Rule::TensorIntro, vec![identity_leaf("A")])),
        var("a")
    );
    assert_eq!(
        extract_term(&node(vec![], Rule::WithIntro, vec![identity_leaf("A")])),
        var("a")
    );
    assert_eq!(
        extract_term(&node(vec![], Rule::TensorIntro, vec![])),
        Term::Unit
    );
    assert_eq!(
        extract_term(&node(vec![], Rule::WithIntro, vec![])),
        Term::Trivial
    );
    assert_eq!(
        extract_term(&node(
            vec![],
            Rule::TensorIntro,
            vec![identity_leaf("A"), identity_leaf("B"), identity_leaf("C")]
        )),
        Term::Unit
    );
}

#[test]
fn rules_without_premises_fall_back_to_the_unit() {
    assert_eq!(
        extract_term(&node(vec![], Rule::PlusIntroLeft, vec![])),
        Term::Inl(Box::new(Term::Unit))
    );
    assert_eq!(
        extract_term(&node(vec![], Rule::PlusIntroRight, vec![])),
        Term::Inr(Box::new(Term::Unit))
    );
    assert_eq!(
        extract_term(&node(vec![], Rule::OfCourseIntro, vec![])),
        Term::Promote(Box::new(Term::Unit))
    );
    assert_eq!(
        extract_term(&node(vec![], Rule::Dereliction, vec![])),
        Term::Derelict(Box::new(Term::Unit))
    );
    for rule in [
        Rule::BottomIntro,
        Rule::ParIntro,
        Rule::WhyNotIntro,
        Rule::Weakening,
        Rule::Contraction,
        Rule::Blur,
        Rule::FocusPositive(Formula::One),
        Rule::FocusNegative(Formula::One),
        Rule::Cut(Formula::One),
    ] {
        assert_eq!(extract_term(&node(vec![], rule, vec![])), Term::Unit);
    }
}

#[test]
fn pass_through_rules_give_the_term_of_their_premise() {
    for rule in [
        Rule::BottomIntro,
        Rule::ParIntro,
        Rule::WhyNotIntro,
        Rule::Blur,
        Rule::FocusPositive(Formula::One),
        Rule::FocusNegative(Formula::One),
    ] {
        assert_eq!(
            extract_term(&node(vec![], rule, vec![identity_leaf("A")])),
            var("a")
        );
    }
    assert_eq!(
        extract_term(&node(vec![], Rule::Dereliction, vec![identity_leaf("A")])),
        Term::Derelict(Box::new(var("a")))
    );
}

#[test]
fn weakening_discards_and_contraction_copies() {
    assert_eq!(
        extract_term(&node(vec![], Rule::Weakening, vec![identity_leaf("A")])),
        Term::Discard(Box::new(Term::Unit), Box::new(var("a")))
    );
    let identity = node(vec![], Rule::Axiom, vec![]);
    assert_eq!(
        extract_term(&node(vec![], Rule::Contraction, vec![identity])),
        Term::Copy(
            Box::new(var("x2")),
            "x0".to_string(),
            "x1".to_string(),
            Box::new(Term::Abs("x3".to_string(), Box::new(var("x3")))),
        )
    );
}

#[test]
fn a_cut_applies_the_consumer_to_the_producer() {
    let producer = node(vec![Formula::One], Rule::OneIntro, vec![]);
    let consumer = node(vec![Formula::atom("A")], Rule::Axiom, vec![]);
    let proof = node(
        vec![],
        Rule::Cut(Formula::neg_atom("A")),
        vec![producer, consumer],
    );
    assert_eq!(
        extract_term(&proof),
        Term::App(Box::new(var("a0")), Box::new(Term::Unit))
    );
}

#[test]
fn a_cut_binds_its_variable_only_for_the_consumer() {
    let producer = node(vec![Formula::atom("A")], Rule::Axiom, vec![]);
    let consumer = node(vec![Formula::neg_atom("A")], Rule::Axiom, vec![]);
    let proof = node(
        vec![],
        Rule::Cut(Formula::atom("A")),
        vec![producer, consumer],
    );
    assert_eq!(
        extract_term(&proof),
        Term::App(Box::new(var("a0")), Box::new(var("a")))
    );
}

#[test]
fn a_cut_on_a_tensor_binds_a_pair() {
    let cut = Formula::tensor(Formula::atom("A"), Formula::atom("B"));
    let producer = node(vec![], Rule::TensorIntro, vec![identity_leaf("A"), identity_leaf("B")]);
    let consumer = node(vec![], Rule::Axiom, vec![]);
    let proof = node(vec![], Rule::Cut(cut), vec![producer, consumer]);
    assert_eq!(
        extract_term(&proof),
        Term::LetPair(
            "x2".to_string(),
            "x3".to_string(),
            Box::new(Term::Pair(Box::new(var("a")), Box::new(var("b")))),
            Box::new(Term::Abs("x1".to_string(), Box::new(var("x1")))),
        )
    );
}

#[test]
fn a_cut_on_a_plus_puts_the_consumer_in_both_branches() {
    let cut = Formula::plus(Formula::atom("A"), Formula::atom("B"));
    let producer = node(vec![], Rule::PlusIntroLeft, vec![identity_leaf("A")]);
    let consumer = node(vec![Formula::One], Rule::OneIntro, vec![]);
    let proof = node(vec![], Rule::Cut(cut), vec![producer, consumer]);
    assert_eq!(
        extract_term(&proof),
        Term::Case(
            Box::new(Term::Inl(Box::new(var("a")))),
            "x1".to_string(),
            Box::new(Term::Unit),
            "x2".to_string(),
            Box::new(Term::Unit),
        )
    );
}

#[test]
fn a_cut_with_one_premise_gives_the_unit() {
    let proof = node(vec![], Rule::Cut(Formula::One), vec![identity_leaf("A")]);
    assert_eq!(extract_term(&proof), Term::Unit);
}

#[test]
fn the_default_extractor_starts_at_zero() {
    let mut extractor = Extractor::default();
    assert_eq!(extractor.fresh_var(), "x0");
}

#[test]
fn the_term_of_a_proof_without_cuts_is_normalized() {
    let promoted = node(
        vec![Formula::of_course(Formula::One)],
        Rule::OfCourseIntro,
        vec![node(vec![Formula::One], Rule::OneIntro, vec![])],
    );
    let proof = node(
        vec![],
        Rule::Weakening,
        vec![node(vec![], Rule::Dereliction, vec![promoted])],
    );
    assert!(proof.is_cut_free());
    assert_eq!(
        extract_term(&proof),
        Term::Discard(
            Box::new(Term::Unit),
            Box::new(Term::Derelict(Box::new(Term::Promote(Box::new(
                Term::Unit
            ))))),
        )
    );
    assert_eq!(
        lolli::extract_normalized(&proof),
        Some(Term::Discard(Box::new(Term::Unit), Box::new(Term::Unit)))
    );
}

#[test]
fn the_term_of_a_proof_with_a_cut_is_not_normalized() {
    let inner = node(
        vec![],
        Rule::Cut(Formula::One),
        vec![identity_leaf("A"), identity_leaf("B")],
    );
    let proof = node(vec![], Rule::Blur, vec![identity_leaf("A"), inner]);
    assert!(!proof.is_cut_free());
    assert_eq!(lolli::extract_normalized(&proof), None);
}

#[test]
fn the_term_of_a_proof_found_is_normalized() {
    let goal = lolli::parse_sequent("A, B |- (A * B) + 0").unwrap();
    let proof = lolli::Prover::new(10).prove_two_sided(&goal).unwrap();
    assert!(proof.is_cut_free());
    let term = extract_term(&proof);
    assert_eq!(
        term,
        Term::Inl(Box::new(Term::Pair(Box::new(var("a")), Box::new(var("b")))))
    );
    assert_eq!(lolli::extract_normalized(&proof), Some(term));
}
