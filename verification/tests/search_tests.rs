use lolli::{verify_proof, Formula, Proof, Prover, Rule, Sequent, TwoSidedSequent};

fn a() -> Formula {
    Formula::atom("A")
}

fn b() -> Formula {
    Formula::atom("B")
}

fn c() -> Formula {
    Formula::atom("C")
}

fn prove(formulas: Vec<Formula>, depth: usize) -> Option<Proof> {
    Prover::new(depth).prove(&Sequent::new(formulas))
}

fn entails(left: Vec<Formula>, right: Vec<Formula>, depth: usize) -> Option<Proof> {
    Prover::new(depth).prove_two_sided(&TwoSidedSequent::new(left, right))
}

fn depth_of(p: &Proof) -> usize {
    p.premises.iter().map(|q| depth_of(q) + 1).max().unwrap_or(0)
}

#[test]
fn an_atom_and_its_negation_are_proved_by_the_axiom_at_any_depth() {
    for depth in [0, 1, 100] {
        let proof = prove(vec![a(), Formula::neg_atom("A")], depth).unwrap();
        assert_eq!(proof.rule, Rule::Axiom);
        assert!(proof.premises.is_empty());
        assert_eq!(
            proof.conclusion,
            Sequent::new(vec![a(), Formula::neg_atom("A")])
        );
        let proof = prove(vec![Formula::neg_atom("A"), a()], depth).unwrap();
        assert_eq!(proof.rule, Rule::Axiom);
    }
}

#[test]
fn two_atoms_have_no_proof() {
    assert_eq!(prove(vec![a(), b()], 100), None);
    assert_eq!(prove(vec![a(), Formula::neg_atom("B")], 100), None);
    assert_eq!(prove(vec![a()], 100), None);
    assert_eq!(prove(vec![], 100), None);
}

#[test]
fn identity_is_proved_from_a_two_sided_sequent() {
    let proof = entails(vec![a()], vec![a()], 100).unwrap();
    assert_eq!(proof.rule, Rule::Axiom);
    assert_eq!(
        proof.conclusion,
        Sequent::new(vec![Formula::neg_atom("A"), a()])
    );
}

#[test]
fn one_and_top_are_proved_without_depth() {
    let proof = prove(vec![Formula::One], 0).unwrap();
    assert_eq!(proof.rule, Rule::OneIntro);
    let proof = prove(vec![a(), Formula::Top, Formula::par(a(), b())], 0).unwrap();
    assert_eq!(proof.rule, Rule::TopIntro);
    assert!(proof.premises.is_empty());
    assert_eq!(prove(vec![Formula::One, Formula::One], 100), None);
    assert_eq!(prove(vec![Formula::Zero], 100), None);
}

#[test]
fn a_with_has_two_premises_over_the_same_context() {
    let context = vec![
        Formula::neg_atom("A"),
        Formula::with(a(), Formula::Top),
        Formula::Zero,
    ];
    let proof = prove(context.clone(), 100);
    assert_eq!(proof, None);

    let context = vec![
        Formula::plus(Formula::neg_atom("A"), Formula::neg_atom("B")),
        Formula::with(a(), b()),
    ];
    let proof = prove(context.clone(), 100).unwrap();
    assert_eq!(proof.rule, Rule::WithIntro);
    assert_eq!(proof.conclusion, Sequent::new(context));
    assert_eq!(proof.premises.len(), 2);
    assert_eq!(
        proof.premises[0].conclusion,
        Sequent::new(vec![
            Formula::plus(Formula::neg_atom("A"), Formula::neg_atom("B")),
            a(),
        ])
    );
    assert_eq!(
        proof.premises[1].conclusion,
        Sequent::new(vec![
            Formula::plus(Formula::neg_atom("A"), Formula::neg_atom("B")),
            b(),
        ])
    );
    assert_eq!(proof.premises[0].rule, Rule::PlusIntroLeft);
    assert_eq!(proof.premises[1].rule, Rule::PlusIntroRight);
    assert_eq!(verify_proof(&proof), Ok(()));
}

#[test]
fn a_with_fails_where_one_side_fails() {
    assert_eq!(
        prove(vec![Formula::neg_atom("A"), Formula::with(a(), b())], 100),
        None
    );
}

#[test]
fn a_par_is_replaced_by_its_two_sides() {
    let proof = prove(vec![Formula::par(Formula::neg_atom("A"), a())], 100).unwrap();
    assert_eq!(proof.rule, Rule::ParIntro);
    assert_eq!(proof.premises.len(), 1);
    assert_eq!(proof.premises[0].rule, Rule::Axiom);
    assert_eq!(
        proof.premises[0].conclusion,
        Sequent::new(vec![Formula::neg_atom("A"), a()])
    );
    assert_eq!(prove(vec![Formula::par(Formula::neg_atom("A"), a())], 0), None);
}

#[test]
fn a_bottom_is_removed() {
    let proof = prove(vec![Formula::Bottom, Formula::One], 100).unwrap();
    assert_eq!(proof.rule, Rule::BottomIntro);
    assert_eq!(proof.premises[0].rule, Rule::OneIntro);
    assert_eq!(
        proof.premises[0].conclusion,
        Sequent::new(vec![Formula::One])
    );
}

#[test]
fn a_tensor_splits_the_context() {
    let proof = entails(vec![a(), b()], vec![Formula::tensor(a(), b())], 100).unwrap();
    assert_eq!(proof.rule, Rule::TensorIntro);
    assert_eq!(proof.premises.len(), 2);
    assert_eq!(
        proof.premises[0].conclusion,
        Sequent::new(vec![Formula::neg_atom("A"), a()])
    );
    assert_eq!(
        proof.premises[1].conclusion,
        Sequent::new(vec![Formula::neg_atom("B"), b()])
    );
    assert_eq!(verify_proof(&proof), Ok(()));

    let proof = entails(vec![b(), a()], vec![Formula::tensor(a(), b())], 100).unwrap();
    assert_eq!(
        proof.premises[0].conclusion,
        Sequent::new(vec![Formula::neg_atom("A"), a()])
    );
    assert_eq!(
        proof.premises[1].conclusion,
        Sequent::new(vec![Formula::neg_atom("B"), b()])
    );
}

#[test]
fn a_resource_cannot_be_used_twice_or_dropped() {
    assert_eq!(
        entails(vec![a()], vec![Formula::tensor(a(), a())], 100),
        None
    );
    assert_eq!(entails(vec![a(), b()], vec![a()], 100), None);
}

#[test]
fn a_plus_is_proved_from_the_left_side_first() {
    let proof = entails(vec![a()], vec![Formula::plus(a(), b())], 100).unwrap();
    assert_eq!(proof.rule, Rule::PlusIntroLeft);
    let proof = entails(vec![b()], vec![Formula::plus(a(), b())], 100).unwrap();
    assert_eq!(proof.rule, Rule::PlusIntroRight);
    let proof = entails(vec![a()], vec![Formula::plus(a(), a())], 100).unwrap();
    assert_eq!(proof.rule, Rule::PlusIntroLeft);
    assert_eq!(entails(vec![c()], vec![Formula::plus(a(), b())], 100), None);
}

#[test]
fn linear_implication_is_desugared_before_the_search() {
    let proof = prove(vec![Formula::lolli(a(), a())], 100).unwrap();
    assert_eq!(proof.rule, Rule::ParIntro);
    assert_eq!(
        proof.conclusion,
        Sequent::new(vec![Formula::par(Formula::neg_atom("A"), a())])
    );
    let modus_ponens = entails(vec![a(), Formula::lolli(a(), b())], vec![b()], 100).unwrap();
    assert_eq!(verify_proof(&modus_ponens), Ok(()));
    assert_eq!(modus_ponens.rule, Rule::TensorIntro);
}

#[test]
fn an_of_course_alone_is_promoted() {
    let proof = prove(vec![Formula::of_course(Formula::One)], 100).unwrap();
    assert_eq!(proof.rule, Rule::OfCourseIntro);
    assert_eq!(proof.premises[0].rule, Rule::OneIntro);
}

#[test]
fn an_of_course_among_others_is_derelicted() {
    let proof = prove(vec![Formula::neg_atom("A"), Formula::of_course(a())], 100).unwrap();
    assert_eq!(proof.rule, Rule::Dereliction);
    assert_eq!(proof.premises[0].rule, Rule::Axiom);
}

#[test]
fn a_why_not_is_used_then_discarded_then_duplicated() {
    let proof = prove(vec![Formula::why_not(Formula::One)], 100).unwrap();
    assert_eq!(proof.rule, Rule::WhyNotIntro);
    assert_eq!(proof.premises[0].rule, Rule::OneIntro);

    let proof = prove(vec![Formula::why_not(a()), Formula::One], 100).unwrap();
    assert_eq!(proof.rule, Rule::Weakening);
    assert_eq!(proof.premises[0].rule, Rule::OneIntro);

    let twice = Formula::tensor(Formula::neg_atom("A"), Formula::neg_atom("A"));
    let proof = prove(vec![Formula::why_not(a()), Formula::why_not(a()), twice.clone()], 100);
    assert!(proof.is_some());
    let proof = prove(vec![Formula::why_not(a()), twice], 100).unwrap();
    assert_eq!(proof.rule, Rule::Contraction);
    assert_eq!(
        proof.premises[0].conclusion,
        Sequent::new(vec![
            Formula::why_not(a()),
            Formula::why_not(a()),
            Formula::tensor(Formula::neg_atom("A"), Formula::neg_atom("A")),
        ])
    );
    assert_eq!(verify_proof(&proof), Ok(()));
}

#[test]
fn the_depth_bounds_the_proofs_found() {
    let goal = || {
        vec![Formula::par(
            Formula::Bottom,
            Formula::par(Formula::neg_atom("A"), a()),
        )]
    };
    assert_eq!(prove(goal(), 2), None);
    let proof = prove(goal(), 3).unwrap();
    assert_eq!(depth_of(&proof), 3);
    let proof = prove(goal(), 100).unwrap();
    assert_eq!(depth_of(&proof), 3);
}

#[test]
fn eager_decomposition_can_cost_depth() {
    let goal = || {
        vec![
            Formula::plus(Formula::Top, Formula::Zero),
            Formula::par(a(), b()),
        ]
    };
    assert_eq!(prove(goal(), 1), None);
    let proof = prove(goal(), 2).unwrap();
    assert_eq!(proof.rule, Rule::ParIntro);
    assert_eq!(proof.premises[0].rule, Rule::PlusIntroLeft);
    assert_eq!(proof.premises[0].premises[0].rule, Rule::TopIntro);
}

#[test]
fn every_proof_found_is_accepted_by_the_checker() {
    let goals: Vec<(Vec<Formula>, Vec<Formula>)> = vec![
        (vec![a()], vec![a()]),
        (vec![a(), b()], vec![Formula::tensor(b(), a())]),
        (vec![Formula::tensor(a(), b())], vec![Formula::tensor(b(), a())]),
        (vec![Formula::with(a(), b())], vec![a()]),
        (vec![Formula::with(a(), b())], vec![Formula::plus(b(), c())]),
        (
            vec![Formula::lolli(a(), b()), Formula::lolli(b(), c())],
            vec![Formula::lolli(a(), c())],
        ),
        (vec![Formula::Zero], vec![a()]),
        (vec![], vec![Formula::lolli(a(), Formula::lolli(b(), Formula::tensor(a(), b())))]),
        (vec![Formula::of_course(a())], vec![a()]),
        (vec![Formula::of_course(a())], vec![Formula::tensor(a(), a())]),
    ];
    for (left, right) in goals {
        let proof = entails(left, right, 20).unwrap();
        assert_eq!(verify_proof(&proof), Ok(()));
        assert!(depth_of(&proof) <= 20);
    }
}

#[test]
fn the_default_prover_allows_a_hundred_steps() {
    let mut chain = Formula::One;
    for _ in 0..100 {
        chain = Formula::par(Formula::Bottom, chain);
    }
    let mut prover = Prover::default();
    assert_eq!(prover.prove(&Sequent::new(vec![chain.clone()])), None);
    let mut prover = Prover::new(200);
    assert!(prover.prove(&Sequent::new(vec![chain])).is_some());
}

#[test]
fn the_focus_stays_on_the_side_of_a_tensor() {
    let f = || Formula::atom("F");
    let side = Formula::plus(a(), b());
    let goal = vec![
        Formula::tensor(side.clone(), c()),
        Formula::tensor(f(), Formula::neg_atom("A")),
        Formula::neg_atom("F"),
        Formula::neg_atom("C"),
    ];
    let proof = prove(goal, 10).unwrap();
    assert_eq!(proof.rule, Rule::TensorIntro);
    let left = &proof.premises[0];
    assert_eq!(
        left.conclusion,
        Sequent::new(vec![
            Formula::tensor(f(), Formula::neg_atom("A")),
            Formula::neg_atom("F"),
            side,
        ])
    );
    assert_eq!(left.rule, Rule::PlusIntroLeft);
    assert_eq!(left.premises[0].rule, Rule::TensorIntro);
    assert_eq!(
        proof.premises[1].conclusion,
        Sequent::new(vec![Formula::neg_atom("C"), c()])
    );
    assert_eq!(verify_proof(&proof), Ok(()));
}

#[test]
fn the_focus_stays_on_the_side_of_a_plus() {
    let f = || Formula::atom("F");
    let goal = vec![
        Formula::neg_atom("F"),
        Formula::plus(
            Formula::tensor(Formula::tensor(f(), Formula::neg_atom("A")), c()),
            Formula::Zero,
        ),
        Formula::plus(a(), b()),
        Formula::neg_atom("C"),
    ];
    let proof = prove(goal, 10).unwrap();
    assert_eq!(verify_proof(&proof), Ok(()));
    assert_eq!(proof.rule, Rule::PlusIntroLeft);
    let inner = &proof.premises[0];
    assert_eq!(
        inner.conclusion,
        Sequent::new(vec![
            Formula::neg_atom("F"),
            Formula::tensor(Formula::tensor(f(), Formula::neg_atom("A")), c()),
            Formula::plus(a(), b()),
            Formula::neg_atom("C"),
        ])
    );
    assert_eq!(inner.rule, Rule::TensorIntro);
    assert_eq!(
        inner.premises[0].conclusion,
        Sequent::new(vec![
            Formula::neg_atom("F"),
            Formula::plus(a(), b()),
            Formula::tensor(f(), Formula::neg_atom("A")),
        ])
    );
    assert_eq!(inner.premises[0].rule, Rule::TensorIntro);
}
