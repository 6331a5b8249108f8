use lolli::{render_dot, Direction, DotRenderer, Formula, NodeShape, Proof, Rule, Sequent};

#[test]
fn dot_test_render_axiom() {
    let proof = Proof {
        conclusion: Sequent::new(vec![Formula::neg_atom("A"), Formula::atom("A")]),
        rule: Rule::Axiom,
        premises: vec![],
    };

    let renderer = DotRenderer::new();
    let output = renderer.render(&proof);

    assert!(output.contains("digraph proof"));
    assert!(output.contains("rankdir=BT"));
    assert!(output.contains("n0"));
}

#[test]
fn test_render_edges() {
    let left = Proof {
        conclusion: Sequent::new(vec![Formula::atom("A")]),
        rule: Rule::Axiom,
        premises: vec![],
    };
    let right = Proof {
        conclusion: Sequent::new(vec![Formula::atom("B")]),
        rule: Rule::Axiom,
        premises: vec![],
    };
    let proof = Proof {
        conclusion: Sequent::new(vec![Formula::tensor(Formula::atom("A"), Formula::atom("B"))]),
        rule: Rule::TensorIntro,
        premises: vec![left, right],
    };

    let renderer = DotRenderer::new();
    let output = renderer.render(&proof);

    assert!(output.contains("->"));
}

#[test]
fn test_direction() {
    let proof = Proof {
        conclusion: Sequent::new(vec![Formula::atom("A")]),
        rule: Rule::Axiom,
        premises: vec![],
    };

    let mut renderer = DotRenderer::new();
    renderer.direction = Direction::TopToBottom;

    let output = renderer.render(&proof);
    assert!(output.contains("rankdir=TB"));
}

#[test]
fn test_no_rules() {
    let proof = Proof {
        conclusion: Sequent::new(vec![Formula::atom("A")]),
        rule: Rule::Axiom,
        premises: vec![],
    };

    let mut renderer = DotRenderer::new();
    renderer.show_rules = false;

    let output = renderer.render(&proof);
    assert!(!output.contains("Axiom"));
}

#[test]
fn test_proof_net() {
    let proof = Proof {
        conclusion: Sequent::new(vec![Formula::atom("A")]),
        rule: Rule::Axiom,
        premises: vec![],
    };

    let renderer = DotRenderer::new();
    let output = renderer.render_proof_net(&proof);

    assert!(output.contains("proof_net"));
    assert!(output.contains("circle"));
}

fn node(formulas: Vec<Formula>, rule: Rule, premises: Vec<Proof>) -> Proof {
    Proof {
        conclusion: Sequent::new(formulas),
        rule,
        premises,
    }
}

fn leaf(name: &str) -> Proof {
    node(
        vec![Formula::neg_atom(name), Formula::atom(name)],
        Rule::Axiom,
        vec![],
    )
}

fn sample() -> Proof {
    node(
        vec![
            Formula::neg_atom("A"),
            Formula::neg_atom("B"),
            Formula::tensor(Formula::atom("A"), Formula::atom("B")),
        ],
        Rule::TensorIntro,
        vec![
            node(
                vec![Formula::neg_atom("A"), Formula::atom("A"), Formula::Bottom],
                Rule::BottomIntro,
                vec![leaf("A")],
            ),
            leaf("B"),
        ],
    )
}

#[test]
fn a_graph_numbers_its_nodes_root_first() {
    let expected = [
        "digraph proof {",
        "  rankdir=BT;",
        "  node [shape=box, fontname=\"Helvetica\"];",
        "  edge [arrowhead=none];",
        "",
        "  n0 [label=\"⊢ A⊥, B⊥, (A ⊗ B)\\n(TensorIntro)\"];",
        "  n1 [label=\"⊢ A⊥, A, ⊥\\n(BottomIntro)\"];",
        "  n2 [label=\"⊢ A⊥, A\\n(Axiom)\"];",
        "  n2 -> n1;",
        "  n1 -> n0;",
        "  n3 [label=\"⊢ B⊥, B\\n(Axiom)\"];",
        "  n3 -> n0;",
        "}",
    ]
    .join("\n");
    assert_eq!(DotRenderer::new().render(&sample()), expected);
    assert_eq!(render_dot(&sample()), expected);
}

#[test]
fn a_graph_follows_the_settings_of_its_renderer() {
    let mut renderer = DotRenderer::default();
    renderer.direction = Direction::LeftToRight;
    renderer.node_shape = NodeShape::RoundedBox;
    renderer.font = "Courier".to_string();
    renderer.show_rules = false;
    let expected = [
        "digraph proof {",
        "  rankdir=LR;",
        "  node [shape=box, style=rounded, fontname=\"Courier\"];",
        "  edge [arrowhead=none];",
        "",
        "  n0 [label=\"⊢ B⊥, B\"];",
        "}",
    ]
    .join("\n");
    assert_eq!(renderer.render(&leaf("B")), expected);
    renderer.direction = Direction::RightToLeft;
    renderer.node_shape = NodeShape::Ellipse;
    assert!(renderer.render(&leaf("B")).contains("  rankdir=RL;\n  node [shape=ellipse,"));
    renderer.node_shape = NodeShape::Plain;
    assert!(renderer.render(&leaf("B")).contains("shape=plain,"));
}

#[test]
fn labels_escape_double_quotes() {
    let proof = node(
        vec![Formula::atom("a\"b")],
        Rule::Cut(Formula::atom("C")),
        vec![],
    );
    let output = DotRenderer::new().render(&proof);
    assert!(output.contains("  n0 [label=\"⊢ a\\\"b\\n(Cut(Atom(\\\"C\\\")))\"];"));
    assert_eq!(
        output.lines().nth(5).unwrap(),
        format!(
            "  n0 [label=\"{}\"];",
            format!("⊢ a\"b\\n({:?})", Rule::Cut(Formula::atom("C"))).replace('"', "\\\"")
        )
    );
}

#[test]
fn a_proof_net_shows_the_rules_alone() {
    let expected = [
        "digraph proof_net {",
        "  rankdir=TB;",
        "  node [shape=circle, width=0.3];",
        "  edge [dir=none];",
        "",
        "  n0 [label=\"TensorIntro\"];",
        "  n1 [label=\"BottomIntro\"];",
        "  n2 [label=\"Axiom\"];",
        "  n2 -> n1;",
        "  n1 -> n0;",
        "  n3 [label=\"Axiom\"];",
        "  n3 -> n0;",
        "}",
    ]
    .join("\n");
    assert_eq!(DotRenderer::new().render_proof_net(&sample()), expected);
}

#[test]
fn node_numbers_pass_ten() {
    let mut premises = Vec::new();
    for _ in 0..11 {
        premises.push(leaf("A"));
    }
    let proof = node(vec![], Rule::Blur, premises);
    let output = DotRenderer::new().render_proof_net(&proof);
    assert!(output.contains("  n10 [label=\"Axiom\"];\n  n10 -> n0;"));
    assert!(output.contains("  n11 [label=\"Axiom\"];\n  n11 -> n0;"));
}

#[test]
fn rules_are_written_as_values() {
    let rules = vec![
        Rule::Axiom,
        Rule::OneIntro,
        Rule::TopIntro,
        Rule::BottomIntro,
        Rule::TensorIntro,
        Rule::ParIntro,
        Rule::WithIntro,
        Rule::PlusIntroLeft,
        Rule::PlusIntroRight,
        Rule::OfCourseIntro,
        Rule::WhyNotIntro,
        Rule::Weakening,
        Rule::Contraction,
        Rule::Dereliction,
        Rule::Blur,
        Rule::Cut(Formula::lolli(
            Formula::tensor(Formula::atom("A"), Formula::neg_atom("é\n\"")),
            Formula::par(Formula::One, Formula::Bottom),
        )),
        Rule::FocusPositive(Formula::with(
            Formula::plus(Formula::Top, Formula::Zero),
            Formula::of_course(Formula::why_not(Formula::atom("x"))),
        )),
        Rule::FocusNegative(Formula::atom("")),
    ];
    for rule in rules {
        assert_eq!(rule.debug_text(), format!("{:?}", rule));
    }
    assert_eq!(
        Rule::Cut(Formula::atom("A")).debug_text(),
        "Cut(Atom(\"A\"))"
    );
}

#[test]
fn a_graph_of_boxes_escapes_the_conclusion_only() {
    let proof = node(
        vec![Formula::atom("a\"b")],
        Rule::Cut(Formula::atom("C")),
        vec![leaf("A"), leaf("B")],
    );
    let expected = [
        "digraph proof {",
        "  rankdir=BT;",
        "  node [shape=box];",
        "  n0 [label=\"⊢ a\\\"b\\n(Cut(Atom(\"C\")))\"];",
        "  n1 [label=\"⊢ A⊥, A\\n(Axiom)\"];",
        "  n1 -> n0;",
        "  n2 [label=\"⊢ B⊥, B\\n(Axiom)\"];",
        "  n2 -> n0;",
        "}",
    ]
    .join("\n");
    assert_eq!(lolli::proof_to_dot(&proof), expected);
}
