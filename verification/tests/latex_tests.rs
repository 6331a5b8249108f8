use lolli::{render_latex, Formula, LatexRenderer, Proof, Rule, Sequent};

#[test]
fn latex_test_render_axiom() {
    let proof = Proof {
        conclusion: Sequent::new(vec![Formula::neg_atom("A"), Formula::atom("A")]),
        rule: Rule::Axiom,
        premises: vec![],
    };

    let renderer = LatexRenderer::new();
    let output = renderer.render(&proof);

    assert!(output.contains(r"\begin{prooftree}"));
    assert!(output.contains(r"\AxiomC"));
    assert!(output.contains(r"\end{prooftree}"));
}

#[test]
fn test_render_binary() {
    let left = Proof {
        conclusion: Sequent::new(vec![Formula::atom("A")]),
        rule: Rule::Axiom,
        premises: vec![],
    };
    let right = Proof {
        conclusion: Sequent::new(vec![Formula::atom("B")]),
        rule: Rule::Axiom,
        premises: vec![],
    };
    let proof = Proof {
        conclusion: Sequent::new(vec![Formula::tensor(Formula::atom("A"), Formula::atom("B"))]),
        rule: Rule::TensorIntro,
        premises: vec![left, right],
    };

    let renderer = LatexRenderer::new();
    let output = renderer.render(&proof);

    assert!(output.contains(r"\BinaryInfC"));
    assert!(output.contains(r"\otimes"));
}

#[test]
fn test_with_preamble() {
    let proof = Proof {
        conclusion: Sequent::new(vec![Formula::atom("A")]),
        rule: Rule::Axiom,
        premises: vec![],
    };

    let mut renderer = LatexRenderer::new();
    renderer.include_preamble = true;

    let output = renderer.render(&proof);
    assert!(output.contains(r"\usepackage{bussproofs}"));
}

#[test]
fn test_short_labels() {
    let proof = Proof {
        conclusion: Sequent::new(vec![Formula::One]),
        rule: Rule::OneIntro,
        premises: vec![],
    };

    let mut renderer = LatexRenderer::new();
    renderer.short_labels = true;

    let output = renderer.render(&proof);
    assert!(!output.contains("-intro"));
}

#[test]
fn test_document() {
    let proof = Proof {
        conclusion: Sequent::new(vec![Formula::atom("A")]),
        rule: Rule::Axiom,
        premises: vec![],
    };

    let renderer = LatexRenderer::new();
    let output = renderer.render_document(&proof);

    assert!(output.contains(r"\documentclass"));
    assert!(output.contains(r"\begin{document}"));
    assert!(output.contains(r"\end{document}"));
}

fn node(formulas: Vec<Formula>, rule: Rule, premises: Vec<Proof>) -> Proof {
    Proof {
        conclusion: Sequent::new(formulas),
        rule,
        premises,
    }
}

fn leaf(name: &str) -> Proof {
    node(
        vec![Formula::neg_atom(name), Formula::atom(name)],
        Rule::Axiom,
        vec![],
    )
}

fn sample() -> Proof {
    node(
        vec![
            Formula::neg_atom("A"),
            Formula::neg_atom("B"),
            Formula::tensor(Formula::atom("A"), Formula::atom("B")),
        ],
        Rule::TensorIntro,
        vec![
            node(
                vec![Formula::neg_atom("A"), Formula::atom("A"), Formula::Bottom],
                Rule::BottomIntro,
                vec![leaf("A")],
            ),
            leaf("B"),
        ],
    )
}

#[test]
fn a_tree_is_written_premises_first() {
    let expected = [
        r"\begin{prooftree}",
        r"  \AxiomC{$\vdash A^{\bot}, A$}",
        r"  \RightLabel{\scriptsize $\bot$-intro}",
        r"  \UnaryInfC{$\vdash A^{\bot}, A, \bot$}",
        r"  \AxiomC{$\vdash B^{\bot}, B$}",
        r"  \RightLabel{\scriptsize $\otimes$-intro}",
        r"  \BinaryInfC{$\vdash A^{\bot}, B^{\bot}, (A \otimes B)$}",
        r"\end{prooftree}",
    ]
    .join("\n");
    assert_eq!(LatexRenderer::new().render(&sample()), expected);
    assert_eq!(LatexRenderer::default().render(&sample()), expected);
    assert_eq!(render_latex(&sample()), expected);
}

#[test]
fn the_preamble_names_the_packages() {
    let mut renderer = LatexRenderer::new();
    renderer.include_preamble = true;
    renderer.short_labels = true;
    let expected = [
        r"\usepackage{bussproofs}",
        r"\usepackage{amsmath}",
        r"\usepackage{amssymb}",
        "",
        r"\begin{prooftree}",
        r"  \AxiomC{$\vdash \mathbf{1}$}",
        r"  \RightLabel{\scriptsize $\bot$}",
        r"  \UnaryInfC{$\vdash \bot, \mathbf{1}$}",
        r"\end{prooftree}",
    ]
    .join("\n");
    let proof = node(
        vec![Formula::Bottom, Formula::One],
        Rule::BottomIntro,
        vec![node(vec![Formula::One], Rule::OneIntro, vec![])],
    );
    assert_eq!(renderer.render(&proof), expected);
}

#[test]
fn a_document_wraps_the_tree() {
    let expected = [
        r"\documentclass{article}",
        r"\usepackage{bussproofs}",
        r"\usepackage{amsmath}",
        r"\usepackage{amssymb}",
        "",
        r"\begin{document}",
        "",
        r"\begin{prooftree}",
        r"  \AxiomC{$\vdash A^{\bot}, A$}",
        r"\end{prooftree}",
        "",
        r"\end{document}",
    ]
    .join("\n");
    assert_eq!(LatexRenderer::new().render_document(&leaf("A")), expected);
}

#[test]
fn the_inference_follows_the_number_of_premises() {
    let with = |count: usize| {
        let mut premises = Vec::new();
        for _ in 0..count {
            premises.push(leaf("A"));
        }
        LatexRenderer::new().render(&node(vec![Formula::Top], Rule::Blur, premises))
    };
    assert!(with(0).contains("  \\AxiomC{$\\vdash \\top$}"));
    assert!(!with(0).contains("RightLabel"));
    assert!(with(1).contains("  \\RightLabel{\\scriptsize blur}\n  \\UnaryInfC{$\\vdash \\top$}"));
    assert!(with(2).contains("  \\BinaryInfC{$\\vdash \\top$}"));
    assert!(with(3).contains("  \\TrinaryInfC{$\\vdash \\top$}"));
    assert!(with(4).contains("  \\QuaternaryInfC{$\\vdash \\top$}"));
    assert!(with(5).contains("  \\QuaternaryInfC{$\\vdash \\top$}"));
}

#[test]
fn every_rule_has_a_long_and_a_short_label() {
    let labels = vec![
        (Rule::Axiom, "axiom", "ax"),
        (Rule::Cut(Formula::One), "cut", "cut"),
        (Rule::OneIntro, "$1$-intro", "$1$"),
        (Rule::BottomIntro, "$\\bot$-intro", "$\\bot$"),
        (Rule::TopIntro, "$\\top$-intro", "$\\top$"),
        (Rule::TensorIntro, "$\\otimes$-intro", "$\\otimes$"),
        (Rule::ParIntro, "$\\parr$-intro", "$\\parr$"),
        (Rule::WithIntro, "$\\with$-intro", "$\\with$"),
        (Rule::PlusIntroLeft, "$\\oplus$-intro$_L$", "$\\oplus_L$"),
        (Rule::PlusIntroRight, "$\\oplus$-intro$_R$", "$\\oplus_R$"),
        (Rule::OfCourseIntro, "$!$-intro", "$!$"),
        (Rule::WhyNotIntro, "$?$-intro", "$?$"),
        (Rule::Weakening, "weakening", "W"),
        (Rule::Contraction, "contraction", "C"),
        (Rule::Dereliction, "dereliction", "D"),
        (Rule::FocusPositive(Formula::One), "focus+", "F+"),
        (Rule::FocusNegative(Formula::One), "focus-", "F-"),
        (Rule::Blur, "blur", "B"),
    ];
    let mut renderer = LatexRenderer::new();
    for (rule, long, short) in labels {
        renderer.short_labels = false;
        assert_eq!(renderer.format_rule(&rule), long);
        renderer.short_labels = true;
        assert_eq!(renderer.format_rule(&rule), short);
    }
}

#[test]
fn a_bare_tree_has_its_rules_in_comments() {
    let expected = [
        r"\begin{prooftree}",
        r"  \AxiomC{$\vdash A^{\bot}, A$}",
        r"  \UnaryInfC{$\vdash A^{\bot}, A, \bot$} % BottomIntro",
        r"  \AxiomC{$\vdash B^{\bot}, B$}",
        r"  \BinaryInfC{$\vdash A^{\bot}, B^{\bot}, (A \otimes B)$} % TensorIntro",
        r"\end{prooftree}",
    ]
    .join("\n");
    assert_eq!(lolli::proof_to_latex(&sample(), 0), expected);
    assert_eq!(lolli::proof_to_latex(&sample(), 7), expected);
    let mut premises = Vec::new();
    for _ in 0..4 {
        premises.push(leaf("A"));
    }
    let wide = node(vec![Formula::Top], Rule::Blur, premises);
    assert!(lolli::proof_to_latex(&wide, 0).ends_with(
        "  \\TrinaryInfC{$\\vdash \\top$} % Blur\n\\end{prooftree}"
    ));
}
