use lolli::{render_ascii, render_unicode, Formula, Proof, Rule, Sequent, TreeRenderer};

fn node(formulas: Vec<Formula>, rule: Rule, premises: Vec<Proof>) -> Proof {
    Proof {
        conclusion: Sequent::new(formulas),
        rule,
        premises,
    }
}

fn leaf(name: &str) -> Proof {
    node(
        vec![Formula::neg_atom(name), Formula::atom(name)],
        Rule::Axiom,
        vec![],
    )
}

fn sample() -> Proof {
    node(
        vec![
            Formula::neg_atom("A"),
            Formula::neg_atom("B"),
            Formula::tensor(Formula::atom("A"), Formula::atom("B")),
        ],
        Rule::TensorIntro,
        vec![
            node(
                vec![Formula::neg_atom("A"), Formula::atom("A"), Formula::Bottom],
                Rule::BottomIntro,
                vec![leaf("A")],
            ),
            leaf("B"),
        ],
    )
}

#[test]
fn a_leaf_is_one_line() {
    assert_eq!(render_ascii(&leaf("A")), "|- A^, A");
    assert_eq!(render_unicode(&leaf("A")), "⊢ A⊥, A");
}

#[test]
fn a_tree_is_written_in_plain_characters() {
    let expected = [
        "    |- A^, A",
        "  --------------------  BottomIntro",
        "  |- A^, A, bot",
        "  |- B^, B",
        "--------------------  TensorIntro",
        "|- A^, B^, (A * B)",
    ]
    .join("\n");
    assert_eq!(render_ascii(&sample()), expected);
    assert_eq!(TreeRenderer::new().render(&sample()), expected);
    assert_eq!(TreeRenderer::default().render(&sample()), expected);
}

#[test]
fn a_tree_is_written_with_symbols() {
    let expected = [
        "    ⊢ A⊥, A",
        "  ────────────────────  BottomIntro",
        "  ⊢ A⊥, A, ⊥",
        "  ⊢ B⊥, B",
        "────────────────────  TensorIntro",
        "⊢ A⊥, B⊥, (A ⊗ B)",
    ]
    .join("\n");
    assert_eq!(render_unicode(&sample()), expected);
}

#[test]
fn the_rule_is_as_long_as_a_long_conclusion() {
    let long = Formula::tensor(
        Formula::atom("Alpha"),
        Formula::tensor(Formula::atom("Beta"), Formula::neg_atom("Gamma")),
    );
    let proof = node(vec![long], Rule::Blur, vec![leaf("A")]);
    let expected = [
        "  ⊢ A⊥, A".to_string(),
        format!("{}  Blur", "─".repeat(25)),
        "⊢ (Alpha ⊗ (Beta ⊗ Gamma⊥))".to_string(),
    ]
    .join("\n");
    assert_eq!(render_unicode(&proof), expected);
}
