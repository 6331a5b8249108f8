use lolli::Formula;

#[test]
fn test_negation_involutive() {
    let a = Formula::atom("A");
    assert_eq!(a.negate().negate(), a);

    let complex = Formula::tensor(Formula::atom("A"), Formula::atom("B"));
    assert_eq!(complex.negate().negate(), complex);

    let formulas = vec![
        Formula::One,
        Formula::Bottom,
        Formula::Top,
        Formula::Zero,
        Formula::of_course(Formula::atom("X")),
        Formula::why_not(Formula::atom("Y")),
        Formula::with(Formula::atom("A"), Formula::atom("B")),
        Formula::plus(Formula::atom("A"), Formula::atom("B")),
        Formula::par(Formula::atom("A"), Formula::atom("B")),
    ];

    for f in formulas {
        assert_eq!(f.negate().negate(), f, "Failed for: {:?}", f);
    }

    let lolli = Formula::lolli(Formula::atom("A"), Formula::atom("B"));
    let neg_lolli = lolli.negate();
    assert_eq!(
        neg_lolli,
        Formula::tensor(Formula::atom("A"), Formula::neg_atom("B"))
    );
}

#[test]
fn test_de_morgan() {
    let tensor = Formula::tensor(Formula::atom("A"), Formula::atom("B"));
    let expected = Formula::par(Formula::neg_atom("A"), Formula::neg_atom("B"));
    assert_eq!(tensor.negate(), expected);

    let par = Formula::par(Formula::atom("A"), Formula::atom("B"));
    let expected = Formula::tensor(Formula::neg_atom("A"), Formula::neg_atom("B"));
    assert_eq!(par.negate(), expected);

    let with = Formula::with(Formula::atom("A"), Formula::atom("B"));
    let expected = Formula::plus(Formula::neg_atom("A"), Formula::neg_atom("B"));
    assert_eq!(with.negate(), expected);

    let plus = Formula::plus(Formula::atom("A"), Formula::atom("B"));
    let expected = Formula::with(Formula::neg_atom("A"), Formula::neg_atom("B"));
    assert_eq!(plus.negate(), expected);

    assert_eq!(Formula::One.negate(), Formula::Bottom);
    assert_eq!(Formula::Bottom.negate(), Formula::One);
    assert_eq!(Formula::Top.negate(), Formula::Zero);
    assert_eq!(Formula::Zero.negate(), Formula::Top);

    let bang = Formula::of_course(Formula::atom("A"));
    let expected = Formula::why_not(Formula::neg_atom("A"));
    assert_eq!(bang.negate(), expected);

    let whynot = Formula::why_not(Formula::atom("A"));
    let expected = Formula::of_course(Formula::neg_atom("A"));
    assert_eq!(whynot.negate(), expected);
}

#[test]
fn test_polarity() {
    assert!(Formula::atom("A").is_positive());
    assert!(Formula::tensor(Formula::atom("A"), Formula::atom("B")).is_positive());
    assert!(Formula::One.is_positive());
    assert!(Formula::plus(Formula::atom("A"), Formula::atom("B")).is_positive());
    assert!(Formula::Zero.is_positive());
    assert!(Formula::of_course(Formula::atom("A")).is_positive());

    assert!(Formula::neg_atom("A").is_negative());
    assert!(Formula::par(Formula::atom("A"), Formula::atom("B")).is_negative());
    assert!(Formula::Bottom.is_negative());
    assert!(Formula::with(Formula::atom("A"), Formula::atom("B")).is_negative());
    assert!(Formula::Top.is_negative());
    assert!(Formula::why_not(Formula::atom("A")).is_negative());

    assert!(Formula::lolli(Formula::atom("A"), Formula::atom("B")).is_negative());
}

#[test]
fn test_desugar() {
    let lolli = Formula::lolli(Formula::atom("A"), Formula::atom("B"));
    let desugared = lolli.desugar();
    let expected = Formula::par(Formula::neg_atom("A"), Formula::atom("B"));
    assert_eq!(desugared, expected);

    let nested = Formula::lolli(
        Formula::lolli(Formula::atom("A"), Formula::atom("B")),
        Formula::atom("C"),
    );
    let desugared = nested.desugar();
    let expected = Formula::par(
        Formula::tensor(Formula::atom("A"), Formula::neg_atom("B")),
        Formula::atom("C"),
    );
    assert_eq!(desugared, expected);
}

#[test]
fn formula_test_pretty_print() {
    let f = Formula::lolli(Formula::atom("A"), Formula::atom("B"));
    assert_eq!(f.pretty(), "(A ⊸ B)");
    assert_eq!(f.pretty_ascii(), "(A -o B)");
    assert_eq!(f.pretty_latex(), "(A \\multimap B)");

    let f = Formula::tensor(
        Formula::of_course(Formula::atom("A")),
        Formula::why_not(Formula::atom("B")),
    );
    assert_eq!(f.pretty(), "(!A ⊗ ?B)");
    assert_eq!(f.pretty_ascii(), "(!A * ?B)");
}

#[test]
fn test_units() {
    assert_eq!(Formula::One.pretty(), "1");
    assert_eq!(Formula::Bottom.pretty(), "⊥");
    assert_eq!(Formula::Top.pretty(), "⊤");
    assert_eq!(Formula::Zero.pretty(), "0");

    assert_eq!(Formula::One.pretty_ascii(), "1");
    assert_eq!(Formula::Bottom.pretty_ascii(), "bot");
    assert_eq!(Formula::Top.pretty_ascii(), "top");
    assert_eq!(Formula::Zero.pretty_ascii(), "0");
}

#[test]
fn pretty_writes_every_connective_in_each_notation() {
    let a = || Formula::atom("A");
    let b = || Formula::atom("B");
    assert_eq!(Formula::neg_atom("A").pretty(), "A⊥");
    assert_eq!(Formula::neg_atom("A").pretty_ascii(), "A^");
    assert_eq!(Formula::neg_atom("A").pretty_latex(), "A^{\\bot}");
    assert_eq!(Formula::par(a(), b()).pretty(), "(A ⅋ B)");
    assert_eq!(Formula::par(a(), b()).pretty_ascii(), "(A | B)");
    assert_eq!(Formula::par(a(), b()).pretty_latex(), "(A \\parr B)");
    assert_eq!(Formula::tensor(a(), b()).pretty_latex(), "(A \\otimes B)");
    assert_eq!(Formula::with(a(), b()).pretty(), "(A & B)");
    assert_eq!(Formula::with(a(), b()).pretty_latex(), "(A \\with B)");
    assert_eq!(Formula::plus(a(), b()).pretty(), "(A ⊕ B)");
    assert_eq!(Formula::plus(a(), b()).pretty_ascii(), "(A + B)");
    assert_eq!(Formula::plus(a(), b()).pretty_latex(), "(A \\oplus B)");
    assert_eq!(Formula::of_course(a()).pretty_latex(), "{!}A");
    assert_eq!(Formula::why_not(a()).pretty_latex(), "{?}A");
    assert_eq!(Formula::One.pretty_latex(), "\\mathbf{1}");
    assert_eq!(Formula::Bottom.pretty_latex(), "\\bot");
    assert_eq!(Formula::Top.pretty_latex(), "\\top");
    assert_eq!(Formula::Zero.pretty_latex(), "\\mathbf{0}");
}

#[test]
fn double_negation_changes_a_linear_implication() {
    let lolli = Formula::lolli(Formula::atom("A"), Formula::atom("B"));
    assert_eq!(
        lolli.negate().negate(),
        Formula::par(Formula::neg_atom("A"), Formula::atom("B"))
    );
    assert_ne!(lolli.negate().negate(), lolli);
}

#[test]
fn clone_keeps_the_formula() {
    let f = Formula::lolli(
        Formula::of_course(Formula::atom("A")),
        Formula::with(Formula::Top, Formula::neg_atom("B")),
    );
    assert_eq!(f.clone(), f);
}
