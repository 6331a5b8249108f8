use lolli::{parse_formula, parse_sequent, Formula, ParseError};

#[test]
fn test_parse_atoms() {
    let f = parse_formula("A").unwrap();
    assert_eq!(f, Formula::atom("A"));

    let f = parse_formula("foo").unwrap();
    assert_eq!(f, Formula::atom("foo"));

    let f = parse_formula("FileHandle").unwrap();
    assert_eq!(f, Formula::atom("FileHandle"));
}

#[test]
fn test_parse_units() {
    assert_eq!(parse_formula("1").unwrap(), Formula::One);
    assert_eq!(parse_formula("one").unwrap(), Formula::One);
    assert_eq!(parse_formula("bot").unwrap(), Formula::Bottom);
    assert_eq!(parse_formula("bottom").unwrap(), Formula::Bottom);
    assert_eq!(parse_formula("top").unwrap(), Formula::Top);
    assert_eq!(parse_formula("0").unwrap(), Formula::Zero);
    assert_eq!(parse_formula("zero").unwrap(), Formula::Zero);
}

#[test]
fn test_parse_negation() {
    let f = parse_formula("A^").unwrap();
    assert_eq!(f, Formula::neg_atom("A"));

    let f = parse_formula("A⊥").unwrap();
    assert_eq!(f, Formula::neg_atom("A"));
}

#[test]
fn test_parse_unary() {
    let f = parse_formula("!A").unwrap();
    assert_eq!(f, Formula::of_course(Formula::atom("A")));

    let f = parse_formula("?A").unwrap();
    assert_eq!(f, Formula::why_not(Formula::atom("A")));

    let f = parse_formula("!!A").unwrap();
    assert_eq!(
        f,
        Formula::of_course(Formula::of_course(Formula::atom("A")))
    );
}

#[test]
fn test_parse_lolli() {
    let f = parse_formula("A -o B").unwrap();
    assert_eq!(f, Formula::lolli(Formula::atom("A"), Formula::atom("B")));

    let f = parse_formula("A -o B -o C").unwrap();
    assert_eq!(
        f,
        Formula::lolli(
            Formula::atom("A"),
            Formula::lolli(Formula::atom("B"), Formula::atom("C"))
        )
    );
}

#[test]
fn test_parse_tensor() {
    let f = parse_formula("A * B").unwrap();
    assert_eq!(f, Formula::tensor(Formula::atom("A"), Formula::atom("B")));

    let f = parse_formula("A * B * C").unwrap();
    assert_eq!(
        f,
        Formula::tensor(
            Formula::tensor(Formula::atom("A"), Formula::atom("B")),
            Formula::atom("C")
        )
    );
}

#[test]
fn test_parse_plus() {
    let f = parse_formula("A + B").unwrap();
    assert_eq!(f, Formula::plus(Formula::atom("A"), Formula::atom("B")));
}

#[test]
fn test_parse_with() {
    let f = parse_formula("A & B").unwrap();
    assert_eq!(f, Formula::with(Formula::atom("A"), Formula::atom("B")));
}

#[test]
fn test_parse_parentheses() {
    let f = parse_formula("(A -o B)").unwrap();
    assert_eq!(f, Formula::lolli(Formula::atom("A"), Formula::atom("B")));

    let f = parse_formula("(A + B) * C").unwrap();
    assert_eq!(
        f,
        Formula::tensor(
            Formula::plus(Formula::atom("A"), Formula::atom("B")),
            Formula::atom("C")
        )
    );
}

#[test]
fn test_parse_precedence() {
    let f = parse_formula("A * B -o C").unwrap();
    assert_eq!(
        f,
        Formula::lolli(
            Formula::tensor(Formula::atom("A"), Formula::atom("B")),
            Formula::atom("C")
        )
    );

    let f = parse_formula("A + B * C").unwrap();
    assert_eq!(
        f,
        Formula::tensor(
            Formula::plus(Formula::atom("A"), Formula::atom("B")),
            Formula::atom("C")
        )
    );

    let f = parse_formula("A & B + C").unwrap();
    assert_eq!(
        f,
        Formula::plus(
            Formula::with(Formula::atom("A"), Formula::atom("B")),
            Formula::atom("C")
        )
    );
}

#[test]
fn test_parse_complex() {
    let f = parse_formula("!A * B -o ?C + D").unwrap();
    assert_eq!(
        f,
        Formula::lolli(
            Formula::tensor(
                Formula::of_course(Formula::atom("A")),
                Formula::atom("B")
            ),
            Formula::plus(Formula::why_not(Formula::atom("C")), Formula::atom("D"))
        )
    );
}

#[test]
fn test_parse_sequent() {
    let s = parse_sequent("A, B |- C").unwrap();
    assert_eq!(s.antecedent.len(), 2);
    assert_eq!(s.succedent.len(), 1);
    assert_eq!(s.antecedent[0], Formula::atom("A"));
    assert_eq!(s.antecedent[1], Formula::atom("B"));
    assert_eq!(s.succedent[0], Formula::atom("C"));
}

#[test]
fn test_parse_sequent_one_sided() {
    let s = parse_sequent("|- A, B").unwrap();
    assert_eq!(s.antecedent.len(), 0);
    assert_eq!(s.succedent.len(), 2);
}

#[test]
fn test_parse_sequent_complex() {
    let s = parse_sequent("A * B, C -o D |- E + F").unwrap();
    assert_eq!(s.antecedent.len(), 2);
    assert_eq!(s.succedent.len(), 1);
}

#[test]
fn test_roundtrip() {
    let formulas = vec![
        "A",
        "A -o B",
        "A * B",
        "A + B",
        "A & B",
        "!A",
        "?A",
        "1",
        "bot",
        "top",
        "0",
        "A * B -o C",
        "!A * ?B -o C + D",
    ];

    for input in formulas {
        let f = parse_formula(input).unwrap();
        let _ = f.pretty();
    }
}

fn a() -> Formula {
    Formula::atom("A")
}

fn b() -> Formula {
    Formula::atom("B")
}

#[test]
fn unicode_signs_are_read_like_their_ascii_forms() {
    assert_eq!(parse_formula("A ⊗ B").unwrap(), Formula::tensor(a(), b()));
    assert_eq!(parse_formula("A ⅋ B").unwrap(), Formula::par(a(), b()));
    assert_eq!(parse_formula("A | B").unwrap(), Formula::par(a(), b()));
    assert_eq!(parse_formula("A ⊸ B").unwrap(), Formula::lolli(a(), b()));
    assert_eq!(parse_formula("A ⊕ B").unwrap(), Formula::plus(a(), b()));
    assert_eq!(parse_formula("⊤").unwrap(), Formula::Top);
    assert_eq!(parse_formula("⊥").unwrap(), Formula::Bottom);
    assert_eq!(parse_formula("⊥⊥").unwrap(), Formula::One);
    let s = parse_sequent("A ⊢ B").unwrap();
    assert_eq!(s.antecedent, vec![a()]);
    assert_eq!(s.succedent, vec![b()]);
}

#[test]
fn par_binds_tighter_than_implication_and_looser_than_tensor() {
    assert_eq!(
        parse_formula("A | B * A -o B").unwrap(),
        Formula::lolli(Formula::par(a(), Formula::tensor(b(), a())), b())
    );
}

#[test]
fn a_suffix_negates_the_whole_primary_formula() {
    assert_eq!(
        parse_formula("(A * B)^").unwrap(),
        Formula::par(Formula::neg_atom("A"), Formula::neg_atom("B"))
    );
    assert_eq!(parse_formula("1^").unwrap(), Formula::Bottom);
    assert_eq!(
        parse_formula("!A^").unwrap(),
        Formula::of_course(Formula::neg_atom("A"))
    );
    assert_eq!(
        parse_formula("A^^"),
        Err(ParseError::UnexpectedToken("^".to_string()))
    );
}

#[test]
fn words_are_read_as_long_as_they_can_be() {
    assert_eq!(parse_formula("oneself").unwrap(), Formula::atom("oneself"));
    assert_eq!(parse_formula("bottoms").unwrap(), Formula::atom("bottoms"));
    assert_eq!(parse_formula("top_1").unwrap(), Formula::atom("top_1"));
    assert_eq!(parse_formula("_x9").unwrap(), Formula::atom("_x9"));
    assert_eq!(parse_formula("A1").unwrap(), Formula::atom("A1"));
    assert_eq!(
        parse_formula("1A"),
        Err(ParseError::UnexpectedToken("A".to_string()))
    );
}

#[test]
fn blanks_separate_tokens_and_are_not_needed() {
    assert_eq!(
        parse_formula("  A*B\t-o\nC\r ").unwrap(),
        Formula::lolli(Formula::tensor(a(), b()), Formula::atom("C"))
    );
    assert_eq!(parse_formula("A-oB").unwrap(), Formula::lolli(a(), b()));
}

#[test]
fn formulas_print_in_ascii_as_they_are_read() {
    let formulas = vec![
        Formula::lolli(a(), Formula::lolli(b(), a())),
        Formula::lolli(Formula::lolli(a(), b()), a()),
        Formula::tensor(a(), Formula::tensor(b(), a())),
        Formula::with(Formula::plus(a(), b()), Formula::par(a(), Formula::neg_atom("B"))),
        Formula::of_course(Formula::why_not(Formula::tensor(Formula::One, Formula::Zero))),
        Formula::plus(Formula::Top, Formula::Bottom),
    ];
    for f in formulas {
        assert_eq!(parse_formula(&f.pretty_ascii()).unwrap(), f);
        assert_eq!(parse_formula(&f.pretty()).unwrap(), f);
    }
}

#[test]
fn a_text_without_tokens_is_empty_input() {
    assert_eq!(parse_formula(""), Err(ParseError::EmptyInput));
    assert_eq!(parse_formula(" \t\n"), Err(ParseError::EmptyInput));
    assert_eq!(parse_sequent(""), Err(ParseError::EmptyInput));
}

#[test]
fn a_character_that_starts_no_token_is_an_unknown_operator() {
    assert_eq!(
        parse_formula("A # B"),
        Err(ParseError::UnknownOperator("#".to_string()))
    );
    assert_eq!(
        parse_formula("A - B"),
        Err(ParseError::UnknownOperator("-".to_string()))
    );
    assert_eq!(
        parse_formula("A × B ("),
        Err(ParseError::UnknownOperator("×".to_string()))
    );
    assert_eq!(
        parse_sequent("A |- 2"),
        Err(ParseError::UnknownOperator("2".to_string()))
    );
}

#[test]
fn a_token_out_of_place_is_unexpected() {
    assert_eq!(
        parse_formula("A B"),
        Err(ParseError::UnexpectedToken("B".to_string()))
    );
    assert_eq!(
        parse_formula("* A"),
        Err(ParseError::UnexpectedToken("*".to_string()))
    );
    assert_eq!(
        parse_formula("A )"),
        Err(ParseError::UnexpectedToken(")".to_string()))
    );
    assert_eq!(
        parse_formula("(A , B)"),
        Err(ParseError::UnexpectedToken(",".to_string()))
    );
    assert_eq!(
        parse_formula("A |- B"),
        Err(ParseError::UnexpectedToken("|-".to_string()))
    );
    assert_eq!(
        parse_sequent("A |- B |- C"),
        Err(ParseError::UnexpectedToken("|-".to_string()))
    );
    assert_eq!(
        parse_sequent("A, |- B"),
        Err(ParseError::UnexpectedToken("|-".to_string()))
    );
}

#[test]
fn a_text_that_ends_too_soon_is_an_unexpected_end() {
    assert_eq!(parse_formula("A *"), Err(ParseError::UnexpectedEnd));
    assert_eq!(parse_formula("(A"), Err(ParseError::UnexpectedEnd));
    assert_eq!(parse_formula("!"), Err(ParseError::UnexpectedEnd));
    assert_eq!(parse_formula("A -o"), Err(ParseError::UnexpectedEnd));
    assert_eq!(parse_sequent("A, B"), Err(ParseError::UnexpectedEnd));
    assert_eq!(parse_sequent("A |- B,"), Err(ParseError::UnexpectedEnd));
}

#[test]
fn a_sequent_may_lack_either_side() {
    let s = parse_sequent("|-").unwrap();
    assert!(s.antecedent.is_empty());
    assert!(s.succedent.is_empty());
    let s = parse_sequent("A, B |-").unwrap();
    assert_eq!(s.antecedent, vec![a(), b()]);
    assert!(s.succedent.is_empty());
}

#[test]
fn a_parsed_sequent_converts_to_one_side() {
    let s = parse_sequent("A, B -o A |- B").unwrap();
    assert_eq!(s.pretty(), "A, (B ⊸ A) ⊢ B");
    let one_sided = s.to_one_sided();
    assert_eq!(
        one_sided.linear,
        vec![
            Formula::neg_atom("A"),
            Formula::tensor(b(), Formula::neg_atom("A")),
            b()
        ]
    );
    assert_eq!(one_sided.pretty(), "A⊥, (B ⊗ A⊥), B");
}

#[test]
fn parse_errors_have_messages() {
    assert_eq!(
        ParseError::UnexpectedToken(")".to_string()).message(),
        "Unexpected token: )"
    );
    assert_eq!(
        ParseError::UnknownOperator("#".to_string()).message(),
        "Unknown operator: #"
    );
    assert_eq!(ParseError::UnexpectedEnd.message(), "Unexpected end of input");
    assert_eq!(ParseError::EmptyInput.message(), "Empty input");
}
