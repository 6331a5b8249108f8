use lolli::{is_normal, normalize, normalize_bounded, step, Term};

#[test]
fn test_beta_reduction() {
    let t = Term::App(
        Box::new(Term::Abs(
            "x".to_string(),
            Box::new(Term::Var("x".to_string())),
        )),
        Box::new(Term::Unit),
    );

    let result = normalize(&t);
    assert_eq!(result, Term::Unit);
}

#[test]
fn test_let_pair_reduction() {
    let t = Term::LetPair(
        "x".to_string(),
        "y".to_string(),
        Box::new(Term::Pair(Box::new(Term::Unit), Box::new(Term::Trivial))),
        Box::new(Term::Var("x".to_string())),
    );

    let result = normalize(&t);
    assert_eq!(result, Term::Unit);
}

#[test]
fn test_case_inl_reduction() {
    let t = Term::Case(
        Box::new(Term::Inl(Box::new(Term::Unit))),
        "x".to_string(),
        Box::new(Term::Var("x".to_string())),
        "y".to_string(),
        Box::new(Term::Var("y".to_string())),
    );

    let result = normalize(&t);
    assert_eq!(result, Term::Unit);
}

#[test]
fn test_case_inr_reduction() {
    let t = Term::Case(
        Box::new(Term::Inr(Box::new(Term::Trivial))),
        "x".to_string(),
        Box::new(Term::Var("x".to_string())),
        "y".to_string(),
        Box::new(Term::Var("y".to_string())),
    );

    let result = normalize(&t);
    assert_eq!(result, Term::Trivial);
}

#[test]
fn test_fst_reduction() {
    let t = Term::Fst(Box::new(Term::Pair(
        Box::new(Term::Unit),
        Box::new(Term::Trivial),
    )));

    let result = normalize(&t);
    assert_eq!(result, Term::Unit);
}

#[test]
fn test_snd_reduction() {
    let t = Term::Snd(Box::new(Term::Pair(
        Box::new(Term::Unit),
        Box::new(Term::Trivial),
    )));

    let result = normalize(&t);
    assert_eq!(result, Term::Trivial);
}

#[test]
fn test_dereliction_reduction() {
    let t = Term::Derelict(Box::new(Term::Promote(Box::new(Term::Unit))));

    let result = normalize(&t);
    assert_eq!(result, Term::Unit);
}

#[test]
fn test_copy_reduction() {
    let t = Term::Copy(
        Box::new(Term::Promote(Box::new(Term::Unit))),
        "x".to_string(),
        "y".to_string(),
        Box::new(Term::Pair(
            Box::new(Term::Var("x".to_string())),
            Box::new(Term::Var("y".to_string())),
        )),
    );

    let result = normalize(&t);
    assert_eq!(
        result,
        Term::Pair(
            Box::new(Term::Promote(Box::new(Term::Unit))),
            Box::new(Term::Promote(Box::new(Term::Unit))),
        )
    );
}

#[test]
fn test_discard_reduction() {
    let t = Term::Discard(
        Box::new(Term::Promote(Box::new(Term::Unit))),
        Box::new(Term::Trivial),
    );

    let result = normalize(&t);
    assert_eq!(result, Term::Trivial);
}

#[test]
fn test_is_normal() {
    assert!(is_normal(&Term::Unit));
    assert!(is_normal(&Term::Var("x".to_string())));
    assert!(is_normal(&Term::Abs(
        "x".to_string(),
        Box::new(Term::Var("x".to_string()))
    )));

    let redex = Term::App(
        Box::new(Term::Abs(
            "x".to_string(),
            Box::new(Term::Var("x".to_string())),
        )),
        Box::new(Term::Unit),
    );
    assert!(!is_normal(&redex));
}

#[test]
fn test_nested_reduction() {
    let t = Term::App(
        Box::new(Term::Abs(
            "f".to_string(),
            Box::new(Term::App(
                Box::new(Term::Var("f".to_string())),
                Box::new(Term::Unit),
            )),
        )),
        Box::new(Term::Abs(
            "x".to_string(),
            Box::new(Term::Var("x".to_string())),
        )),
    );

    let result = normalize(&t);
    assert_eq!(result, Term::Unit);
}

#[test]
fn test_normalize_bounded() {
    let t = Term::App(
        Box::new(Term::Abs(
            "x".to_string(),
            Box::new(Term::Var("x".to_string())),
        )),
        Box::new(Term::Unit),
    );

    let result0 = normalize_bounded(&t, 0);
    assert_eq!(result0, t);

    let result_full = normalize_bounded(&t, 10);
    assert_eq!(result_full, Term::Unit);
}

fn var(name: &str) -> Term {
    Term::Var(name.to_string())
}

fn identity(name: &str) -> Term {
    Term::Abs(name.to_string(), Box::new(var(name)))
}

#[test]
fn step_returns_the_reduct_of_a_head_redex() {
    let t = Term::App(Box::new(identity("x")), Box::new(Term::Unit));
    assert_eq!(step(&t), Some(Term::Unit));
    assert_eq!(step(&Term::Unit), None);
}

#[test]
fn step_reduces_the_leftmost_subterm_first() {
    let redex = || Term::App(Box::new(identity("x")), Box::new(Term::Unit));
    let t = Term::Pair(Box::new(redex()), Box::new(redex()));
    assert_eq!(
        step(&t),
        Some(Term::Pair(Box::new(Term::Unit), Box::new(redex())))
    );
    let t = Term::Pair(Box::new(Term::Trivial), Box::new(redex()));
    assert_eq!(
        step(&t),
        Some(Term::Pair(Box::new(Term::Trivial), Box::new(Term::Unit)))
    );
}

#[test]
fn step_reduces_the_function_before_the_argument() {
    let redex = || Term::App(Box::new(identity("x")), Box::new(var("f")));
    let t = Term::App(Box::new(redex()), Box::new(redex()));
    assert_eq!(
        step(&t),
        Some(Term::App(Box::new(var("f")), Box::new(redex())))
    );
}

#[test]
fn step_leaves_case_branches_copy_bodies_and_aborts_alone() {
    let redex = || Term::App(Box::new(identity("x")), Box::new(Term::Unit));
    let case = Term::Case(
        Box::new(var("s")),
        "a".to_string(),
        Box::new(redex()),
        "b".to_string(),
        Box::new(redex()),
    );
    assert!(is_normal(&case));
    let copy = Term::Copy(
        Box::new(var("s")),
        "a".to_string(),
        "b".to_string(),
        Box::new(redex()),
    );
    assert!(is_normal(&copy));
    assert!(is_normal(&Term::Abort(Box::new(redex()))));
}

#[test]
fn step_reduces_inside_abstractions_injections_and_promotions() {
    let redex = || Term::App(Box::new(identity("x")), Box::new(Term::Unit));
    assert_eq!(
        step(&Term::Abs("z".to_string(), Box::new(redex()))),
        Some(Term::Abs("z".to_string(), Box::new(Term::Unit)))
    );
    assert_eq!(
        step(&Term::Inl(Box::new(redex()))),
        Some(Term::Inl(Box::new(Term::Unit)))
    );
    assert_eq!(
        step(&Term::Inr(Box::new(redex()))),
        Some(Term::Inr(Box::new(Term::Unit)))
    );
    assert_eq!(
        step(&Term::Promote(Box::new(redex()))),
        Some(Term::Promote(Box::new(Term::Unit)))
    );
}

#[test]
fn step_reduces_the_body_of_a_let_pair_and_of_a_discard_last() {
    let redex = || Term::App(Box::new(identity("x")), Box::new(Term::Unit));
    let t = Term::LetPair(
        "a".to_string(),
        "b".to_string(),
        Box::new(var("p")),
        Box::new(redex()),
    );
    assert_eq!(
        step(&t),
        Some(Term::LetPair(
            "a".to_string(),
            "b".to_string(),
            Box::new(var("p")),
            Box::new(Term::Unit),
        ))
    );
    let t = Term::Discard(Box::new(var("d")), Box::new(redex()));
    assert_eq!(
        step(&t),
        Some(Term::Discard(Box::new(var("d")), Box::new(Term::Unit)))
    );
}

#[test]
fn normalize_is_idempotent_on_examples() {
    let terms = vec![
        Term::App(Box::new(identity("x")), Box::new(Term::Unit)),
        Term::Fst(Box::new(Term::Pair(
            Box::new(Term::App(Box::new(identity("x")), Box::new(var("a")))),
            Box::new(Term::Trivial),
        ))),
        Term::Derelict(Box::new(Term::Promote(Box::new(Term::Snd(Box::new(
            Term::Pair(Box::new(Term::Unit), Box::new(var("b"))),
        )))))),
    ];
    for t in terms {
        let once = normalize(&t);
        assert!(is_normal(&once));
        assert_eq!(normalize(&once), once);
    }
}

#[test]
fn normalize_bounded_with_no_steps_returns_the_term() {
    let t = Term::Derelict(Box::new(Term::Promote(Box::new(Term::Unit))));
    assert_eq!(normalize_bounded(&t, 0), t);
    assert_eq!(normalize_bounded(&t, 1), Term::Unit);
}

#[test]
fn normalize_bounded_stops_on_a_term_that_reduces_to_itself() {
    let delta = || {
        Term::Abs(
            "x".to_string(),
            Box::new(Term::App(Box::new(var("x")), Box::new(var("x")))),
        )
    };
    let omega = Term::App(Box::new(delta()), Box::new(delta()));
    assert_eq!(normalize_bounded(&omega, 7), omega);
}

#[test]
fn normalize_bounded_counts_steps() {
    let inner = Term::App(Box::new(identity("x")), Box::new(Term::Unit));
    let t = Term::App(Box::new(identity("y")), Box::new(inner.clone()));
    assert_eq!(normalize_bounded(&t, 1), inner);
    assert_eq!(normalize_bounded(&t, 2), Term::Unit);
}

#[test]
fn substitute_respects_binders_of_the_same_name() {
    let t = Term::Pair(Box::new(var("x")), Box::new(identity("x")));
    assert_eq!(
        t.substitute("x", &Term::Unit),
        Term::Pair(Box::new(Term::Unit), Box::new(identity("x")))
    );
    let t = Term::LetPair(
        "x".to_string(),
        "y".to_string(),
        Box::new(var("x")),
        Box::new(var("x")),
    );
    assert_eq!(
        t.substitute("x", &Term::Trivial),
        Term::LetPair(
            "x".to_string(),
            "y".to_string(),
            Box::new(Term::Trivial),
            Box::new(var("x")),
        )
    );
    let t = Term::Case(
        Box::new(var("x")),
        "x".to_string(),
        Box::new(var("x")),
        "y".to_string(),
        Box::new(var("x")),
    );
    assert_eq!(
        t.substitute("x", &Term::Unit),
        Term::Case(
            Box::new(Term::Unit),
            "x".to_string(),
            Box::new(var("x")),
            "y".to_string(),
            Box::new(Term::Unit),
        )
    );
}

#[test]
fn term_pretty_writes_each_form() {
    assert_eq!(var("x").pretty(), "x");
    assert_eq!(identity("x").pretty(), "(λx. x)");
    assert_eq!(
        Term::App(Box::new(var("f")), Box::new(Term::Unit)).pretty(),
        "(f ())"
    );
    assert_eq!(Term::Trivial.pretty(), "⟨⟩");
    assert_eq!(
        Term::Pair(Box::new(var("a")), Box::new(var("b"))).pretty(),
        "(a, b)"
    );
    assert_eq!(
        Term::LetPair(
            "x".to_string(),
            "y".to_string(),
            Box::new(var("p")),
            Box::new(var("x")),
        )
        .pretty(),
        "let (x, y) = p in x"
    );
    assert_eq!(Term::Inl(Box::new(var("a"))).pretty(), "inl(a)");
    assert_eq!(Term::Inr(Box::new(var("a"))).pretty(), "inr(a)");
    assert_eq!(
        Term::Case(
            Box::new(var("s")),
            "x".to_string(),
            Box::new(var("x")),
            "y".to_string(),
            Box::new(var("y")),
        )
        .pretty(),
        "case s of { inl x => x | inr y => y }"
    );
    assert_eq!(Term::Promote(Box::new(var("a"))).pretty(), "!a");
    assert_eq!(Term::Derelict(Box::new(var("a"))).pretty(), "derelict(a)");
    assert_eq!(
        Term::Copy(
            Box::new(var("s")),
            "x".to_string(),
            "y".to_string(),
            Box::new(var("x")),
        )
        .pretty(),
        "copy s as (x, y) in x"
    );
    assert_eq!(
        Term::Discard(Box::new(var("d")), Box::new(var("b"))).pretty(),
        "discard d in b"
    );
    assert_eq!(Term::Abort(Box::new(var("a"))).pretty(), "abort(a)");
    assert_eq!(Term::Fst(Box::new(var("a"))).pretty(), "fst(a)");
    assert_eq!(Term::Snd(Box::new(var("a"))).pretty(), "snd(a)");
}

#[test]
fn a_linear_term_can_reduce_to_itself() {
    let delta = || {
        Term::Abs(
            "x".to_string(),
            Box::new(Term::Copy(
                Box::new(var("x")),
                "y".to_string(),
                "z".to_string(),
                Box::new(Term::App(
                    Box::new(Term::Derelict(Box::new(var("y")))),
                    Box::new(var("z")),
                )),
            )),
        )
    };
    let t = Term::App(Box::new(delta()), Box::new(Term::Promote(Box::new(delta()))));
    assert_ne!(normalize_bounded(&t, 1), t);
    assert_ne!(normalize_bounded(&t, 2), t);
    assert_eq!(normalize_bounded(&t, 3), t);
    assert_eq!(normalize_bounded(&t, 300), t);
    assert!(!is_normal(&normalize_bounded(&t, 1000)));
}
