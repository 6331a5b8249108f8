//! Extraction of terms from proof trees, by the Curry-Howard correspondence.

use crate::counter::{decimal, lemma_decimal_injective, Counter};
use crate::derivation::{cut_free, Proof, Rule, SpecProof, SpecRule};
use crate::formula::{Formula, SpecFormula};
use crate::normalize::{lemma_steady_normalizes, normal, normal_form, normalize, size, steady};
use crate::term::{SpecTerm, Term};
use crate::text::{lowercase, lowercase_of};
use vstd::prelude::*;
use vstd::string::*;

verus! {

/// The name that the counter value `n` gives to a fresh variable.
pub open spec fn fresh_name(n: nat) -> Seq<char> {
    "x"@ + decimal(n)
}

/// The name that the counter value `n` gives to a variable for a formula: for
/// an atom or a negated atom the lowercase of its name and the counter, for
/// another formula a fresh name.
pub open spec fn formula_name(f: SpecFormula, n: nat) -> Seq<char> {
    match f {
        SpecFormula::Atom(a) => lowercase_of(a) + decimal(n),
        SpecFormula::NegAtom(a) => lowercase_of(a) + decimal(n),
        _ => fresh_name(n),
    }
}

/// The model of an environment: formulas paired with variable names, oldest
/// first.
pub open spec fn env_model(v: Seq<(Formula, String)>) -> Seq<(SpecFormula, Seq<char>)> {
    Seq::new(v.len(), |i: int| (v[i].0@, v[i].1@))
}

/// The variable of the first entry from `from` on that is bound to `target`.
pub open spec fn first_bound(
    env: Seq<(SpecFormula, Seq<char>)>,
    target: SpecFormula,
    from: nat,
) -> Option<Seq<char>>
    decreases env.len() - from,
{
    if from >= env.len() {
        None
    } else if env[from as int].0 == target {
        Some(env[from as int].1)
    } else {
        first_bound(env, target, from + 1)
    }
}

/// The variable that an axiom resolves to, scanning its conclusion from index
/// `from`. An atom resolves to the variable bound to its negation, or else to
/// the lowercase of its own name. A negated atom resolves to the variable
/// bound to its atom, or else the scan goes on. Other formulas are passed
/// over. `None` where the scan ends without a variable.
pub open spec fn axiom_variable(
    conclusion: Seq<SpecFormula>,
    env: Seq<(SpecFormula, Seq<char>)>,
    from: nat,
) -> Option<Seq<char>>
    decreases conclusion.len() - from,
{
    if from >= conclusion.len() {
        None
    } else {
        match conclusion[from as int] {
            SpecFormula::Atom(name) => match first_bound(env, SpecFormula::NegAtom(name), 0) {
                Some(v) => Some(v),
                None => Some(lowercase_of(name)),
            },
            SpecFormula::NegAtom(name) => match first_bound(env, SpecFormula::Atom(name), 0) {
                Some(v) => Some(v),
                None => axiom_variable(conclusion, env, from + 1),
            },
            _ => axiom_variable(conclusion, env, from + 1),
        }
    }
}

/// The term of an axiom and the counter after it: the variable that the axiom
/// resolves to, or else the identity function on a fresh variable.
pub open spec fn axiom_term(
    conclusion: Seq<SpecFormula>,
    n: nat,
    env: Seq<(SpecFormula, Seq<char>)>,
) -> (SpecTerm, nat) {
    match axiom_variable(conclusion, env, 0) {
        Some(v) => (SpecTerm::Var(v), n),
        None => (SpecTerm::Abs(fresh_name(n), Box::new(SpecTerm::Var(fresh_name(n)))), n + 1),
    }
}

/// The term extracted from a proof tree and the counter after the extraction,
/// from the counter `n` and the environment `env`.
///
/// One-introduction gives the unit and top-introduction the trivial value.
/// Tensor and with give the pair of their two premises. The two
/// plus-introductions give the injections, promotion a promoted term and
/// dereliction a derelicted one. Weakening discards the unit, contraction
/// copies a fresh variable into two fresh names. Bottom, par and why-not
/// introduction and the bookkeeping rules pass their premise through. A cut
/// names its formula, extracts the producer from the first premise and the
/// consumer from the second, with the name bound, and gives a let-pair for a
/// tensor, a case with the consumer in both branches for a plus, and the
/// consumer applied to the producer otherwise. A node with too few premises
/// gives the unit, wrapped as its rule wraps the premise; a with-introduction
/// without premises gives the trivial value.
pub open spec fn extraction(p: SpecProof, n: nat, env: Seq<(SpecFormula, Seq<char>)>) -> (
    SpecTerm,
    nat,
)
    decreases p,
{
    let len = p.premises.len();
    match p.rule {
        SpecRule::Axiom => axiom_term(p.conclusion, n, env),
        SpecRule::OneIntro => (SpecTerm::Unit, n),
        SpecRule::TopIntro => (SpecTerm::Trivial, n),
        SpecRule::TensorIntro | SpecRule::WithIntro => if len == 2 {
            let (left, n1) = extraction(p.premises[0], n, env);
            let (right, n2) = extraction(p.premises[1], n1, env);
            (SpecTerm::Pair(Box::new(left), Box::new(right)), n2)
        } else if len == 1 {
            extraction(p.premises[0], n, env)
        } else if p.rule is TensorIntro {
            (SpecTerm::Unit, n)
        } else {
            (SpecTerm::Trivial, n)
        },
        SpecRule::PlusIntroLeft => if len > 0 {
            let (inner, n1) = extraction(p.premises[0], n, env);
            (SpecTerm::Inl(Box::new(inner)), n1)
        } else {
            (SpecTerm::Inl(Box::new(SpecTerm::Unit)), n)
        },
        SpecRule::PlusIntroRight => if len > 0 {
            let (inner, n1) = extraction(p.premises[0], n, env);
            (SpecTerm::Inr(Box::new(inner)), n1)
        } else {
            (SpecTerm::Inr(Box::new(SpecTerm::Unit)), n)
        },
        SpecRule::OfCourseIntro => if len > 0 {
            let (inner, n1) = extraction(p.premises[0], n, env);
            (SpecTerm::Promote(Box::new(inner)), n1)
        } else {
            (SpecTerm::Promote(Box::new(SpecTerm::Unit)), n)
        },
        SpecRule::Dereliction => if len > 0 {
            let (inner, n1) = extraction(p.premises[0], n, env);
            (SpecTerm::Derelict(Box::new(inner)), n1)
        } else {
            (SpecTerm::Derelict(Box::new(SpecTerm::Unit)), n)
        },
        SpecRule::Weakening => if len > 0 {
            let (body, n1) = extraction(p.premises[0], n, env);
            (SpecTerm::Discard(Box::new(SpecTerm::Unit), Box::new(body)), n1)
        } else {
            (SpecTerm::Unit, n)
        },
        SpecRule::Contraction => if len > 0 {
            let (body, n1) = extraction(p.premises[0], n + 3, env);
            (
                SpecTerm::Copy(
                    Box::new(SpecTerm::Var(fresh_name(n + 2))),
                    fresh_name(n),
                    fresh_name(n + 1),
                    Box::new(body),
                ),
                n1,
            )
        } else {
            (SpecTerm::Unit, n)
        },
        SpecRule::Cut(f) => if len == 2 {
            let (producer, n1) = extraction(p.premises[0], n + 1, env);
            let (consumer, n2) = extraction(
                p.premises[1],
                n1,
                env.push((f, formula_name(f, n))),
            );
            match f {
                SpecFormula::Tensor(_, _) => (
                    SpecTerm::LetPair(
                        fresh_name(n2),
                        fresh_name(n2 + 1),
                        Box::new(producer),
                        Box::new(consumer),
                    ),
                    n2 + 2,
                ),
                SpecFormula::Plus(_, _) => (
                    SpecTerm::Case(
                        Box::new(producer),
                        fresh_name(n2),
                        Box::new(consumer),
                        fresh_name(n2 + 1),
                        Box::new(consumer),
                    ),
                    n2 + 2,
                ),
                _ => (SpecTerm::App(Box::new(consumer), Box::new(producer)), n2),
            }
        } else {
            (SpecTerm::Unit, n)
        },
        _ => if len > 0 {
            extraction(p.premises[0], n, env)
        } else {
            (SpecTerm::Unit, n)
        },
    }
}

/// Extracts terms from proof trees. Holds the counter from which fresh variable
/// names are made.
#[derive(Debug)]
pub struct Extractor {
    var_counter: Counter,
}

impl Default for Extractor {
    fn default() -> (r: Extractor)
        ensures
            r.count() == 0,
    {
        Extractor::new()
    }
}

impl Extractor {
    /// The number of names made so far.
    pub closed spec fn count(&self) -> nat {
        self.var_counter.value()
    }

    /// Creates an extractor that has made no name yet.
    pub fn new() -> (r: Extractor)
        ensures
            r.count() == 0,
    {
        Extractor { var_counter: Counter::new() }
    }

    /// Makes a fresh variable name.
    pub fn fresh_var(&mut self) -> (r: String)
        ensures
            r@ == fresh_name(old(self).count()),
            final(self).count() == old(self).count() + 1,
    {
        let mut v = String::from_str("x");
        v.append(self.var_counter.text().as_str());
        self.var_counter.increment();
        v
    }

    /// Makes a variable name for a formula.
    pub fn var_for_formula(&mut self, formula: &Formula) -> (r: String)
        ensures
            r@ == formula_name(formula@, old(self).count()),
            final(self).count() == old(self).count() + 1,
    {
        match formula {
            Formula::Atom(name) => self.named_var(name),
            Formula::NegAtom(name) => self.named_var(name),
            _ => self.fresh_var(),
        }
    }

    fn named_var(&mut self, name: &String) -> (r: String)
        ensures
            r@ == lowercase_of(name@) + decimal(old(self).count()),
            final(self).count() == old(self).count() + 1,
    {
        let mut v = lowercase(name.as_str());
        v.append(self.var_counter.text().as_str());
        self.var_counter.increment();
        v
    }

    /// Extracts the term of a proof tree, in the empty environment.
    pub fn extract(&mut self, p: &Proof) -> (r: Term)
        ensures
            (r@, final(self).count()) == extraction(p@, old(self).count(), Seq::empty()),
    {
        let mut vars: Vec<(Formula, String)> = Vec::new();
        assert(env_model(vars@) == Seq::<(SpecFormula, Seq<char>)>::empty());
        self.extract_with_env(p, &mut vars)
    }

    /// Extracts the term of a proof tree in an environment, which is the same
    /// after the call as before.
    pub fn extract_with_env(&mut self, p: &Proof, vars: &mut Vec<(Formula, String)>) -> (r: Term)
        ensures
            (r@, final(self).count()) == extraction(
                p@,
                old(self).count(),
                env_model(old(vars)@),
            ),
            final(vars)@ == old(vars)@,
        decreases p, 1nat,
    {
        proof {
            p.lemma_model();
            reveal_with_fuel(Term::model, 3);
        }
        match &p.rule {
            Rule::Axiom => self.extract_axiom(p, vars),
            Rule::OneIntro => Term::Unit,
            Rule::TopIntro => Term::Trivial,
            Rule::BottomIntro => self.extract_through(p, vars),
            Rule::TensorIntro => self.extract_tensor(p, vars),
            Rule::ParIntro => self.extract_through(p, vars),
            Rule::WithIntro => self.extract_with(p, vars),
            Rule::PlusIntroLeft => {
                if p.premises.len() > 0 {
                    let inner = self.extract_with_env(&p.premises[0], vars);
                    Term::Inl(Box::new(inner))
                } else {
                    Term::Inl(Box::new(Term::Unit))
                }
            },
            Rule::PlusIntroRight => {
                if p.premises.len() > 0 {
                    let inner = self.extract_with_env(&p.premises[0], vars);
                    Term::Inr(Box::new(inner))
                } else {
                    Term::Inr(Box::new(Term::Unit))
                }
            },
            Rule::OfCourseIntro => {
                if p.premises.len() > 0 {
                    let inner = self.extract_with_env(&p.premises[0], vars);
                    Term::Promote(Box::new(inner))
                } else {
                    Term::Promote(Box::new(Term::Unit))
                }
            },
            Rule::WhyNotIntro => self.extract_through(p, vars),
            Rule::Weakening => {
                if p.premises.len() > 0 {
                    let body = self.extract_with_env(&p.premises[0], vars);
                    Term::Discard(Box::new(Term::Unit), Box::new(body))
                } else {
                    Term::Unit
                }
            },
            Rule::Contraction => {
                if p.premises.len() > 0 {
                    let x = self.fresh_var();
                    let y = self.fresh_var();
                    let src = Term::Var(self.fresh_var());
                    let body = self.extract_with_env(&p.premises[0], vars);
                    Term::Copy(Box::new(src), x, y, Box::new(body))
                } else {
                    Term::Unit
                }
            },
            Rule::Dereliction => {
                if p.premises.len() > 0 {
                    let inner = self.extract_with_env(&p.premises[0], vars);
                    Term::Derelict(Box::new(inner))
                } else {
                    Term::Derelict(Box::new(Term::Unit))
                }
            },
            Rule::Cut(formula) => self.extract_cut(p, formula, vars),
            Rule::FocusPositive(_) => self.extract_through(p, vars),
            Rule::FocusNegative(_) => self.extract_through(p, vars),
            Rule::Blur => self.extract_through(p, vars),
        }
    }

    /// Extracts the term of the first premise, or the unit where there is none.
    fn extract_through(&mut self, p: &Proof, vars: &mut Vec<(Formula, String)>) -> (r: Term)
        requires
            !(p@.rule is Axiom || p@.rule is OneIntro || p@.rule is TopIntro || p@.rule
                is TensorIntro || p@.rule is WithIntro || p@.rule is PlusIntroLeft || p@.rule
                is PlusIntroRight || p@.rule is OfCourseIntro || p@.rule is Dereliction
                || p@.rule is Weakening || p@.rule is Contraction || p@.rule is Cut),
        ensures
            (r@, final(self).count()) == extraction(
                p@,
                old(self).count(),
                env_model(old(vars)@),
            ),
            final(vars)@ == old(vars)@,
        decreases p, 0nat,
    {
        proof {
            p.lemma_model();
            reveal_with_fuel(Term::model, 3);
        }
        if p.premises.len() > 0 {
            self.extract_with_env(&p.premises[0], vars)
        } else {
            Term::Unit
        }
    }

    /// Extracts the term of an axiom.
    pub fn extract_axiom(&mut self, p: &Proof, vars: &Vec<(Formula, String)>) -> (r: Term)
        ensures
            (r@, final(self).count()) == axiom_term(
                p@.conclusion,
                old(self).count(),
                env_model(vars@),
            ),
    {
        proof {
            p.lemma_model();
            reveal_with_fuel(Term::model, 3);
        }
        let formulas = &p.conclusion.linear;
        let ghost env = env_model(vars@);
        let mut i: usize = 0;
        while i < formulas.len()
            invariant
                i <= formulas.len(),
                formulas == &p.conclusion.linear,
                env == env_model(vars@),
                axiom_variable(p@.conclusion, env, i as nat) == axiom_variable(
                    p@.conclusion,
                    env,
                    0,
                ),
            decreases formulas.len() - i,
        {
            assert(p@.conclusion[i as int] == formulas[i as int]@);
            match &formulas[i] {
                Formula::Atom(name) => {
                    match find_bound(vars, name, true) {
                        Some(k) => {
                            return Term::Var(vars[k].1.clone());
                        },
                        None => {
                            return Term::Var(lowercase(name.as_str()));
                        },
                    }
                },
                Formula::NegAtom(name) => {
                    match find_bound(vars, name, false) {
                        Some(k) => {
                            return Term::Var(vars[k].1.clone());
                        },
                        None => {},
                    }
                },
                _ => {},
            }
            i = i + 1;
        }
        let var = self.fresh_var();
        Term::Abs(var.clone(), Box::new(Term::Var(var)))
    }

    /// Extracts the term of a tensor-introduction.
    pub fn extract_tensor(&mut self, p: &Proof, vars: &mut Vec<(Formula, String)>) -> (r: Term)
        requires
            p@.rule is TensorIntro,
        ensures
            (r@, final(self).count()) == extraction(
                p@,
                old(self).count(),
                env_model(old(vars)@),
            ),
            final(vars)@ == old(vars)@,
        decreases p, 0nat,
    {
        proof {
            p.lemma_model();
            reveal_with_fuel(Term::model, 3);
        }
        if p.premises.len() == 2 {
            let left = self.extract_with_env(&p.premises[0], vars);
            let right = self.extract_with_env(&p.premises[1], vars);
            Term::Pair(Box::new(left), Box::new(right))
        } else if p.premises.len() == 1 {
            self.extract_with_env(&p.premises[0], vars)
        } else {
            Term::Unit
        }
    }

    /// Extracts the term of a with-introduction.
    pub fn extract_with(&mut self, p: &Proof, vars: &mut Vec<(Formula, String)>) -> (r: Term)
        requires
            p@.rule is WithIntro,
        ensures
            (r@, final(self).count()) == extraction(
                p@,
                old(self).count(),
                env_model(old(vars)@),
            ),
            final(vars)@ == old(vars)@,
        decreases p, 0nat,
    {
        proof {
            p.lemma_model();
            reveal_with_fuel(Term::model, 3);
        }
        if p.premises.len() == 2 {
            let left = self.extract_with_env(&p.premises[0], vars);
            let right = self.extract_with_env(&p.premises[1], vars);
            Term::Pair(Box::new(left), Box::new(right))
        } else if p.premises.len() == 1 {
            self.extract_with_env(&p.premises[0], vars)
        } else {
            Term::Trivial
        }
    }

    /// Extracts the term of a cut on `cut_formula`.
    pub fn extract_cut(
        &mut self,
        p: &Proof,
        cut_formula: &Formula,
        vars: &mut Vec<(Formula, String)>,
    ) -> (r: Term)
        requires
            p@.rule == SpecRule::Cut(cut_formula@),
        ensures
            (r@, final(self).count()) == extraction(
                p@,
                old(self).count(),
                env_model(old(vars)@),
            ),
            final(vars)@ == old(vars)@,
        decreases p, 0nat,
    {
        proof {
            p.lemma_model();
            reveal_with_fuel(Term::model, 3);
        }
        if p.premises.len() != 2 {
            return Term::Unit;
        }
        let cut_var = self.var_for_formula(cut_formula);
        let producer = self.extract_with_env(&p.premises[0], vars);
        let ghost before = vars@;
        vars.push((cut_formula.clone(), cut_var));
        proof {
            assert(env_model(vars@) == env_model(before).push(
                (cut_formula@, formula_name(cut_formula@, old(self).count())),
            ));
        }
        let consumer = self.extract_with_env(&p.premises[1], vars);
        vars.pop();
        assert(vars@ == before);
        match cut_formula {
            Formula::Tensor(_, _) => {
                let x = self.fresh_var();
                let y = self.fresh_var();
                Term::LetPair(x, y, Box::new(producer), Box::new(consumer))
            },
            Formula::Plus(_, _) => {
                let x = self.fresh_var();
                let y = self.fresh_var();
                Term::Case(
                    Box::new(producer),
                    x,
                    Box::new(consumer.clone()),
                    y,
                    Box::new(consumer),
                )
            },
            _ => Term::App(Box::new(consumer), Box::new(producer)),
        }
    }
}

/// Whether the formula is the atom `name`, or its negated atom where `negated`
/// is set.
fn is_atom_named(f: &Formula, name: &String, negated: bool) -> (r: bool)
    ensures
        r == (f@ == if negated {
            SpecFormula::NegAtom(name@)
        } else {
            SpecFormula::Atom(name@)
        }),
{
    match f {
        Formula::Atom(other) => !negated && *other == *name,
        Formula::NegAtom(other) => negated && *other == *name,
        _ => false,
    }
}

/// Finds the first entry bound to the atom `name`, or to its negated atom where
/// `negated` is set.
fn find_bound(vars: &Vec<(Formula, String)>, name: &String, negated: bool) -> (r: Option<usize>)
    ensures
        match r {
            Some(k) => k < vars.len() && first_bound(
                env_model(vars@),
                if negated {
                    SpecFormula::NegAtom(name@)
                } else {
                    SpecFormula::Atom(name@)
                },
                0,
            ) == Some(vars[k as int].1@),
            None => first_bound(
                env_model(vars@),
                if negated {
                    SpecFormula::NegAtom(name@)
                } else {
                    SpecFormula::Atom(name@)
                },
                0,
            ) is None,
        },
{
    let ghost env = env_model(vars@);
    let ghost target = if negated {
        SpecFormula::NegAtom(name@)
    } else {
        SpecFormula::Atom(name@)
    };
    let mut k: usize = 0;
    while k < vars.len()
        invariant
            k <= vars.len(),
            env == env_model(vars@),
            target == if negated {
                SpecFormula::NegAtom(name@)
            } else {
                SpecFormula::Atom(name@)
            },
            first_bound(env, target, k as nat) == first_bound(env, target, 0),
        decreases vars.len() - k,
    {
        assert(env.len() == vars.len());
        assert(env[k as int] == (vars[k as int].0@, vars[k as int].1@));
        if is_atom_named(&vars[k].0, name, negated) {
            return Some(k);
        }
        k = k + 1;
    }
    None
}

/// Extracts the term of a proof tree with a new extractor.
pub fn extract_term(p: &Proof) -> (r: Term)
    ensures
        r@ == extraction(p@, 0, Seq::empty()).0,
{
    let mut extractor = Extractor::new();
    extractor.extract(p)
}

/// The term of an axiom is a variable, or the identity function on a
/// variable.
pub proof fn lemma_axiom_extracts_identity(
    p: SpecProof,
    n: nat,
    env: Seq<(SpecFormula, Seq<char>)>,
)
    requires
        p.rule is Axiom,
    ensures
        ({
            let t = extraction(p, n, env).0;
            t is Var || (t is Abs && *t->Abs_1 == SpecTerm::Var(t->Abs_0))
        }),
{
}

/// Fresh names made at different counter values are different.
pub proof fn lemma_fresh_names_differ(a: nat, b: nat)
    requires
        a != b,
    ensures
        fresh_name(a) != fresh_name(b),
{
    if fresh_name(a) == fresh_name(b) {
        let prefix = "x"@;
        assert(fresh_name(a).skip(prefix.len() as int) == decimal(a));
        assert(fresh_name(b).skip(prefix.len() as int) == decimal(b));
        lemma_decimal_injective(a, b);
    }
}

/// An extraction never moves the counter back.
pub proof fn lemma_counter_grows(p: SpecProof, n: nat, env: Seq<(SpecFormula, Seq<char>)>)
    ensures
        extraction(p, n, env).1 >= n,
    decreases p,
{
    let len = p.premises.len();
    match p.rule {
        SpecRule::Axiom | SpecRule::OneIntro | SpecRule::TopIntro => {},
        SpecRule::TensorIntro | SpecRule::WithIntro => {
            if len == 2 {
                lemma_counter_grows(p.premises[0], n, env);
                lemma_counter_grows(p.premises[1], extraction(p.premises[0], n, env).1, env);
            } else if len == 1 {
                lemma_counter_grows(p.premises[0], n, env);
            }
        },
        SpecRule::Contraction => {
            if len > 0 {
                lemma_counter_grows(p.premises[0], n + 3, env);
            }
        },
        SpecRule::Cut(f) => {
            if len == 2 {
                lemma_counter_grows(p.premises[0], n + 1, env);
                lemma_counter_grows(
                    p.premises[1],
                    extraction(p.premises[0], n + 1, env).1,
                    env.push((f, formula_name(f, n))),
                );
            }
        },
        _ => {
            if len > 0 {
                lemma_counter_grows(p.premises[0], n, env);
            }
        },
    }
}

/// The term of a proof tree without cuts is steady: nothing is ever
/// substituted in it.
pub proof fn lemma_extraction_steady(p: SpecProof, n: nat, env: Seq<(SpecFormula, Seq<char>)>)
    requires
        cut_free(p),
    ensures
        steady(extraction(p, n, env).0),
    decreases p,
{
    reveal_with_fuel(steady, 3);
    let len = p.premises.len();
    match p.rule {
        SpecRule::Axiom | SpecRule::OneIntro | SpecRule::TopIntro => {},
        SpecRule::TensorIntro | SpecRule::WithIntro => {
            if len == 2 {
                lemma_extraction_steady(p.premises[0], n, env);
                lemma_extraction_steady(p.premises[1], extraction(p.premises[0], n, env).1, env);
            } else if len == 1 {
                lemma_extraction_steady(p.premises[0], n, env);
            }
        },
        SpecRule::Contraction => {},
        SpecRule::Cut(_) => {},
        _ => {
            if len > 0 {
                lemma_extraction_steady(p.premises[0], n, env);
            }
        },
    }
}

/// Extracts the term of a proof tree without cuts and reduces it to its
/// normal form, which it always has. Returns `None` for a proof tree with a
/// cut.
pub fn extract_normalized(p: &Proof) -> (r: Option<Term>)
    ensures
        r is Some <==> cut_free(p@),
        r matches Some(t) ==> t@ == normal_form(extraction(p@, 0, Seq::empty()).0) && normal(
            t@,
        ),
{
    if !p.is_cut_free() {
        return None;
    }
    let term = extract_term(p);
    proof {
        lemma_extraction_steady(p@, 0, Seq::empty());
        lemma_steady_normalizes(term@, size(term@));
    }
    Some(normalize(&term))
}

} // verus!
