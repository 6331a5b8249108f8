//! Terms of the linear lambda calculus and their mathematical model.

use vstd::prelude::*;
use vstd::string::*;

verus! {

/// A term of the linear lambda calculus.
#[derive(Debug, PartialEq, Eq)]
pub enum Term {
    /// Variable.
    Var(String),
    /// Abstraction of a variable over a body.
    Abs(String, Box<Term>),
    /// Application of a function to an argument.
    App(Box<Term>, Box<Term>),
    /// The value of type one.
    Unit,
    /// The value of type top.
    Trivial,
    /// Pair of two terms.
    Pair(Box<Term>, Box<Term>),
    /// Binds the two components of a pair in a body.
    LetPair(String, String, Box<Term>, Box<Term>),
    /// Left injection.
    Inl(Box<Term>),
    /// Right injection.
    Inr(Box<Term>),
    /// Case split on a scrutinee, with a bound variable for each branch.
    Case(Box<Term>, String, Box<Term>, String, Box<Term>),
    /// Promotion to a value that can be copied and discarded.
    Promote(Box<Term>),
    /// Use of a promoted value once.
    Derelict(Box<Term>),
    /// Binds two copies of a promoted value in a body.
    Copy(Box<Term>, String, String, Box<Term>),
    /// Drops a promoted value and goes on with a body.
    Discard(Box<Term>, Box<Term>),
    /// Elimination of the empty type.
    Abort(Box<Term>),
    /// First projection.
    Fst(Box<Term>),
    /// Second projection.
    Snd(Box<Term>),
}

/// The mathematical model of a [`Term`]: the same tree with names as character
/// sequences.
pub ghost enum SpecTerm {
    Var(Seq<char>),
    Abs(Seq<char>, Box<SpecTerm>),
    App(Box<SpecTerm>, Box<SpecTerm>),
    Unit,
    Trivial,
    Pair(Box<SpecTerm>, Box<SpecTerm>),
    LetPair(Seq<char>, Seq<char>, Box<SpecTerm>, Box<SpecTerm>),
    Inl(Box<SpecTerm>),
    Inr(Box<SpecTerm>),
    Case(Box<SpecTerm>, Seq<char>, Box<SpecTerm>, Seq<char>, Box<SpecTerm>),
    Promote(Box<SpecTerm>),
    Derelict(Box<SpecTerm>),
    Copy(Box<SpecTerm>, Seq<char>, Seq<char>, Box<SpecTerm>),
    Discard(Box<SpecTerm>, Box<SpecTerm>),
    Abort(Box<SpecTerm>),
    Fst(Box<SpecTerm>),
    Snd(Box<SpecTerm>),
}

impl Term {
    /// The model of this term.
    pub open spec fn model(&self) -> SpecTerm
        decreases self,
    {
        match self {
            Term::Var(x) => SpecTerm::Var(x@),
            Term::Abs(x, b) => SpecTerm::Abs(x@, Box::new(b.model())),
            Term::App(f, a) => SpecTerm::App(Box::new(f.model()), Box::new(a.model())),
            Term::Unit => SpecTerm::Unit,
            Term::Trivial => SpecTerm::Trivial,
            Term::Pair(a, b) => SpecTerm::Pair(Box::new(a.model()), Box::new(b.model())),
            Term::LetPair(x, y, p, b) => SpecTerm::LetPair(
                x@,
                y@,
                Box::new(p.model()),
                Box::new(b.model()),
            ),
            Term::Inl(e) => SpecTerm::Inl(Box::new(e.model())),
            Term::Inr(e) => SpecTerm::Inr(Box::new(e.model())),
            Term::Case(s, x, l, y, r) => SpecTerm::Case(
                Box::new(s.model()),
                x@,
                Box::new(l.model()),
                y@,
                Box::new(r.model()),
            ),
            Term::Promote(e) => SpecTerm::Promote(Box::new(e.model())),
            Term::Derelict(e) => SpecTerm::Derelict(Box::new(e.model())),
            Term::Copy(s, x, y, b) => SpecTerm::Copy(
                Box::new(s.model()),
                x@,
                y@,
                Box::new(b.model()),
            ),
            Term::Discard(d, b) => SpecTerm::Discard(Box::new(d.model()), Box::new(b.model())),
            Term::Abort(e) => SpecTerm::Abort(Box::new(e.model())),
            Term::Fst(e) => SpecTerm::Fst(Box::new(e.model())),
            Term::Snd(e) => SpecTerm::Snd(Box::new(e.model())),
        }
    }
}

impl View for Term {
    type V = SpecTerm;

    open spec fn view(&self) -> SpecTerm {
        self.model()
    }
}

impl SpecTerm {
    /// Replaces the free occurrences of `var` by `replacement`. A binder of the
    /// same name shadows `var` in its scope; the names bound in the term are
    /// not changed.
    pub open spec fn substitute(self, var: Seq<char>, replacement: SpecTerm) -> SpecTerm
        decreases self,
    {
        match self {
            SpecTerm::Var(x) => if x == var {
                replacement
            } else {
                self
            },
            SpecTerm::Abs(x, b) => if x == var {
                self
            } else {
                SpecTerm::Abs(x, Box::new(b.substitute(var, replacement)))
            },
            SpecTerm::App(f, a) => SpecTerm::App(
                Box::new(f.substitute(var, replacement)),
                Box::new(a.substitute(var, replacement)),
            ),
            SpecTerm::Unit => self,
            SpecTerm::Trivial => self,
            SpecTerm::Pair(a, b) => SpecTerm::Pair(
                Box::new(a.substitute(var, replacement)),
                Box::new(b.substitute(var, replacement)),
            ),
            SpecTerm::LetPair(x, y, p, b) => SpecTerm::LetPair(
                x,
                y,
                Box::new(p.substitute(var, replacement)),
                if x == var || y == var {
                    b
                } else {
                    Box::new(b.substitute(var, replacement))
                },
            ),
            SpecTerm::Inl(e) => SpecTerm::Inl(Box::new(e.substitute(var, replacement))),
            SpecTerm::Inr(e) => SpecTerm::Inr(Box::new(e.substitute(var, replacement))),
            SpecTerm::Case(s, x, l, y, r) => SpecTerm::Case(
                Box::new(s.substitute(var, replacement)),
                x,
                if x == var {
                    l
                } else {
                    Box::new(l.substitute(var, replacement))
                },
                y,
                if y == var {
                    r
                } else {
                    Box::new(r.substitute(var, replacement))
                },
            ),
            SpecTerm::Promote(e) => SpecTerm::Promote(Box::new(e.substitute(var, replacement))),
            SpecTerm::Derelict(e) => SpecTerm::Derelict(Box::new(e.substitute(var, replacement))),
            SpecTerm::Copy(s, x, y, b) => SpecTerm::Copy(
                Box::new(s.substitute(var, replacement)),
                x,
                y,
                if x == var || y == var {
                    b
                } else {
                    Box::new(b.substitute(var, replacement))
                },
            ),
            SpecTerm::Discard(d, b) => SpecTerm::Discard(
                Box::new(d.substitute(var, replacement)),
                Box::new(b.substitute(var, replacement)),
            ),
            SpecTerm::Abort(e) => SpecTerm::Abort(Box::new(e.substitute(var, replacement))),
            SpecTerm::Fst(e) => SpecTerm::Fst(Box::new(e.substitute(var, replacement))),
            SpecTerm::Snd(e) => SpecTerm::Snd(Box::new(e.substitute(var, replacement))),
        }
    }
}

impl SpecTerm {
    /// The text of the term.
    pub open spec fn text(self) -> Seq<char>
        decreases self,
    {
        match self {
            SpecTerm::Var(x) => x,
            SpecTerm::Abs(x, b) => "(λ"@ + x + ". "@ + b.text() + ")"@,
            SpecTerm::App(f, a) => "("@ + f.text() + " "@ + a.text() + ")"@,
            SpecTerm::Unit => "()"@,
            SpecTerm::Trivial => "⟨⟩"@,
            SpecTerm::Pair(a, b) => "("@ + a.text() + ", "@ + b.text() + ")"@,
            SpecTerm::LetPair(x, y, p, b) => "let ("@ + x + ", "@ + y + ") = "@ + p.text()
                + " in "@ + b.text(),
            SpecTerm::Inl(e) => "inl("@ + e.text() + ")"@,
            SpecTerm::Inr(e) => "inr("@ + e.text() + ")"@,
            SpecTerm::Case(s, x, l, y, r) => "case "@ + s.text() + " of { inl "@ + x + " => "@
                + l.text() + " | inr "@ + y + " => "@ + r.text() + " }"@,
            SpecTerm::Promote(e) => "!"@ + e.text(),
            SpecTerm::Derelict(e) => "derelict("@ + e.text() + ")"@,
            SpecTerm::Copy(s, x, y, b) => "copy "@ + s.text() + " as ("@ + x + ", "@ + y
                + ") in "@ + b.text(),
            SpecTerm::Discard(d, b) => "discard "@ + d.text() + " in "@ + b.text(),
            SpecTerm::Abort(e) => "abort("@ + e.text() + ")"@,
            SpecTerm::Fst(e) => "fst("@ + e.text() + ")"@,
            SpecTerm::Snd(e) => "snd("@ + e.text() + ")"@,
        }
    }
}

/// Writes `inner` after `open` and before `close`.
fn wrapped(open: &str, inner: String, close: &str) -> (r: String)
    ensures
        r@ == open@ + inner@ + close@,
{
    let mut out = String::from_str(open);
    out.append(inner.as_str());
    out.append(close);
    out
}

impl Term {
    /// Writes the term out.
    pub fn pretty(&self) -> (r: String)
        ensures
            r@ == self@.text(),
        decreases self,
    {
        match self {
            Term::Var(x) => x.clone(),
            Term::Abs(x, b) => {
                let mut out = String::from_str("(λ");
                out.append(x.as_str());
                out.append(". ");
                out.append(b.pretty().as_str());
                out.append(")");
                out
            },
            Term::App(f, a) => {
                let mut out = String::from_str("(");
                out.append(f.pretty().as_str());
                out.append(" ");
                out.append(a.pretty().as_str());
                out.append(")");
                out
            },
            Term::Unit => String::from_str("()"),
            Term::Trivial => String::from_str("⟨⟩"),
            Term::Pair(a, b) => {
                let mut out = String::from_str("(");
                out.append(a.pretty().as_str());
                out.append(", ");
                out.append(b.pretty().as_str());
                out.append(")");
                out
            },
            Term::LetPair(x, y, p, b) => {
                let mut out = String::from_str("let (");
                out.append(x.as_str());
                out.append(", ");
                out.append(y.as_str());
                out.append(") = ");
                out.append(p.pretty().as_str());
                out.append(" in ");
                out.append(b.pretty().as_str());
                out
            },
            Term::Inl(e) => wrapped("inl(", e.pretty(), ")"),
            Term::Inr(e) => wrapped("inr(", e.pretty(), ")"),
            Term::Case(s, x, l, y, r) => {
                let mut out = String::from_str("case ");
                out.append(s.pretty().as_str());
                out.append(" of { inl ");
                out.append(x.as_str());
                out.append(" => ");
                out.append(l.pretty().as_str());
                out.append(" | inr ");
                out.append(y.as_str());
                out.append(" => ");
                out.append(r.pretty().as_str());
                out.append(" }");
                out
            },
            Term::Promote(e) => {
                let mut out = String::from_str("!");
                out.append(e.pretty().as_str());
                out
            },
            Term::Derelict(e) => wrapped("derelict(", e.pretty(), ")"),
            Term::Copy(s, x, y, b) => {
                let mut out = String::from_str("copy ");
                out.append(s.pretty().as_str());
                out.append(" as (");
                out.append(x.as_str());
                out.append(", ");
                out.append(y.as_str());
                out.append(") in ");
                out.append(b.pretty().as_str());
                out
            },
            Term::Discard(d, b) => {
                let mut out = String::from_str("discard ");
                out.append(d.pretty().as_str());
                out.append(" in ");
                out.append(b.pretty().as_str());
                out
            },
            Term::Abort(e) => wrapped("abort(", e.pretty(), ")"),
            Term::Fst(e) => wrapped("fst(", e.pretty(), ")"),
            Term::Snd(e) => wrapped("snd(", e.pretty(), ")"),
        }
    }
}

impl Clone for Term {
    fn clone(&self) -> (r: Term)
        ensures
            r == *self,
        decreases self,
    {
        match self {
            Term::Var(x) => Term::Var(x.clone()),
            Term::Abs(x, b) => Term::Abs(x.clone(), Box::new((&**b).clone())),
            Term::App(f, a) => Term::App(Box::new((&**f).clone()), Box::new((&**a).clone())),
            Term::Unit => Term::Unit,
            Term::Trivial => Term::Trivial,
            Term::Pair(a, b) => Term::Pair(Box::new((&**a).clone()), Box::new((&**b).clone())),
            Term::LetPair(x, y, p, b) => Term::LetPair(
                x.clone(),
                y.clone(),
                Box::new((&**p).clone()),
                Box::new((&**b).clone()),
            ),
            Term::Inl(e) => Term::Inl(Box::new((&**e).clone())),
            Term::Inr(e) => Term::Inr(Box::new((&**e).clone())),
            Term::Case(s, x, l, y, r) => Term::Case(
                Box::new((&**s).clone()),
                x.clone(),
                Box::new((&**l).clone()),
                y.clone(),
                Box::new((&**r).clone()),
            ),
            Term::Promote(e) => Term::Promote(Box::new((&**e).clone())),
            Term::Derelict(e) => Term::Derelict(Box::new((&**e).clone())),
            Term::Copy(s, x, y, b) => Term::Copy(
                Box::new((&**s).clone()),
                x.clone(),
                y.clone(),
                Box::new((&**b).clone()),
            ),
            Term::Discard(d, b) => Term::Discard(
                Box::new((&**d).clone()),
                Box::new((&**b).clone()),
            ),
            Term::Abort(e) => Term::Abort(Box::new((&**e).clone())),
            Term::Fst(e) => Term::Fst(Box::new((&**e).clone())),
            Term::Snd(e) => Term::Snd(Box::new((&**e).clone())),
        }
    }
}

impl Term {
    /// Replaces the free occurrences of `var` by `replacement`.
    pub fn substitute(&self, var: &str, replacement: &Term) -> (r: Term)
        ensures
            r@ == self@.substitute(var@, replacement@),
    {
        let name = var.to_owned();
        self.substitute_name(&name, replacement)
    }

    /// Replaces the free occurrences of the variable `var` by `replacement`.
    pub fn substitute_name(&self, var: &String, replacement: &Term) -> (r: Term)
        ensures
            r@ == self@.substitute(var@, replacement@),
        decreases self,
    {
        match self {
            Term::Var(x) => if *x == *var {
                replacement.clone()
            } else {
                self.clone()
            },
            Term::Abs(x, b) => if *x == *var {
                self.clone()
            } else {
                Term::Abs(x.clone(), Box::new(b.substitute_name(var, replacement)))
            },
            Term::App(f, a) => Term::App(
                Box::new(f.substitute_name(var, replacement)),
                Box::new(a.substitute_name(var, replacement)),
            ),
            Term::Unit => Term::Unit,
            Term::Trivial => Term::Trivial,
            Term::Pair(a, b) => Term::Pair(
                Box::new(a.substitute_name(var, replacement)),
                Box::new(b.substitute_name(var, replacement)),
            ),
            Term::LetPair(x, y, p, b) => {
                let pair = p.substitute_name(var, replacement);
                let body = if *x == *var || *y == *var {
                    (&**b).clone()
                } else {
                    b.substitute_name(var, replacement)
                };
                Term::LetPair(x.clone(), y.clone(), Box::new(pair), Box::new(body))
            },
            Term::Inl(e) => Term::Inl(Box::new(e.substitute_name(var, replacement))),
            Term::Inr(e) => Term::Inr(Box::new(e.substitute_name(var, replacement))),
            Term::Case(s, x, l, y, r) => {
                let scrutinee = s.substitute_name(var, replacement);
                let left = if *x == *var {
                    (&**l).clone()
                } else {
                    l.substitute_name(var, replacement)
                };
                let right = if *y == *var {
                    (&**r).clone()
                } else {
                    r.substitute_name(var, replacement)
                };
                Term::Case(
                    Box::new(scrutinee),
                    x.clone(),
                    Box::new(left),
                    y.clone(),
                    Box::new(right),
                )
            },
            Term::Promote(e) => Term::Promote(Box::new(e.substitute_name(var, replacement))),
            Term::Derelict(e) => Term::Derelict(Box::new(e.substitute_name(var, replacement))),
            Term::Copy(s, x, y, b) => {
                let source = s.substitute_name(var, replacement);
                let body = if *x == *var || *y == *var {
                    (&**b).clone()
                } else {
                    b.substitute_name(var, replacement)
                };
                Term::Copy(Box::new(source), x.clone(), y.clone(), Box::new(body))
            },
            Term::Discard(d, b) => Term::Discard(
                Box::new(d.substitute_name(var, replacement)),
                Box::new(b.substitute_name(var, replacement)),
            ),
            Term::Abort(e) => Term::Abort(Box::new(e.substitute_name(var, replacement))),
            Term::Fst(e) => Term::Fst(Box::new(e.substitute_name(var, replacement))),
            Term::Snd(e) => Term::Snd(Box::new(e.substitute_name(var, replacement))),
        }
    }
}

} // verus!
