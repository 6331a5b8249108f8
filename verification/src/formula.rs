//! Linear logic formulas and their mathematical model.

use crate::text::{quote, quoted};
use vstd::prelude::*;
use vstd::string::*;

verus! {

/// A linear logic formula.
#[derive(Debug, PartialEq, Eq, Hash)]
pub enum Formula {
    /// Atomic proposition.
    Atom(String),
    /// Negated atomic proposition.
    NegAtom(String),
    /// Tensor product, the multiplicative conjunction.
    Tensor(Box<Formula>, Box<Formula>),
    /// Par, the multiplicative disjunction.
    Par(Box<Formula>, Box<Formula>),
    /// Unit of tensor.
    One,
    /// Unit of par.
    Bottom,
    /// With, the additive conjunction.
    With(Box<Formula>, Box<Formula>),
    /// Plus, the additive disjunction.
    Plus(Box<Formula>, Box<Formula>),
    /// Unit of with.
    Top,
    /// Unit of plus.
    Zero,
    /// Of course, the exponential that allows copying and discarding.
    OfCourse(Box<Formula>),
    /// Why not, the dual exponential.
    WhyNot(Box<Formula>),
    /// Linear implication, sugar for a par with a negated left side.
    Lolli(Box<Formula>, Box<Formula>),
}

/// The mathematical model of a [`Formula`]: the same tree with names as
/// character sequences.
pub ghost enum SpecFormula {
    Atom(Seq<char>),
    NegAtom(Seq<char>),
    Tensor(Box<SpecFormula>, Box<SpecFormula>),
    Par(Box<SpecFormula>, Box<SpecFormula>),
    One,
    Bottom,
    With(Box<SpecFormula>, Box<SpecFormula>),
    Plus(Box<SpecFormula>, Box<SpecFormula>),
    Top,
    Zero,
    OfCourse(Box<SpecFormula>),
    WhyNot(Box<SpecFormula>),
    Lolli(Box<SpecFormula>, Box<SpecFormula>),
}

/// The outermost connective of a formula.
#[derive(Clone, Copy, Debug, PartialEq, Eq, Structural)]
pub enum Head {
    Atom,
    NegAtom,
    Tensor,
    Par,
    One,
    Bottom,
    With,
    Plus,
    Top,
    Zero,
    OfCourse,
    WhyNot,
    Lolli,
}

/// The notations in which a formula can be written out.
#[derive(Clone, Copy, Debug, PartialEq, Eq)]
pub enum Notation {
    /// Mathematical symbols.
    Unicode,
    /// Plain keyboard characters.
    Ascii,
    /// LaTeX math mode commands.
    Latex,
}

/// The parts of a formula that have a symbol in each notation.
#[derive(Clone, Copy, Debug, PartialEq, Eq)]
pub enum Symbol {
    /// Suffix of a negated atom.
    Dual,
    /// Infix of tensor.
    Tensor,
    /// Infix of par.
    Par,
    /// Infix of linear implication.
    Lolli,
    /// Infix of with.
    With,
    /// Infix of plus.
    Plus,
    /// Prefix of of-course.
    OfCourse,
    /// Prefix of why-not.
    WhyNot,
    /// The unit one.
    One,
    /// The unit bottom.
    Bottom,
    /// The unit top.
    Top,
    /// The unit zero.
    Zero,
}

/// The text of a symbol in a notation.
pub open spec fn symbol_text(n: Notation, s: Symbol) -> Seq<char> {
    match n {
        Notation::Unicode => match s {
            Symbol::Dual => "⊥"@,
            Symbol::Tensor => "⊗"@,
            Symbol::Par => "⅋"@,
            Symbol::Lolli => "⊸"@,
            Symbol::With => "&"@,
            Symbol::Plus => "⊕"@,
            Symbol::OfCourse => "!"@,
            Symbol::WhyNot => "?"@,
            Symbol::One => "1"@,
            Symbol::Bottom => "⊥"@,
            Symbol::Top => "⊤"@,
            Symbol::Zero => "0"@,
        },
        Notation::Ascii => match s {
            Symbol::Dual => "^"@,
            Symbol::Tensor => "*"@,
            Symbol::Par => "|"@,
            Symbol::Lolli => "-o"@,
            Symbol::With => "&"@,
            Symbol::Plus => "+"@,
            Symbol::OfCourse => "!"@,
            Symbol::WhyNot => "?"@,
            Symbol::One => "1"@,
            Symbol::Bottom => "bot"@,
            Symbol::Top => "top"@,
            Symbol::Zero => "0"@,
        },
        Notation::Latex => match s {
            Symbol::Dual => "^{\\bot}"@,
            Symbol::Tensor => "\\otimes"@,
            Symbol::Par => "\\parr"@,
            Symbol::Lolli => "\\multimap"@,
            Symbol::With => "\\with"@,
            Symbol::Plus => "\\oplus"@,
            Symbol::OfCourse => "{!}"@,
            Symbol::WhyNot => "{?}"@,
            Symbol::One => "\\mathbf{1}"@,
            Symbol::Bottom => "\\bot"@,
            Symbol::Top => "\\top"@,
            Symbol::Zero => "\\mathbf{0}"@,
        },
    }
}

/// The text of a binary formula: both sides in parentheses around the infix,
/// with one space on each side of it.
pub open spec fn infix_text(left: Seq<char>, op: Seq<char>, right: Seq<char>) -> Seq<char> {
    "("@ + left + " "@ + op + " "@ + right + ")"@
}

/// The text of a symbol in a notation.
pub fn symbol(n: Notation, s: Symbol) -> (r: &'static str)
    ensures
        r@ == symbol_text(n, s),
{
    match n {
        Notation::Unicode => match s {
            Symbol::Dual => "⊥",
            Symbol::Tensor => "⊗",
            Symbol::Par => "⅋",
            Symbol::Lolli => "⊸",
            Symbol::With => "&",
            Symbol::Plus => "⊕",
            Symbol::OfCourse => "!",
            Symbol::WhyNot => "?",
            Symbol::One => "1",
            Symbol::Bottom => "⊥",
            Symbol::Top => "⊤",
            Symbol::Zero => "0",
        },
        Notation::Ascii => match s {
            Symbol::Dual => "^",
            Symbol::Tensor => "*",
            Symbol::Par => "|",
            Symbol::Lolli => "-o",
            Symbol::With => "&",
            Symbol::Plus => "+",
            Symbol::OfCourse => "!",
            Symbol::WhyNot => "?",
            Symbol::One => "1",
            Symbol::Bottom => "bot",
            Symbol::Top => "top",
            Symbol::Zero => "0",
        },
        Notation::Latex => match s {
            Symbol::Dual => "^{\\bot}",
            Symbol::Tensor => "\\otimes",
            Symbol::Par => "\\parr",
            Symbol::Lolli => "\\multimap",
            Symbol::With => "\\with",
            Symbol::Plus => "\\oplus",
            Symbol::OfCourse => "{!}",
            Symbol::WhyNot => "{?}",
            Symbol::One => "\\mathbf{1}",
            Symbol::Bottom => "\\bot",
            Symbol::Top => "\\top",
            Symbol::Zero => "\\mathbf{0}",
        },
    }
}

/// Writes a binary formula from the texts of its sides and its infix.
pub fn infix(left: String, op: &str, right: String) -> (r: String)
    ensures
        r@ == infix_text(left@, op@, right@),
{
    let mut out = String::from_str("(");
    out.append(left.as_str());
    out.append(" ");
    out.append(op);
    out.append(" ");
    out.append(right.as_str());
    out.append(")");
    out
}

impl Formula {
    /// The model of this formula.
    pub open spec fn model(&self) -> SpecFormula
        decreases self,
    {
        match self {
            Formula::Atom(a) => SpecFormula::Atom(a@),
            Formula::NegAtom(a) => SpecFormula::NegAtom(a@),
            Formula::Tensor(a, b) => SpecFormula::Tensor(Box::new(a.model()), Box::new(b.model())),
            Formula::Par(a, b) => SpecFormula::Par(Box::new(a.model()), Box::new(b.model())),
            Formula::One => SpecFormula::One,
            Formula::Bottom => SpecFormula::Bottom,
            Formula::With(a, b) => SpecFormula::With(Box::new(a.model()), Box::new(b.model())),
            Formula::Plus(a, b) => SpecFormula::Plus(Box::new(a.model()), Box::new(b.model())),
            Formula::Top => SpecFormula::Top,
            Formula::Zero => SpecFormula::Zero,
            Formula::OfCourse(a) => SpecFormula::OfCourse(Box::new(a.model())),
            Formula::WhyNot(a) => SpecFormula::WhyNot(Box::new(a.model())),
            Formula::Lolli(a, b) => SpecFormula::Lolli(Box::new(a.model()), Box::new(b.model())),
        }
    }
}

impl View for Formula {
    type V = SpecFormula;

    open spec fn view(&self) -> SpecFormula {
        self.model()
    }
}

impl SpecFormula {
    /// The text of the formula in a notation: an atom is its name, a negated
    /// atom its name and the dual suffix, a unit its symbol, an exponential
    /// its prefix and its operand, and a binary formula stands in parentheses.
    pub open spec fn render(self, n: Notation) -> Seq<char>
        decreases self,
    {
        match self {
            SpecFormula::Atom(a) => a,
            SpecFormula::NegAtom(a) => a + symbol_text(n, Symbol::Dual),
            SpecFormula::Tensor(a, b) => infix_text(
                a.render(n),
                symbol_text(n, Symbol::Tensor),
                b.render(n),
            ),
            SpecFormula::Par(a, b) => infix_text(
                a.render(n),
                symbol_text(n, Symbol::Par),
                b.render(n),
            ),
            SpecFormula::Lolli(a, b) => infix_text(
                a.render(n),
                symbol_text(n, Symbol::Lolli),
                b.render(n),
            ),
            SpecFormula::With(a, b) => infix_text(
                a.render(n),
                symbol_text(n, Symbol::With),
                b.render(n),
            ),
            SpecFormula::Plus(a, b) => infix_text(
                a.render(n),
                symbol_text(n, Symbol::Plus),
                b.render(n),
            ),
            SpecFormula::OfCourse(a) => symbol_text(n, Symbol::OfCourse) + a.render(n),
            SpecFormula::WhyNot(a) => symbol_text(n, Symbol::WhyNot) + a.render(n),
            SpecFormula::One => symbol_text(n, Symbol::One),
            SpecFormula::Bottom => symbol_text(n, Symbol::Bottom),
            SpecFormula::Top => symbol_text(n, Symbol::Top),
            SpecFormula::Zero => symbol_text(n, Symbol::Zero),
        }
    }
}

impl SpecFormula {
    /// The outermost connective.
    pub open spec fn head(self) -> Head {
        match self {
            SpecFormula::Atom(_) => Head::Atom,
            SpecFormula::NegAtom(_) => Head::NegAtom,
            SpecFormula::Tensor(_, _) => Head::Tensor,
            SpecFormula::Par(_, _) => Head::Par,
            SpecFormula::One => Head::One,
            SpecFormula::Bottom => Head::Bottom,
            SpecFormula::With(_, _) => Head::With,
            SpecFormula::Plus(_, _) => Head::Plus,
            SpecFormula::Top => Head::Top,
            SpecFormula::Zero => Head::Zero,
            SpecFormula::OfCourse(_) => Head::OfCourse,
            SpecFormula::WhyNot(_) => Head::WhyNot,
            SpecFormula::Lolli(_, _) => Head::Lolli,
        }
    }
}

/// Whether some formula of the sequence has the given outermost connective.
pub open spec fn has_head(fs: Seq<SpecFormula>, h: Head) -> bool {
    exists|i: int| 0 <= i < fs.len() && #[trigger] fs[i].head() == h
}

/// Whether the two formulas are an atom and the negated atom of the same name,
/// in either order.
pub open spec fn dual_atoms(a: SpecFormula, b: SpecFormula) -> bool {
    ||| a is Atom && b is NegAtom && a->Atom_0 == b->NegAtom_0
    ||| a is NegAtom && b is Atom && a->NegAtom_0 == b->Atom_0
}

impl SpecFormula {
    /// Linear negation, by the De Morgan dualities.
    pub open spec fn negate(self) -> SpecFormula
        decreases self,
    {
        match self {
            SpecFormula::Atom(a) => SpecFormula::NegAtom(a),
            SpecFormula::NegAtom(a) => SpecFormula::Atom(a),
            SpecFormula::Tensor(a, b) => SpecFormula::Par(Box::new(a.negate()), Box::new(b.negate())),
            SpecFormula::Par(a, b) => SpecFormula::Tensor(Box::new(a.negate()), Box::new(b.negate())),
            SpecFormula::One => SpecFormula::Bottom,
            SpecFormula::Bottom => SpecFormula::One,
            SpecFormula::With(a, b) => SpecFormula::Plus(Box::new(a.negate()), Box::new(b.negate())),
            SpecFormula::Plus(a, b) => SpecFormula::With(Box::new(a.negate()), Box::new(b.negate())),
            SpecFormula::Top => SpecFormula::Zero,
            SpecFormula::Zero => SpecFormula::Top,
            SpecFormula::OfCourse(a) => SpecFormula::WhyNot(Box::new(a.negate())),
            SpecFormula::WhyNot(a) => SpecFormula::OfCourse(Box::new(a.negate())),
            SpecFormula::Lolli(a, b) => SpecFormula::Tensor(a, Box::new(b.negate())),
        }
    }
}

impl SpecFormula {
    /// Expands every linear implication `A -o B` into `A^ par B`.
    pub open spec fn desugar(self) -> SpecFormula
        decreases self.size(), 0nat,
    {
        match self {
            SpecFormula::Lolli(a, b) => {
                SpecFormula::Par(Box::new(a.negate_then_desugar()), Box::new(b.desugar()))
            },
            SpecFormula::Tensor(a, b) => SpecFormula::Tensor(
                Box::new(a.desugar()),
                Box::new(b.desugar()),
            ),
            SpecFormula::Par(a, b) => SpecFormula::Par(Box::new(a.desugar()), Box::new(b.desugar())),
            SpecFormula::With(a, b) => SpecFormula::With(
                Box::new(a.desugar()),
                Box::new(b.desugar()),
            ),
            SpecFormula::Plus(a, b) => SpecFormula::Plus(
                Box::new(a.desugar()),
                Box::new(b.desugar()),
            ),
            SpecFormula::OfCourse(a) => SpecFormula::OfCourse(Box::new(a.desugar())),
            SpecFormula::WhyNot(a) => SpecFormula::WhyNot(Box::new(a.desugar())),
            _ => self,
        }
    }

    /// The desugared form of the negation.
    pub open spec fn negate_then_desugar(self) -> SpecFormula
        decreases self.size(), 1nat,
    {
        proof {
            self.lemma_negate_keeps_size();
        }
        self.negate().desugar()
    }

    /// Negation does not change the number of nodes.
    pub proof fn lemma_negate_keeps_size(self)
        ensures
            self.negate().size() == self.size(),
        decreases self,
    {
        match self {
            SpecFormula::Tensor(a, b) => {
                a.lemma_negate_keeps_size();
                b.lemma_negate_keeps_size();
            },
            SpecFormula::Par(a, b) => {
                a.lemma_negate_keeps_size();
                b.lemma_negate_keeps_size();
            },
            SpecFormula::With(a, b) => {
                a.lemma_negate_keeps_size();
                b.lemma_negate_keeps_size();
            },
            SpecFormula::Plus(a, b) => {
                a.lemma_negate_keeps_size();
                b.lemma_negate_keeps_size();
            },
            SpecFormula::Lolli(a, b) => {
                b.lemma_negate_keeps_size();
            },
            SpecFormula::OfCourse(a) => {
                a.lemma_negate_keeps_size();
            },
            SpecFormula::WhyNot(a) => {
                a.lemma_negate_keeps_size();
            },
            _ => {},
        }
    }

    /// Number of nodes of the formula tree.
    pub open spec fn size(self) -> nat
        decreases self,
    {
        match self {
            SpecFormula::Tensor(a, b) => 1 + a.size() + b.size(),
            SpecFormula::Par(a, b) => 1 + a.size() + b.size(),
            SpecFormula::With(a, b) => 1 + a.size() + b.size(),
            SpecFormula::Plus(a, b) => 1 + a.size() + b.size(),
            SpecFormula::Lolli(a, b) => 1 + a.size() + b.size(),
            SpecFormula::OfCourse(a) => 1 + a.size(),
            SpecFormula::WhyNot(a) => 1 + a.size(),
            _ => 1,
        }
    }

    /// Whether the formula is built without linear implication.
    pub open spec fn lolli_free(self) -> bool
        decreases self,
    {
        match self {
            SpecFormula::Tensor(a, b) => a.lolli_free() && b.lolli_free(),
            SpecFormula::Par(a, b) => a.lolli_free() && b.lolli_free(),
            SpecFormula::With(a, b) => a.lolli_free() && b.lolli_free(),
            SpecFormula::Plus(a, b) => a.lolli_free() && b.lolli_free(),
            SpecFormula::OfCourse(a) => a.lolli_free(),
            SpecFormula::WhyNot(a) => a.lolli_free(),
            SpecFormula::Lolli(_, _) => false,
            _ => true,
        }
    }

    /// Positive formulas: atoms, tensor, one, plus, zero, of course.
    pub open spec fn is_positive(self) -> bool {
        self is Atom || self is Tensor || self is One || self is Plus || self is Zero
            || self is OfCourse
    }

    /// Negative formulas: all that are not positive.
    pub open spec fn is_negative(self) -> bool {
        !self.is_positive()
    }
}

impl Formula {
    /// Computes the linear negation of the formula.
    pub fn negate(&self) -> (r: Formula)
        ensures
            r@ == self@.negate(),
        decreases self,
    {
        match self {
            Formula::Atom(a) => Formula::NegAtom(a.clone()),
            Formula::NegAtom(a) => Formula::Atom(a.clone()),
            Formula::Tensor(a, b) => Formula::Par(Box::new(a.negate()), Box::new(b.negate())),
            Formula::Par(a, b) => Formula::Tensor(Box::new(a.negate()), Box::new(b.negate())),
            Formula::One => Formula::Bottom,
            Formula::Bottom => Formula::One,
            Formula::With(a, b) => Formula::Plus(Box::new(a.negate()), Box::new(b.negate())),
            Formula::Plus(a, b) => Formula::With(Box::new(a.negate()), Box::new(b.negate())),
            Formula::Top => Formula::Zero,
            Formula::Zero => Formula::Top,
            Formula::OfCourse(a) => Formula::WhyNot(Box::new(a.negate())),
            Formula::WhyNot(a) => Formula::OfCourse(Box::new(a.negate())),
            Formula::Lolli(a, b) => Formula::Tensor(Box::new((&**a).clone()), Box::new(b.negate())),
        }
    }
}

impl Formula {
    /// Expands every linear implication `A -o B` into `A^ par B`.
    pub fn desugar(&self) -> (r: Formula)
        ensures
            r@ == self@.desugar(),
        decreases self@.size(), 0nat,
    {
        match self {
            Formula::Lolli(a, b) => {
                proof {
                    a@.lemma_negate_keeps_size();
                }
                let left = a.negate().desugar();
                assert(left@ == a@.negate_then_desugar());
                Formula::Par(Box::new(left), Box::new(b.desugar()))
            },
            Formula::Tensor(a, b) => Formula::Tensor(Box::new(a.desugar()), Box::new(b.desugar())),
            Formula::Par(a, b) => Formula::Par(Box::new(a.desugar()), Box::new(b.desugar())),
            Formula::With(a, b) => Formula::With(Box::new(a.desugar()), Box::new(b.desugar())),
            Formula::Plus(a, b) => Formula::Plus(Box::new(a.desugar()), Box::new(b.desugar())),
            Formula::OfCourse(a) => Formula::OfCourse(Box::new(a.desugar())),
            Formula::WhyNot(a) => Formula::WhyNot(Box::new(a.desugar())),
            _ => self.clone(),
        }
    }

    /// Returns true if the formula is positive.
    pub fn is_positive(&self) -> (r: bool)
        ensures
            r == self@.is_positive(),
    {
        match self {
            Formula::Atom(_) => true,
            Formula::Tensor(_, _) => true,
            Formula::One => true,
            Formula::Plus(_, _) => true,
            Formula::Zero => true,
            Formula::OfCourse(_) => true,
            _ => false,
        }
    }

    /// Returns true if the formula is negative.
    pub fn is_negative(&self) -> (r: bool)
        ensures
            r == self@.is_negative(),
    {
        !self.is_positive()
    }

    /// Creates an atom.
    pub fn atom(name: &str) -> (r: Formula)
        ensures
            r@ == SpecFormula::Atom(name@),
    {
        Formula::Atom(name.to_owned())
    }

    /// Creates a negated atom.
    pub fn neg_atom(name: &str) -> (r: Formula)
        ensures
            r@ == SpecFormula::NegAtom(name@),
    {
        Formula::NegAtom(name.to_owned())
    }

    /// Creates the tensor of two formulas.
    pub fn tensor(a: Formula, b: Formula) -> (r: Formula)
        ensures
            r == Formula::Tensor(Box::new(a), Box::new(b)),
    {
        Formula::Tensor(Box::new(a), Box::new(b))
    }

    /// Creates the par of two formulas.
    pub fn par(a: Formula, b: Formula) -> (r: Formula)
        ensures
            r == Formula::Par(Box::new(a), Box::new(b)),
    {
        Formula::Par(Box::new(a), Box::new(b))
    }

    /// Creates the linear implication from `a` to `b`.
    pub fn lolli(a: Formula, b: Formula) -> (r: Formula)
        ensures
            r == Formula::Lolli(Box::new(a), Box::new(b)),
    {
        Formula::Lolli(Box::new(a), Box::new(b))
    }

    /// Creates the with of two formulas.
    pub fn with(a: Formula, b: Formula) -> (r: Formula)
        ensures
            r == Formula::With(Box::new(a), Box::new(b)),
    {
        Formula::With(Box::new(a), Box::new(b))
    }

    /// Creates the plus of two formulas.
    pub fn plus(a: Formula, b: Formula) -> (r: Formula)
        ensures
            r == Formula::Plus(Box::new(a), Box::new(b)),
    {
        Formula::Plus(Box::new(a), Box::new(b))
    }

    /// Creates the of-course of a formula.
    pub fn of_course(a: Formula) -> (r: Formula)
        ensures
            r == Formula::OfCourse(Box::new(a)),
    {
        Formula::OfCourse(Box::new(a))
    }

    /// Creates the why-not of a formula.
    pub fn why_not(a: Formula) -> (r: Formula)
        ensures
            r == Formula::WhyNot(Box::new(a)),
    {
        Formula::WhyNot(Box::new(a))
    }
}

impl Formula {
    /// Writes the formula in a notation.
    pub fn render(&self, n: Notation) -> (r: String)
        ensures
            r@ == self@.render(n),
        decreases self,
    {
        match self {
            Formula::Atom(a) => a.clone(),
            Formula::NegAtom(a) => {
                let mut out = a.clone();
                out.append(symbol(n, Symbol::Dual));
                out
            },
            Formula::Tensor(a, b) => infix(a.render(n), symbol(n, Symbol::Tensor), b.render(n)),
            Formula::Par(a, b) => infix(a.render(n), symbol(n, Symbol::Par), b.render(n)),
            Formula::Lolli(a, b) => infix(a.render(n), symbol(n, Symbol::Lolli), b.render(n)),
            Formula::With(a, b) => infix(a.render(n), symbol(n, Symbol::With), b.render(n)),
            Formula::Plus(a, b) => infix(a.render(n), symbol(n, Symbol::Plus), b.render(n)),
            Formula::OfCourse(a) => {
                let mut out = String::from_str(symbol(n, Symbol::OfCourse));
                out.append(a.render(n).as_str());
                out
            },
            Formula::WhyNot(a) => {
                let mut out = String::from_str(symbol(n, Symbol::WhyNot));
                out.append(a.render(n).as_str());
                out
            },
            Formula::One => String::from_str(symbol(n, Symbol::One)),
            Formula::Bottom => String::from_str(symbol(n, Symbol::Bottom)),
            Formula::Top => String::from_str(symbol(n, Symbol::Top)),
            Formula::Zero => String::from_str(symbol(n, Symbol::Zero)),
        }
    }

    /// Writes the formula with mathematical symbols.
    pub fn pretty(&self) -> (r: String)
        ensures
            r@ == self@.render(Notation::Unicode),
    {
        self.render(Notation::Unicode)
    }

    /// Writes the formula with plain keyboard characters.
    pub fn pretty_ascii(&self) -> (r: String)
        ensures
            r@ == self@.render(Notation::Ascii),
    {
        self.render(Notation::Ascii)
    }

    /// Writes the formula as LaTeX math.
    pub fn pretty_latex(&self) -> (r: String)
        ensures
            r@ == self@.render(Notation::Latex),
    {
        self.render(Notation::Latex)
    }
}

impl Formula {
    /// The outermost connective.
    pub fn head(&self) -> (r: Head)
        ensures
            r == self@.head(),
    {
        match self {
            Formula::Atom(_) => Head::Atom,
            Formula::NegAtom(_) => Head::NegAtom,
            Formula::Tensor(_, _) => Head::Tensor,
            Formula::Par(_, _) => Head::Par,
            Formula::One => Head::One,
            Formula::Bottom => Head::Bottom,
            Formula::With(_, _) => Head::With,
            Formula::Plus(_, _) => Head::Plus,
            Formula::Top => Head::Top,
            Formula::Zero => Head::Zero,
            Formula::OfCourse(_) => Head::OfCourse,
            Formula::WhyNot(_) => Head::WhyNot,
            Formula::Lolli(_, _) => Head::Lolli,
        }
    }

    /// Whether `self` and `other` are an atom and the negated atom of the same
    /// name, in either order.
    pub fn is_dual_atom_of(&self, other: &Formula) -> (r: bool)
        ensures
            r == dual_atoms(self@, other@),
    {
        match (self, other) {
            (Formula::Atom(a), Formula::NegAtom(b)) => *a == *b,
            (Formula::NegAtom(a), Formula::Atom(b)) => *a == *b,
            _ => false,
        }
    }
}

/// Finds the first formula with the given outermost connective.
pub fn find_head(formulas: &Vec<Formula>, h: Head) -> (r: Option<usize>)
    ensures
        r is Some <==> has_head(models(formulas@), h),
        r matches Some(i) ==> i < formulas.len() && formulas[i as int]@.head() == h
            && forall|k: int| 0 <= k < i ==> formulas[k]@.head() != h,
{
    let mut i: usize = 0;
    while i < formulas.len()
        invariant
            i <= formulas.len(),
            forall|k: int| 0 <= k < i ==> formulas[k]@.head() != h,
        decreases formulas.len() - i,
    {
        if formulas[i].head() == h {
            assert(models(formulas@)[i as int].head() == h);
            return Some(i);
        }
        i = i + 1;
    }
    assert forall|k: int| 0 <= k < formulas.len() implies #[trigger] models(formulas@)[k].head()
        != h by {
        assert(formulas[k]@.head() != h);
    }
    None
}

impl SpecFormula {
    /// The text of the formula as a value: the name of its variant, with its
    /// parts in parentheses, a name as a quoted string.
    pub open spec fn debug_text(self) -> Seq<char>
        decreases self,
    {
        match self {
            SpecFormula::Atom(a) => "Atom("@ + quoted(a) + ")"@,
            SpecFormula::NegAtom(a) => "NegAtom("@ + quoted(a) + ")"@,
            SpecFormula::Tensor(a, b) => "Tensor("@ + a.debug_text() + ", "@ + b.debug_text()
                + ")"@,
            SpecFormula::Par(a, b) => "Par("@ + a.debug_text() + ", "@ + b.debug_text() + ")"@,
            SpecFormula::One => "One"@,
            SpecFormula::Bottom => "Bottom"@,
            SpecFormula::With(a, b) => "With("@ + a.debug_text() + ", "@ + b.debug_text() + ")"@,
            SpecFormula::Plus(a, b) => "Plus("@ + a.debug_text() + ", "@ + b.debug_text() + ")"@,
            SpecFormula::Top => "Top"@,
            SpecFormula::Zero => "Zero"@,
            SpecFormula::OfCourse(a) => "OfCourse("@ + a.debug_text() + ")"@,
            SpecFormula::WhyNot(a) => "WhyNot("@ + a.debug_text() + ")"@,
            SpecFormula::Lolli(a, b) => "Lolli("@ + a.debug_text() + ", "@ + b.debug_text()
                + ")"@,
        }
    }
}

/// Writes a value with one part.
fn tagged(tag: &str, inner: String) -> (r: String)
    ensures
        r@ == tag@ + inner@ + ")"@,
{
    let mut out = String::from_str(tag);
    out.append(inner.as_str());
    out.append(")");
    out
}

/// Writes a value with two parts.
fn tagged_pair(tag: &str, left: String, right: String) -> (r: String)
    ensures
        r@ == tag@ + left@ + ", "@ + right@ + ")"@,
{
    let mut out = String::from_str(tag);
    out.append(left.as_str());
    out.append(", ");
    out.append(right.as_str());
    out.append(")");
    out
}

impl Formula {
    /// Writes the formula as a value, as `{:?}` does.
    pub fn debug_text(&self) -> (r: String)
        ensures
            r@ == self@.debug_text(),
        decreases self,
    {
        match self {
            Formula::Atom(a) => tagged("Atom(", quote(a.as_str())),
            Formula::NegAtom(a) => tagged("NegAtom(", quote(a.as_str())),
            Formula::Tensor(a, b) => tagged_pair("Tensor(", a.debug_text(), b.debug_text()),
            Formula::Par(a, b) => tagged_pair("Par(", a.debug_text(), b.debug_text()),
            Formula::One => String::from_str("One"),
            Formula::Bottom => String::from_str("Bottom"),
            Formula::With(a, b) => tagged_pair("With(", a.debug_text(), b.debug_text()),
            Formula::Plus(a, b) => tagged_pair("Plus(", a.debug_text(), b.debug_text()),
            Formula::Top => String::from_str("Top"),
            Formula::Zero => String::from_str("Zero"),
            Formula::OfCourse(a) => tagged("OfCourse(", a.debug_text()),
            Formula::WhyNot(a) => tagged("WhyNot(", a.debug_text()),
            Formula::Lolli(a, b) => tagged_pair("Lolli(", a.debug_text(), b.debug_text()),
        }
    }
}

impl Clone for Formula {
    fn clone(&self) -> (r: Formula)
        ensures
            r == *self,
        decreases self,
    {
        match self {
            Formula::Atom(a) => Formula::Atom(a.clone()),
            Formula::NegAtom(a) => Formula::NegAtom(a.clone()),
            Formula::Tensor(a, b) => Formula::Tensor(
                Box::new((&**a).clone()),
                Box::new((&**b).clone()),
            ),
            Formula::Par(a, b) => Formula::Par(Box::new((&**a).clone()), Box::new((&**b).clone())),
            Formula::One => Formula::One,
            Formula::Bottom => Formula::Bottom,
            Formula::With(a, b) => Formula::With(
                Box::new((&**a).clone()),
                Box::new((&**b).clone()),
            ),
            Formula::Plus(a, b) => Formula::Plus(
                Box::new((&**a).clone()),
                Box::new((&**b).clone()),
            ),
            Formula::Top => Formula::Top,
            Formula::Zero => Formula::Zero,
            Formula::OfCourse(a) => Formula::OfCourse(Box::new((&**a).clone())),
            Formula::WhyNot(a) => Formula::WhyNot(Box::new((&**a).clone())),
            Formula::Lolli(a, b) => Formula::Lolli(
                Box::new((&**a).clone()),
                Box::new((&**b).clone()),
            ),
        }
    }
}

/// The models of a sequence of formulas, in order.
pub open spec fn models(v: Seq<Formula>) -> Seq<SpecFormula> {
    Seq::new(v.len(), |i: int| v[i]@)
}

/// The text of a list of formulas: their texts, separated by a comma and a
/// space.
pub open spec fn list_text(fs: Seq<SpecFormula>, n: Notation) -> Seq<char>
    decreases fs.len(),
{
    if fs.len() == 0 {
        Seq::empty()
    } else if fs.len() == 1 {
        fs[0].render(n)
    } else {
        list_text(fs.drop_last(), n) + ", "@ + fs.last().render(n)
    }
}

/// Writes a list of formulas in a notation, separated by a comma and a space.
pub fn render_list(formulas: &Vec<Formula>, n: Notation) -> (r: String)
    ensures
        r@ == list_text(models(formulas@), n),
{
    let mut out = String::new();
    let mut i: usize = 0;
    while i < formulas.len()
        invariant
            i <= formulas.len(),
            out@ == list_text(models(formulas@).take(i as int), n),
        decreases formulas.len() - i,
    {
        if i > 0 {
            out.append(", ");
        }
        out.append(formulas[i].render(n).as_str());
        proof {
            let all = models(formulas@);
            assert(all.take(i + 1).drop_last() == all.take(i as int));
            assert(all.take(i + 1).last() == formulas[i as int]@);
        }
        i = i + 1;
    }
    proof {
        let all = models(formulas@);
        assert(all.take(i as int) == all);
    }
    out
}

/// Copies a list of formulas.
pub fn clone_formulas(formulas: &Vec<Formula>) -> (r: Vec<Formula>)
    ensures
        r@ == formulas@,
{
    let mut out: Vec<Formula> = Vec::new();
    let mut i: usize = 0;
    while i < formulas.len()
        invariant
            i <= formulas.len(),
            out@ == formulas@.take(i as int),
        decreases formulas.len() - i,
    {
        out.push(formulas[i].clone());
        assert(formulas@.take(i + 1) == formulas@.take(i as int).push(formulas@[i as int]));
        i = i + 1;
    }
    assert(formulas@.take(i as int) == formulas@);
    out
}

/// The models of a sequence with one more formula are the models of the
/// sequence with one more model.
pub proof fn lemma_models_push(v: Seq<Formula>, f: Formula)
    ensures
        models(v.push(f)) == models(v).push(f@),
{
}

/// The sequence `s` with the part from `from` up to `to` replaced by `middle`.
pub open spec fn spliced<T>(s: Seq<T>, from: int, to: int, middle: Seq<T>) -> Seq<T> {
    s.take(from) + middle + s.skip(to)
}

/// Copies a list of formulas with the part from `from` up to `to` replaced by
/// `middle`.
pub fn splice(formulas: &Vec<Formula>, from: usize, to: usize, middle: Vec<Formula>) -> (r: Vec<
    Formula,
>)
    requires
        from <= to <= formulas.len(),
    ensures
        models(r@) == spliced(models(formulas@), from as int, to as int, models(middle@)),
{
    let ghost all = models(formulas@);
    let mut out: Vec<Formula> = Vec::new();
    let mut i: usize = 0;
    while i < from
        invariant
            i <= from <= formulas.len(),
            all == models(formulas@),
            models(out@) == all.take(i as int),
        decreases from - i,
    {
        proof {
            lemma_models_push(out@, formulas[i as int]);
            assert(all.take(i + 1) == all.take(i as int).push(all[i as int]));
        }
        out.push(formulas[i].clone());
        i = i + 1;
    }
    let mut j: usize = 0;
    while j < middle.len()
        invariant
            j <= middle.len(),
            from <= formulas.len(),
            all == models(formulas@),
            models(out@) == all.take(from as int) + models(middle@).take(j as int),
        decreases middle.len() - j,
    {
        proof {
            lemma_models_push(out@, middle[j as int]);
            let mid = models(middle@);
            assert(mid.take(j + 1) == mid.take(j as int).push(mid[j as int]));
        }
        out.push(middle[j].clone());
        j = j + 1;
    }
    assert(models(middle@).take(j as int) == models(middle@));
    let mut k: usize = to;
    while k < formulas.len()
        invariant
            from <= to <= k <= formulas.len(),
            all == models(formulas@),
            models(out@) == all.take(from as int) + models(middle@) + all.subrange(
                to as int,
                k as int,
            ),
        decreases formulas.len() - k,
    {
        proof {
            lemma_models_push(out@, formulas[k as int]);
            assert(all.subrange(to as int, k + 1) == all.subrange(to as int, k as int).push(
                all[k as int],
            ));
        }
        out.push(formulas[k].clone());
        k = k + 1;
    }
    assert(all.subrange(to as int, k as int) == all.skip(to as int));
    out
}

/// Negation is an involution on every formula built without linear implication,
/// and on no other formula.
pub proof fn lemma_negate_involutive(f: SpecFormula)
    ensures
        f.negate().negate() == f <==> f.lolli_free(),
    decreases f,
{
    match f {
        SpecFormula::Tensor(a, b) => {
            lemma_negate_involutive(*a);
            lemma_negate_involutive(*b);
        },
        SpecFormula::Par(a, b) => {
            lemma_negate_involutive(*a);
            lemma_negate_involutive(*b);
        },
        SpecFormula::With(a, b) => {
            lemma_negate_involutive(*a);
            lemma_negate_involutive(*b);
        },
        SpecFormula::Plus(a, b) => {
            lemma_negate_involutive(*a);
            lemma_negate_involutive(*b);
        },
        SpecFormula::OfCourse(a) => {
            lemma_negate_involutive(*a);
        },
        SpecFormula::WhyNot(a) => {
            lemma_negate_involutive(*a);
        },
        _ => {},
    }
}

/// The De Morgan dualities: negation exchanges tensor with par, with with plus,
/// one with bottom, top with zero, of course with why not, and an atom with its
/// negated atom, negating the parts.
pub proof fn lemma_de_morgan(a: SpecFormula, b: SpecFormula, name: Seq<char>)
    ensures
        SpecFormula::Tensor(Box::new(a), Box::new(b)).negate() == SpecFormula::Par(
            Box::new(a.negate()),
            Box::new(b.negate()),
        ),
        SpecFormula::Par(Box::new(a), Box::new(b)).negate() == SpecFormula::Tensor(
            Box::new(a.negate()),
            Box::new(b.negate()),
        ),
        SpecFormula::With(Box::new(a), Box::new(b)).negate() == SpecFormula::Plus(
            Box::new(a.negate()),
            Box::new(b.negate()),
        ),
        SpecFormula::Plus(Box::new(a), Box::new(b)).negate() == SpecFormula::With(
            Box::new(a.negate()),
            Box::new(b.negate()),
        ),
        SpecFormula::One.negate() == SpecFormula::Bottom,
        SpecFormula::Bottom.negate() == SpecFormula::One,
        SpecFormula::Top.negate() == SpecFormula::Zero,
        SpecFormula::Zero.negate() == SpecFormula::Top,
        SpecFormula::OfCourse(Box::new(a)).negate() == SpecFormula::WhyNot(Box::new(a.negate())),
        SpecFormula::WhyNot(Box::new(a)).negate() == SpecFormula::OfCourse(Box::new(a.negate())),
        SpecFormula::Atom(name).negate() == SpecFormula::NegAtom(name),
        SpecFormula::NegAtom(name).negate() == SpecFormula::Atom(name),
{
}

/// A desugared formula holds no linear implication.
pub proof fn lemma_desugar_lolli_free(f: SpecFormula)
    ensures
        f.desugar().lolli_free(),
    decreases f.size(), 0nat,
{
    match f {
        SpecFormula::Lolli(a, b) => {
            a.lemma_negate_keeps_size();
            lemma_desugar_lolli_free(a.negate());
            lemma_desugar_lolli_free(*b);
            assert(a.negate_then_desugar() == a.negate().desugar());
        },
        SpecFormula::Tensor(a, b) => {
            lemma_desugar_lolli_free(*a);
            lemma_desugar_lolli_free(*b);
        },
        SpecFormula::Par(a, b) => {
            lemma_desugar_lolli_free(*a);
            lemma_desugar_lolli_free(*b);
        },
        SpecFormula::With(a, b) => {
            lemma_desugar_lolli_free(*a);
            lemma_desugar_lolli_free(*b);
        },
        SpecFormula::Plus(a, b) => {
            lemma_desugar_lolli_free(*a);
            lemma_desugar_lolli_free(*b);
        },
        SpecFormula::OfCourse(a) => {
            lemma_desugar_lolli_free(*a);
        },
        SpecFormula::WhyNot(a) => {
            lemma_desugar_lolli_free(*a);
        },
        _ => {},
    }
}

} // verus!
