//! Proof trees as LaTeX, for the bussproofs package.

use crate::derivation::{Proof, Rule, SpecProof, SpecRule};
use crate::formula::{list_text, render_list, Notation};
use crate::text::{join_lines, joined_lines, push_line, push_text, texts};
use vstd::prelude::*;
use vstd::string::*;

verus! {

/// Writes proof trees as LaTeX.
#[derive(Debug)]
pub struct LatexRenderer {
    /// Whether the output starts with the packages that it needs.
    pub include_preamble: bool,
    /// Whether rule labels are short.
    pub short_labels: bool,
}

/// The label of a rule, long or short.
pub open spec fn rule_label(rule: SpecRule, short: bool) -> Seq<char> {
    if short {
        match rule {
            SpecRule::Axiom => "ax"@,
            SpecRule::Cut(_) => "cut"@,
            SpecRule::OneIntro => "$1$"@,
            SpecRule::BottomIntro => "$\\bot$"@,
            SpecRule::TopIntro => "$\\top$"@,
            SpecRule::TensorIntro => "$\\otimes$"@,
            SpecRule::ParIntro => "$\\parr$"@,
            SpecRule::WithIntro => "$\\with$"@,
            SpecRule::PlusIntroLeft => "$\\oplus_L$"@,
            SpecRule::PlusIntroRight => "$\\oplus_R$"@,
            SpecRule::OfCourseIntro => "$!$"@,
            SpecRule::WhyNotIntro => "$?$"@,
            SpecRule::Weakening => "W"@,
            SpecRule::Contraction => "C"@,
            SpecRule::Dereliction => "D"@,
            SpecRule::FocusPositive(_) => "F+"@,
            SpecRule::FocusNegative(_) => "F-"@,
            SpecRule::Blur => "B"@,
        }
    } else {
        match rule {
            SpecRule::Axiom => "axiom"@,
            SpecRule::Cut(_) => "cut"@,
            SpecRule::OneIntro => "$1$-intro"@,
            SpecRule::BottomIntro => "$\\bot$-intro"@,
            SpecRule::TopIntro => "$\\top$-intro"@,
            SpecRule::TensorIntro => "$\\otimes$-intro"@,
            SpecRule::ParIntro => "$\\parr$-intro"@,
            SpecRule::WithIntro => "$\\with$-intro"@,
            SpecRule::PlusIntroLeft => "$\\oplus$-intro$_L$"@,
            SpecRule::PlusIntroRight => "$\\oplus$-intro$_R$"@,
            SpecRule::OfCourseIntro => "$!$-intro"@,
            SpecRule::WhyNotIntro => "$?$-intro"@,
            SpecRule::Weakening => "weakening"@,
            SpecRule::Contraction => "contraction"@,
            SpecRule::Dereliction => "dereliction"@,
            SpecRule::FocusPositive(_) => "focus+"@,
            SpecRule::FocusNegative(_) => "focus-"@,
            SpecRule::Blur => "blur"@,
        }
    }
}

/// The start of the line that concludes a node with `premises` premises.
pub open spec fn inference_start(premises: nat) -> Seq<char> {
    if premises == 0 {
        "  \\AxiomC{$\\vdash "@
    } else if premises == 1 {
        "  \\UnaryInfC{$\\vdash "@
    } else if premises == 2 {
        "  \\BinaryInfC{$\\vdash "@
    } else if premises == 3 {
        "  \\TrinaryInfC{$\\vdash "@
    } else {
        "  \\QuaternaryInfC{$\\vdash "@
    }
}

/// The lines of a node: for a node with premises the label of its rule, then
/// for every node the inference that concludes it.
pub open spec fn node_lines(p: SpecProof, short: bool) -> Seq<Seq<char>> {
    let conclusion = inference_start(p.premises.len()) + list_text(p.conclusion, Notation::Latex)
        + "$}"@;
    if p.premises.len() == 0 {
        seq![conclusion]
    } else {
        seq!["  \\RightLabel{\\scriptsize "@ + rule_label(p.rule, short) + "}"@, conclusion]
    }
}

/// The lines of a proof tree: those of its premises, in order, then those of
/// its root.
pub open spec fn tree_lines(p: SpecProof, short: bool) -> Seq<Seq<char>>
    decreases p, p.premises.len() + 1,
{
    premises_lines(p, 0, short) + node_lines(p, short)
}

/// The lines of the premises of `p` from index `k` on.
pub open spec fn premises_lines(p: SpecProof, k: nat, short: bool) -> Seq<Seq<char>>
    decreases p, p.premises.len() - k,
{
    if k >= p.premises.len() {
        Seq::empty()
    } else {
        tree_lines(p.premises[k as int], short) + premises_lines(p, k + 1, short)
    }
}

/// The lines that name the packages needed, and an empty line.
pub open spec fn preamble() -> Seq<Seq<char>> {
    seq!["\\usepackage{bussproofs}"@, "\\usepackage{amsmath}"@, "\\usepackage{amssymb}"@, ""@]
}

/// The lines of a proof tree in its environment.
pub open spec fn environment(p: SpecProof, short: bool) -> Seq<Seq<char>> {
    seq!["\\begin{prooftree}"@] + tree_lines(p, short) + seq!["\\end{prooftree}"@]
}

/// The lines of a whole document with one proof tree.
pub open spec fn document(p: SpecProof, short: bool) -> Seq<Seq<char>> {
    seq!["\\documentclass{article}"@] + preamble() + seq!["\\begin{document}"@, ""@]
        + environment(p, short) + seq![""@, "\\end{document}"@]
}

impl Default for LatexRenderer {
    fn default() -> (r: LatexRenderer)
        ensures
            !r.include_preamble,
            !r.short_labels,
    {
        LatexRenderer { include_preamble: false, short_labels: false }
    }
}

impl LatexRenderer {
    /// Creates a renderer without preamble, with long labels.
    pub fn new() -> (r: LatexRenderer)
        ensures
            !r.include_preamble,
            !r.short_labels,
    {
        LatexRenderer { include_preamble: false, short_labels: false }
    }

    /// Writes a proof tree as a prooftree environment, after the preamble
    /// where it is asked for.
    pub fn render(&self, p: &Proof) -> (r: String)
        ensures
            r@ == joined_lines(
                if self.include_preamble {
                    preamble() + environment(p@, self.short_labels)
                } else {
                    environment(p@, self.short_labels)
                },
            ),
    {
        let mut lines: Vec<String> = Vec::new();
        assert(texts(lines@) == Seq::<Seq<char>>::empty());
        if self.include_preamble {
            self.push_preamble(&mut lines);
        }
        let ghost head = texts(lines@);
        self.push_environment(p, &mut lines);
        assert(Seq::<Seq<char>>::empty() + environment(p@, self.short_labels) == environment(
            p@,
            self.short_labels,
        ));
        join_lines(&lines)
    }

    /// Writes a whole document with one proof tree.
    pub fn render_document(&self, p: &Proof) -> (r: String)
        ensures
            r@ == joined_lines(document(p@, self.short_labels)),
    {
        let mut lines: Vec<String> = Vec::new();
        assert(texts(lines@) == Seq::<Seq<char>>::empty());
        push_text(&mut lines, "\\documentclass{article}");
        self.push_preamble(&mut lines);
        push_text(&mut lines, "\\begin{document}");
        push_text(&mut lines, "");
        self.push_environment(p, &mut lines);
        push_text(&mut lines, "");
        push_text(&mut lines, "\\end{document}");
        assert(texts(lines@) == document(p@, self.short_labels));
        join_lines(&lines)
    }

    fn push_preamble(&self, lines: &mut Vec<String>)
        ensures
            texts(final(lines)@) == texts(old(lines)@) + preamble(),
    {
        push_text(lines, "\\usepackage{bussproofs}");
        push_text(lines, "\\usepackage{amsmath}");
        push_text(lines, "\\usepackage{amssymb}");
        push_text(lines, "");
    }

    fn push_environment(&self, p: &Proof, lines: &mut Vec<String>)
        ensures
            texts(final(lines)@) == texts(old(lines)@) + environment(p@, self.short_labels),
    {
        push_text(lines, "\\begin{prooftree}");
        self.render_proof(p, lines);
        push_text(lines, "\\end{prooftree}");
    }

    /// Adds the lines of a proof tree.
    pub fn render_proof(&self, p: &Proof, lines: &mut Vec<String>)
        ensures
            texts(final(lines)@) == texts(old(lines)@) + tree_lines(p@, self.short_labels),
        decreases p,
    {
        proof {
            p.lemma_model();
        }
        let ghost start = texts(lines@);
        let ghost short = self.short_labels;
        let mut k: usize = 0;
        while k < p.premises.len()
            invariant
                k <= p.premises.len(),
                short == self.short_labels,
                p@.premises.len() == p.premises.len(),
                forall|i: int|
                    0 <= i < p.premises.len() ==> #[trigger] p@.premises[i] == p.premises[i]@,
                texts(lines@) + premises_lines(p@, k as nat, short) == start + premises_lines(
                    p@,
                    0,
                    short,
                ),
            decreases p.premises.len() - k,
        {
            let ghost before = texts(lines@);
            self.render_proof(&p.premises[k], lines);
            proof {
                assert(p@.premises[k as int] == p.premises[k as int]@);
                let here = tree_lines(p@.premises[k as int], short);
                let rest = premises_lines(p@, (k + 1) as nat, short);
                assert((before + here) + rest == before + (here + rest));
            }
            k = k + 1;
        }
        proof {
            assert(texts(lines@) + Seq::<Seq<char>>::empty() == texts(lines@));
        }
        let conclusion = self.format_sequent(p);
        let mut line = String::from_str(inference_name(p.premises.len()));
        line.append(conclusion.as_str());
        line.append("$}");
        if p.premises.len() > 0 {
            let mut label = String::from_str("  \\RightLabel{\\scriptsize ");
            label.append(self.format_rule(&p.rule).as_str());
            label.append("}");
            push_line(lines, label);
        }
        push_line(lines, line);
        proof {
            let sofar = start + premises_lines(p@, 0, short);
            let node = node_lines(p@, short);
            if p.premises.len() == 0 {
                assert(sofar.push(node[0]) == sofar + node);
            } else {
                assert(sofar.push(node[0]).push(node[1]) == sofar + node);
            }
            assert((start + premises_lines(p@, 0, short)) + node == start + (premises_lines(
                p@,
                0,
                short,
            ) + node));
        }
    }

    /// Writes the conclusion of the root of a proof tree as LaTeX math.
    pub fn format_sequent(&self, p: &Proof) -> (r: String)
        ensures
            r@ == list_text(p@.conclusion, Notation::Latex),
    {
        proof {
            p.lemma_model();
        }
        render_list(&p.conclusion.linear, Notation::Latex)
    }

    /// Writes the label of a rule.
    pub fn format_rule(&self, rule: &Rule) -> (r: String)
        ensures
            r@ == rule_label(rule@, self.short_labels),
    {
        if self.short_labels {
            match rule {
                Rule::Axiom => String::from_str("ax"),
                Rule::Cut(_) => String::from_str("cut"),
                Rule::OneIntro => String::from_str("$1$"),
                Rule::BottomIntro => String::from_str("$\\bot$"),
                Rule::TopIntro => String::from_str("$\\top$"),
                Rule::TensorIntro => String::from_str("$\\otimes$"),
                Rule::ParIntro => String::from_str("$\\parr$"),
                Rule::WithIntro => String::from_str("$\\with$"),
                Rule::PlusIntroLeft => String::from_str("$\\oplus_L$"),
                Rule::PlusIntroRight => String::from_str("$\\oplus_R$"),
                Rule::OfCourseIntro => String::from_str("$!$"),
                Rule::WhyNotIntro => String::from_str("$?$"),
                Rule::Weakening => String::from_str("W"),
                Rule::Contraction => String::from_str("C"),
                Rule::Dereliction => String::from_str("D"),
                Rule::FocusPositive(_) => String::from_str("F+"),
                Rule::FocusNegative(_) => String::from_str("F-"),
                Rule::Blur => String::from_str("B"),
            }
        } else {
            match rule {
                Rule::Axiom => String::from_str("axiom"),
                Rule::Cut(_) => String::from_str("cut"),
                Rule::OneIntro => String::from_str("$1$-intro"),
                Rule::BottomIntro => String::from_str("$\\bot$-intro"),
                Rule::TopIntro => String::from_str("$\\top$-intro"),
                Rule::TensorIntro => String::from_str("$\\otimes$-intro"),
                Rule::ParIntro => String::from_str("$\\parr$-intro"),
                Rule::WithIntro => String::from_str("$\\with$-intro"),
                Rule::PlusIntroLeft => String::from_str("$\\oplus$-intro$_L$"),
                Rule::PlusIntroRight => String::from_str("$\\oplus$-intro$_R$"),
                Rule::OfCourseIntro => String::from_str("$!$-intro"),
                Rule::WhyNotIntro => String::from_str("$?$-intro"),
                Rule::Weakening => String::from_str("weakening"),
                Rule::Contraction => String::from_str("contraction"),
                Rule::Dereliction => String::from_str("dereliction"),
                Rule::FocusPositive(_) => String::from_str("focus+"),
                Rule::FocusNegative(_) => String::from_str("focus-"),
                Rule::Blur => String::from_str("blur"),
            }
        }
    }
}

/// The start of the line that concludes a node with `premises` premises.
fn inference_name(premises: usize) -> (r: &'static str)
    ensures
        r@ == inference_start(premises as nat),
{
    if premises == 0 {
        "  \\AxiomC{$\\vdash "
    } else if premises == 1 {
        "  \\UnaryInfC{$\\vdash "
    } else if premises == 2 {
        "  \\BinaryInfC{$\\vdash "
    } else if premises == 3 {
        "  \\TrinaryInfC{$\\vdash "
    } else {
        "  \\QuaternaryInfC{$\\vdash "
    }
}

/// Writes a proof tree as LaTeX.
pub fn render_latex(p: &Proof) -> (r: String)
    ensures
        r@ == joined_lines(environment(p@, false)),
{
    LatexRenderer::new().render(p)
}

/// The line of a node in a bare tree: the inference that concludes it, with
/// the rule in a comment where the node has premises.
pub open spec fn bare_node_line(p: SpecProof) -> Seq<char> {
    let conclusion = (if p.premises.len() <= 2 {
        inference_start(p.premises.len())
    } else {
        inference_start(3)
    }) + list_text(p.conclusion, Notation::Latex) + "$}"@;
    if p.premises.len() == 0 {
        conclusion
    } else {
        conclusion + " % "@ + p.rule.debug_text()
    }
}

/// The lines of a bare tree: those of its premises, in order, then the line of
/// its root.
pub open spec fn bare_lines(p: SpecProof) -> Seq<Seq<char>>
    decreases p, p.premises.len() + 1,
{
    bare_premises_lines(p, 0).push(bare_node_line(p))
}

/// The lines of the premises of `p` from index `k` on, in a bare tree.
pub open spec fn bare_premises_lines(p: SpecProof, k: nat) -> Seq<Seq<char>>
    decreases p, p.premises.len() - k,
{
    if k >= p.premises.len() {
        Seq::empty()
    } else {
        bare_lines(p.premises[k as int]) + bare_premises_lines(p, k + 1)
    }
}

/// Writes a proof tree as a prooftree environment without labels: the rule of
/// each inference stands in a comment after it. The depth is not used.
pub fn proof_to_latex(p: &Proof, _depth: usize) -> (r: String)
    ensures
        r@ == joined_lines(
            seq!["\\begin{prooftree}"@] + bare_lines(p@) + seq!["\\end{prooftree}"@],
        ),
{
    let mut lines: Vec<String> = Vec::new();
    assert(texts(lines@) == Seq::<Seq<char>>::empty());
    push_text(&mut lines, "\\begin{prooftree}");
    proof_to_latex_inner(p, &mut lines);
    push_text(&mut lines, "\\end{prooftree}");
    assert(texts(lines@) == seq!["\\begin{prooftree}"@] + bare_lines(p@) + seq![
        "\\end{prooftree}"@,
    ]);
    join_lines(&lines)
}

/// Adds the lines of a bare tree.
pub fn proof_to_latex_inner(p: &Proof, lines: &mut Vec<String>)
    ensures
        texts(final(lines)@) == texts(old(lines)@) + bare_lines(p@),
    decreases p,
{
    proof {
        p.lemma_model();
    }
    let ghost start = texts(lines@);
    let mut k: usize = 0;
    while k < p.premises.len()
        invariant
            k <= p.premises.len(),
            p@.premises.len() == p.premises.len(),
            forall|i: int|
                0 <= i < p.premises.len() ==> #[trigger] p@.premises[i] == p.premises[i]@,
            texts(lines@) + bare_premises_lines(p@, k as nat) == start + bare_premises_lines(
                p@,
                0,
            ),
        decreases p.premises.len() - k,
    {
        let ghost before = texts(lines@);
        proof_to_latex_inner(&p.premises[k], lines);
        proof {
            assert(p@.premises[k as int] == p.premises[k as int]@);
            let here = bare_lines(p@.premises[k as int]);
            let rest = bare_premises_lines(p@, (k + 1) as nat);
            assert((before + here) + rest == before + (here + rest));
        }
        k = k + 1;
    }
    proof {
        assert(texts(lines@) + Seq::<Seq<char>>::empty() == texts(lines@));
    }
    let mut line = String::from_str(
        inference_name(
            if p.premises.len() <= 2 {
                p.premises.len()
            } else {
                3
            },
        ),
    );
    line.append(render_list(&p.conclusion.linear, Notation::Latex).as_str());
    line.append("$}");
    if p.premises.len() > 0 {
        line.append(" % ");
        line.append(p.rule.debug_text().as_str());
    }
    push_line(lines, line);
    proof {
        let sofar = start + bare_premises_lines(p@, 0);
        assert(sofar.push(bare_node_line(p@)) == start + bare_premises_lines(p@, 0).push(
            bare_node_line(p@),
        ));
    }
}

} // verus!
