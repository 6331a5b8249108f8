//! Proof trees as indented text.

use crate::derivation::{Proof, SpecProof};
use crate::formula::{list_text, render_list, Notation};
use crate::text::{join_lines, joined_lines, push_line, texts};
use vstd::prelude::*;
use vstd::string::*;

verus! {

/// Writes proof trees as text: each node under its premises, which are
/// indented, with a line and the rule between them.
#[derive(Debug)]
pub struct TreeRenderer {
    /// Whether mathematical symbols are used, in place of plain keyboard
    /// characters.
    pub unicode: bool,
}

/// The text `piece`, `n` times.
pub open spec fn repeated(piece: Seq<char>, n: nat) -> Seq<char>
    decreases n,
{
    if n == 0 {
        Seq::empty()
    } else {
        repeated(piece, (n - 1) as nat) + piece
    }
}

/// The notation of the formulas.
pub open spec fn notation(unicode: bool) -> Notation {
    if unicode {
        Notation::Unicode
    } else {
        Notation::Ascii
    }
}

/// The line of a conclusion: the indent, the turnstile and the formulas.
pub open spec fn conclusion_line(p: SpecProof, indent: Seq<char>, unicode: bool) -> Seq<char> {
    indent + (if unicode {
        "⊢ "@
    } else {
        "|- "@
    }) + list_text(p.conclusion, notation(unicode))
}

/// The line between the premises and the conclusion: the indent, a rule as
/// long as the formulas of the conclusion and at least twenty long, two spaces
/// and the inference rule.
pub open spec fn rule_line(p: SpecProof, indent: Seq<char>, unicode: bool) -> Seq<char> {
    let width = list_text(p.conclusion, notation(unicode)).len();
    indent + repeated(
        if unicode {
            "─"@
        } else {
            "-"@
        },
        if width > 20 {
            width
        } else {
            20
        },
    ) + "  "@ + p.rule.debug_text()
}

/// The lines of a proof tree at an indent: the lines of its premises, two
/// spaces deeper, then the rule line where it has premises, then its
/// conclusion.
pub open spec fn tree_text(p: SpecProof, indent: Seq<char>, unicode: bool) -> Seq<Seq<char>>
    decreases p, p.premises.len() + 1,
{
    premises_text(p, 0, indent, unicode) + if p.premises.len() > 0 {
        seq![rule_line(p, indent, unicode), conclusion_line(p, indent, unicode)]
    } else {
        seq![conclusion_line(p, indent, unicode)]
    }
}

/// The lines of the premises of `p` from index `k` on.
pub open spec fn premises_text(p: SpecProof, k: nat, indent: Seq<char>, unicode: bool) -> Seq<
    Seq<char>,
>
    decreases p, p.premises.len() - k,
{
    if k >= p.premises.len() {
        Seq::empty()
    } else {
        tree_text(p.premises[k as int], indent + "  "@, unicode) + premises_text(
            p,
            k + 1,
            indent,
            unicode,
        )
    }
}

impl Default for TreeRenderer {
    fn default() -> (r: TreeRenderer)
        ensures
            !r.unicode,
    {
        TreeRenderer { unicode: false }
    }
}

impl TreeRenderer {
    /// Creates a renderer that writes plain keyboard characters.
    pub fn new() -> (r: TreeRenderer)
        ensures
            !r.unicode,
    {
        TreeRenderer { unicode: false }
    }

    /// Writes a proof tree as text.
    pub fn render(&self, p: &Proof) -> (r: String)
        ensures
            r@ == joined_lines(tree_text(p@, Seq::empty(), self.unicode)),
    {
        let mut lines: Vec<String> = Vec::new();
        assert(texts(lines@) == Seq::<Seq<char>>::empty());
        let indent = String::new();
        self.render_tree(p, &indent, &mut lines);
        assert(Seq::<Seq<char>>::empty() + tree_text(p@, Seq::empty(), self.unicode)
            == tree_text(p@, Seq::empty(), self.unicode));
        join_lines(&lines)
    }

    /// Adds the lines of a proof tree at an indent.
    fn render_tree(&self, p: &Proof, indent: &String, lines: &mut Vec<String>)
        ensures
            texts(final(lines)@) == texts(old(lines)@) + tree_text(p@, indent@, self.unicode),
        decreases p,
    {
        proof {
            p.lemma_model();
        }
        let ghost start = texts(lines@);
        let ghost unicode = self.unicode;
        let mut deeper = indent.clone();
        deeper.append("  ");
        let mut k: usize = 0;
        while k < p.premises.len()
            invariant
                k <= p.premises.len(),
                unicode == self.unicode,
                deeper@ == indent@ + "  "@,
                p@.premises.len() == p.premises.len(),
                forall|i: int|
                    0 <= i < p.premises.len() ==> #[trigger] p@.premises[i] == p.premises[i]@,
                texts(lines@) + premises_text(p@, k as nat, indent@, unicode) == start
                    + premises_text(p@, 0, indent@, unicode),
            decreases p.premises.len() - k,
        {
            let ghost before = texts(lines@);
            self.render_tree(&p.premises[k], &deeper, lines);
            proof {
                assert(p@.premises[k as int] == p.premises[k as int]@);
                let here = tree_text(p@.premises[k as int], deeper@, unicode);
                let rest = premises_text(p@, (k + 1) as nat, indent@, unicode);
                assert((before + here) + rest == before + (here + rest));
            }
            k = k + 1;
        }
        proof {
            assert(texts(lines@) + Seq::<Seq<char>>::empty() == texts(lines@));
        }
        let formulas = if self.unicode {
            render_list(&p.conclusion.linear, Notation::Unicode)
        } else {
            render_list(&p.conclusion.linear, Notation::Ascii)
        };
        if p.premises.len() > 0 {
            let width = formulas.as_str().unicode_len();
            let mut line = indent.clone();
            line.append(
                repeat(
                    if self.unicode {
                        "─"
                    } else {
                        "-"
                    },
                    if width > 20 {
                        width
                    } else {
                        20
                    },
                ).as_str(),
            );
            line.append("  ");
            line.append(p.rule.debug_text().as_str());
            push_line(lines, line);
        }
        let mut line = indent.clone();
        line.append(
            if self.unicode {
                "⊢ "
            } else {
                "|- "
            },
        );
        line.append(formulas.as_str());
        push_line(lines, line);
        proof {
            let sofar = start + premises_text(p@, 0, indent@, unicode);
            let rule = rule_line(p@, indent@, unicode);
            let conclusion = conclusion_line(p@, indent@, unicode);
            if p.premises.len() > 0 {
                assert(sofar.push(rule).push(conclusion) == start + (premises_text(
                    p@,
                    0,
                    indent@,
                    unicode,
                ) + seq![rule, conclusion]));
            } else {
                assert(sofar.push(conclusion) == start + (premises_text(p@, 0, indent@, unicode)
                    + seq![conclusion]));
            }
        }
    }
}

/// Writes a text `n` times.
fn repeat(piece: &str, n: usize) -> (r: String)
    ensures
        r@ == repeated(piece@, n as nat),
{
    let mut out = String::new();
    let mut i: usize = 0;
    while i < n
        invariant
            i <= n,
            out@ == repeated(piece@, i as nat),
        decreases n - i,
    {
        out.append(piece);
        i = i + 1;
    }
    out
}

/// Writes a proof tree as text in plain keyboard characters.
pub fn render_ascii(p: &Proof) -> (r: String)
    ensures
        r@ == joined_lines(tree_text(p@, Seq::empty(), false)),
{
    TreeRenderer::new().render(p)
}

/// Writes a proof tree as text with mathematical symbols.
pub fn render_unicode(p: &Proof) -> (r: String)
    ensures
        r@ == joined_lines(tree_text(p@, Seq::empty(), true)),
{
    let mut renderer = TreeRenderer::new();
    renderer.unicode = true;
    renderer.render(p)
}

} // verus!
