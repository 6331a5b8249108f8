//! Proof trees as graphs in the DOT language of Graphviz.

use crate::counter::{decimal, Counter};
use crate::derivation::{Proof, SpecProof};
use crate::formula::{list_text, render_list, Notation};
use crate::text::{escape_quotes, escaped_quotes, join_lines, joined_lines, push_line, push_text, texts};
use vstd::prelude::*;
use vstd::string::*;

verus! {

/// The direction in which a graph is laid out.
#[derive(Debug, Clone, Copy, PartialEq, Eq)]
pub enum Direction {
    /// From the top to the bottom.
    TopToBottom,
    /// From the bottom to the top, as proofs are read.
    BottomToTop,
    /// From the left to the right.
    LeftToRight,
    /// From the right to the left.
    RightToLeft,
}

impl Direction {
    /// The name of the direction in DOT.
    pub open spec fn text(self) -> Seq<char> {
        match self {
            Direction::TopToBottom => "TB"@,
            Direction::BottomToTop => "BT"@,
            Direction::LeftToRight => "LR"@,
            Direction::RightToLeft => "RL"@,
        }
    }

    /// The name of the direction in DOT.
    pub fn as_str(&self) -> (r: &'static str)
        ensures
            r@ == self.text(),
    {
        match self {
            Direction::TopToBottom => "TB",
            Direction::BottomToTop => "BT",
            Direction::LeftToRight => "LR",
            Direction::RightToLeft => "RL",
        }
    }
}

/// The shape of the nodes of a graph.
#[derive(Debug, Clone, Copy, PartialEq, Eq)]
pub enum NodeShape {
    /// A rectangle.
    Box,
    /// A rectangle with rounded corners.
    RoundedBox,
    /// An ellipse.
    Ellipse,
    /// No border.
    Plain,
}

impl NodeShape {
    /// The attributes of the shape in DOT.
    pub open spec fn text(self) -> Seq<char> {
        match self {
            NodeShape::Box => "box"@,
            NodeShape::RoundedBox => "box, style=rounded"@,
            NodeShape::Ellipse => "ellipse"@,
            NodeShape::Plain => "plain"@,
        }
    }

    /// The attributes of the shape in DOT.
    pub fn as_str(&self) -> (r: &'static str)
        ensures
            r@ == self.text(),
    {
        match self {
            NodeShape::Box => "box",
            NodeShape::RoundedBox => "box, style=rounded",
            NodeShape::Ellipse => "ellipse",
            NodeShape::Plain => "plain",
        }
    }
}

/// Writes proof trees as graphs.
#[derive(Debug)]
pub struct DotRenderer {
    /// The direction of the layout.
    pub direction: Direction,
    /// The shape of the nodes.
    pub node_shape: NodeShape,
    /// The name of the font.
    pub font: String,
    /// Whether a node shows the rule that concludes it.
    pub show_rules: bool,
}

/// What the nodes of a graph show.
#[derive(Debug, Clone, Copy, PartialEq, Eq)]
pub enum Labels {
    /// The conclusion, after a turnstile.
    Conclusions,
    /// The conclusion, after a turnstile, and the rule in parentheses on a
    /// second line.
    ConclusionsAndRules,
    /// The rule alone.
    Rules,
    /// As with conclusions and rules, but the rule is written as it is, with
    /// its double quotes.
    ConclusionsAndRawRules,
}

/// The label of the root of a proof tree. A label that shows the conclusion
/// has a backslash before each double quote.
pub open spec fn label_text(p: SpecProof, labels: Labels) -> Seq<char> {
    match labels {
        Labels::Conclusions => escaped_quotes(
            "⊢ "@ + list_text(p.conclusion, Notation::Unicode),
        ),
        Labels::ConclusionsAndRules => escaped_quotes(
            "⊢ "@ + list_text(p.conclusion, Notation::Unicode) + "\\n("@ + p.rule.debug_text()
                + ")"@,
        ),
        Labels::Rules => p.rule.debug_text(),
        Labels::ConclusionsAndRawRules => "⊢ "@ + escaped_quotes(
            list_text(p.conclusion, Notation::Unicode),
        ) + "\\n("@ + p.rule.debug_text() + ")"@,
    }
}

/// The line that declares the node `id` with a label.
pub open spec fn node_line(id: nat, label: Seq<char>) -> Seq<char> {
    "  n"@ + decimal(id) + " [label=\""@ + label + "\"];"@
}

/// The line of the edge from the node `child` to the node `parent`.
pub open spec fn edge_line(child: nat, parent: nat) -> Seq<char> {
    "  n"@ + decimal(child) + " -> n"@ + decimal(parent) + ";"@
}

/// The lines of a proof tree whose root gets the number `id`, and the first
/// number that the tree does not use: the node of the root, then for each
/// premise, in order, the lines of its tree and the edge from its root to
/// the root. The nodes are numbered in this order.
pub open spec fn graph_lines(p: SpecProof, id: nat, labels: Labels) -> (Seq<Seq<char>>, nat)
    decreases p, p.premises.len() + 1,
{
    let rest = premises_lines(p, 0, id, id + 1, labels);
    (seq![node_line(id, label_text(p, labels))] + rest.0, rest.1)
}

/// The lines of the premises of `p` from index `k` on, where the root of `p`
/// has the number `parent` and `next` is the first number not used yet.
pub open spec fn premises_lines(p: SpecProof, k: nat, parent: nat, next: nat, labels: Labels) -> (
    Seq<Seq<char>>,
    nat,
)
    decreases p, p.premises.len() - k,
{
    if k >= p.premises.len() {
        (Seq::empty(), next)
    } else {
        let child = graph_lines(p.premises[k as int], next, labels);
        let rest = premises_lines(p, k + 1, parent, child.1, labels);
        (child.0 + seq![edge_line(next, parent)] + rest.0, rest.1)
    }
}

/// The lines of the graph of a proof tree.
pub open spec fn proof_graph(
    p: SpecProof,
    direction: Direction,
    shape: NodeShape,
    font: Seq<char>,
    show_rules: bool,
) -> Seq<Seq<char>> {
    seq![
        "digraph proof {"@,
        "  rankdir="@ + direction.text() + ";"@,
        "  node [shape="@ + shape.text() + ", fontname=\""@ + font + "\"];"@,
        "  edge [arrowhead=none];"@,
        ""@,
    ] + graph_lines(
        p,
        0,
        if show_rules {
            Labels::ConclusionsAndRules
        } else {
            Labels::Conclusions
        },
    ).0 + seq!["}"@]
}

/// The lines of the proof net of a proof tree: the graph of its rules.
pub open spec fn proof_net(p: SpecProof) -> Seq<Seq<char>> {
    seq![
        "digraph proof_net {"@,
        "  rankdir=TB;"@,
        "  node [shape=circle, width=0.3];"@,
        "  edge [dir=none];"@,
        ""@,
    ] + graph_lines(p, 0, Labels::Rules).0 + seq!["}"@]
}

impl Default for DotRenderer {
    fn default() -> (r: DotRenderer)
        ensures
            r.direction == Direction::BottomToTop,
            r.node_shape == NodeShape::Box,
            r.font@ == "Helvetica"@,
            r.show_rules,
    {
        DotRenderer {
            direction: Direction::BottomToTop,
            node_shape: NodeShape::Box,
            font: String::from_str("Helvetica"),
            show_rules: true,
        }
    }
}

impl DotRenderer {
    /// Creates a renderer that lays out from the bottom to the top, with boxes
    /// in Helvetica that show the rules.
    pub fn new() -> (r: DotRenderer)
        ensures
            r.direction == Direction::BottomToTop,
            r.node_shape == NodeShape::Box,
            r.font@ == "Helvetica"@,
            r.show_rules,
    {
        DotRenderer {
            direction: Direction::BottomToTop,
            node_shape: NodeShape::Box,
            font: String::from_str("Helvetica"),
            show_rules: true,
        }
    }

    /// Writes a proof tree as a graph: a node for each node of the tree and an
    /// edge from each premise to its conclusion.
    pub fn render(&self, p: &Proof) -> (r: String)
        ensures
            r@ == joined_lines(
                proof_graph(p@, self.direction, self.node_shape, self.font@, self.show_rules),
            ),
    {
        let mut lines: Vec<String> = Vec::new();
        assert(texts(lines@) == Seq::<Seq<char>>::empty());
        push_text(&mut lines, "digraph proof {");
        let mut rank = String::from_str("  rankdir=");
        rank.append(self.direction.as_str());
        rank.append(";");
        push_line(&mut lines, rank);
        let mut node = String::from_str("  node [shape=");
        node.append(self.node_shape.as_str());
        node.append(", fontname=\"");
        node.append(self.font.as_str());
        node.append("\"];");
        push_line(&mut lines, node);
        push_text(&mut lines, "  edge [arrowhead=none];");
        push_text(&mut lines, "");
        let mut counter = Counter::new();
        self.render_proof(p, &mut lines, &mut counter);
        push_text(&mut lines, "}");
        assert(texts(lines@) == proof_graph(
            p@,
            self.direction,
            self.node_shape,
            self.font@,
            self.show_rules,
        ));
        join_lines(&lines)
    }

    /// The labels that this renderer gives to the nodes of a proof tree.
    pub open spec fn labels(&self) -> Labels {
        if self.show_rules {
            Labels::ConclusionsAndRules
        } else {
            Labels::Conclusions
        }
    }

    /// Adds the lines of a proof tree, numbering its nodes from the counter
    /// on. Returns the number of the root, written out.
    pub fn render_proof(&self, p: &Proof, lines: &mut Vec<String>, counter: &mut Counter) -> (id:
        String)
        ensures
            id@ == decimal(old(counter).value()),
            texts(final(lines)@) == texts(old(lines)@) + graph_lines(
                p@,
                old(counter).value(),
                self.labels(),
            ).0,
            final(counter).value() == graph_lines(p@, old(counter).value(), self.labels()).1,
    {
        let labels = if self.show_rules {
            Labels::ConclusionsAndRules
        } else {
            Labels::Conclusions
        };
        render_graph(p, lines, counter, labels)
    }

    /// Adds the lines of the proof net of a proof tree, numbering its nodes
    /// from the counter on. Returns the number of the root, written out.
    pub fn render_net_nodes(
        &self,
        p: &Proof,
        lines: &mut Vec<String>,
        counter: &mut Counter,
    ) -> (id: String)
        ensures
            id@ == decimal(old(counter).value()),
            texts(final(lines)@) == texts(old(lines)@) + graph_lines(
                p@,
                old(counter).value(),
                Labels::Rules,
            ).0,
            final(counter).value() == graph_lines(p@, old(counter).value(), Labels::Rules).1,
    {
        render_graph(p, lines, counter, Labels::Rules)
    }

    /// Writes the conclusion of the root of a proof tree.
    pub fn format_sequent(&self, p: &Proof) -> (r: String)
        ensures
            r@ == list_text(p@.conclusion, Notation::Unicode),
    {
        proof {
            p.lemma_model();
        }
        render_list(&p.conclusion.linear, Notation::Unicode)
    }

    /// Writes a proof tree as a proof net: the graph of its rules.
    pub fn render_proof_net(&self, p: &Proof) -> (r: String)
        ensures
            r@ == joined_lines(proof_net(p@)),
    {
        let mut lines: Vec<String> = Vec::new();
        assert(texts(lines@) == Seq::<Seq<char>>::empty());
        push_text(&mut lines, "digraph proof_net {");
        push_text(&mut lines, "  rankdir=TB;");
        push_text(&mut lines, "  node [shape=circle, width=0.3];");
        push_text(&mut lines, "  edge [dir=none];");
        push_text(&mut lines, "");
        let mut counter = Counter::new();
        self.render_net_nodes(p, &mut lines, &mut counter);
        push_text(&mut lines, "}");
        assert(texts(lines@) == proof_net(p@));
        join_lines(&lines)
    }
}

/// Writes the label of the root of a proof tree.
fn label(p: &Proof, labels: &Labels) -> (r: String)
    ensures
        r@ == label_text(p@, *labels),
{
    proof {
        p.lemma_model();
    }
    match labels {
        Labels::Rules => p.rule.debug_text(),
        Labels::Conclusions => {
            let mut out = String::from_str("⊢ ");
            out.append(render_list(&p.conclusion.linear, Notation::Unicode).as_str());
            escape_quotes(out.as_str())
        },
        Labels::ConclusionsAndRules => {
            let mut out = String::from_str("⊢ ");
            out.append(render_list(&p.conclusion.linear, Notation::Unicode).as_str());
            out.append("\\n(");
            out.append(p.rule.debug_text().as_str());
            out.append(")");
            escape_quotes(out.as_str())
        },
        Labels::ConclusionsAndRawRules => {
            let mut out = String::from_str("⊢ ");
            out.append(escape_quotes(p.conclusion.pretty().as_str()).as_str());
            out.append("\\n(");
            out.append(p.rule.debug_text().as_str());
            out.append(")");
            out
        },
    }
}

/// Adds the lines of a proof tree, numbering its nodes from the counter on.
/// Returns the number of the root, written out.
fn render_graph(p: &Proof, lines: &mut Vec<String>, counter: &mut Counter, labels: Labels) -> (id:
    String)
    ensures
        id@ == decimal(old(counter).value()),
        texts(final(lines)@) == texts(old(lines)@) + graph_lines(
            p@,
            old(counter).value(),
            labels,
        ).0,
        final(counter).value() == graph_lines(p@, old(counter).value(), labels).1,
    decreases p,
{
    proof {
        p.lemma_model();
    }
    let ghost start = texts(lines@);
    let ghost root = counter.value();
    let my_id = counter.text();
    counter.increment();
    let mut node = String::from_str("  n");
    node.append(my_id.as_str());
    node.append(" [label=\"");
    node.append(label(p, &labels).as_str());
    node.append("\"];");
    push_line(lines, node);
    let ghost first = texts(lines@);
    let mut k: usize = 0;
    while k < p.premises.len()
        invariant
            k <= p.premises.len(),
            my_id@ == decimal(root),
            p@.premises.len() == p.premises.len(),
            forall|i: int|
                0 <= i < p.premises.len() ==> #[trigger] p@.premises[i] == p.premises[i]@,
            texts(lines@) + premises_lines(p@, k as nat, root, counter.value(), labels).0
                == first + premises_lines(p@, 0, root, root + 1, labels).0,
            premises_lines(p@, k as nat, root, counter.value(), labels).1 == premises_lines(
                p@,
                0,
                root,
                root + 1,
                labels,
            ).1,
        decreases p.premises.len() - k,
    {
        let ghost before = texts(lines@);
        let ghost next = counter.value();
        let child_id = render_graph(&p.premises[k], lines, counter, labels);
        let mut edge = String::from_str("  n");
        edge.append(child_id.as_str());
        edge.append(" -> n");
        edge.append(my_id.as_str());
        edge.append(";");
        push_line(lines, edge);
        proof {
            assert(p@.premises[k as int] == p.premises[k as int]@);
            let child = graph_lines(p@.premises[k as int], next, labels);
            let rest = premises_lines(p@, (k + 1) as nat, root, child.1, labels);
            assert((before + child.0).push(edge_line(next, root)) + rest.0 == before + (child.0
                + seq![edge_line(next, root)] + rest.0));
        }
        k = k + 1;
    }
    proof {
        assert(texts(lines@) + Seq::<Seq<char>>::empty() == texts(lines@));
        let rest = premises_lines(p@, 0, root, root + 1, labels);
        assert(start.push(node_line(root, label_text(p@, labels))) + rest.0 == start + (
        seq![node_line(root, label_text(p@, labels))] + rest.0));
    }
    my_id
}

/// Writes a proof tree as a graph in DOT.
pub fn render_dot(p: &Proof) -> (r: String)
    ensures
        r@ == joined_lines(
            proof_graph(p@, Direction::BottomToTop, NodeShape::Box, "Helvetica"@, true),
        ),
{
    DotRenderer::new().render(p)
}

/// Writes a proof tree as a graph of boxes, laid out from the bottom to the
/// top. A label shows the conclusion, with a backslash before each double
/// quote, and the rule as it is.
pub fn proof_to_dot(p: &Proof) -> (r: String)
    ensures
        r@ == joined_lines(
            seq!["digraph proof {"@, "  rankdir=BT;"@, "  node [shape=box];"@] + graph_lines(
                p@,
                0,
                Labels::ConclusionsAndRawRules,
            ).0 + seq!["}"@],
        ),
{
    let mut lines: Vec<String> = Vec::new();
    assert(texts(lines@) == Seq::<Seq<char>>::empty());
    push_text(&mut lines, "digraph proof {");
    push_text(&mut lines, "  rankdir=BT;");
    push_text(&mut lines, "  node [shape=box];");
    let mut counter = Counter::new();
    proof_to_dot_inner(p, &mut lines, &mut counter);
    push_text(&mut lines, "}");
    assert(texts(lines@) == seq!["digraph proof {"@, "  rankdir=BT;"@, "  node [shape=box];"@]
        + graph_lines(p@, 0, Labels::ConclusionsAndRawRules).0 + seq!["}"@]);
    join_lines(&lines)
}

/// Adds the lines of a proof tree to a graph of boxes, numbering its nodes
/// from the counter on. Returns the number of the root, written out.
pub fn proof_to_dot_inner(p: &Proof, lines: &mut Vec<String>, counter: &mut Counter) -> (id:
    String)
    ensures
        id@ == decimal(old(counter).value()),
        texts(final(lines)@) == texts(old(lines)@) + graph_lines(
            p@,
            old(counter).value(),
            Labels::ConclusionsAndRawRules,
        ).0,
        final(counter).value() == graph_lines(
            p@,
            old(counter).value(),
            Labels::ConclusionsAndRawRules,
        ).1,
{
    render_graph(p, lines, counter, Labels::ConclusionsAndRawRules)
}

} // verus!
