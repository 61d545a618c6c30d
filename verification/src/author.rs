//! Programmatic authoring of `.drawio` XML diagrams.
//!
//! Build a [`Diagram`], push [`Node`]s and edges via [`Diagram::connect`],
//! then call [`Diagram::to_xml`]. The emitted XML uses
//! `compressed="false"` so the payload is plain XML that the renderer can
//! read directly.

use vstd::prelude::*;
use crate::decimal::{Decimal, fmt_dec, nat_digits, push_nat, units};
use crate::text::{chars_of, push_char, push_str};

verus! {

/// Default AWS resource-icon tile size, in whole units.
pub const DEFAULT_AWS_TILE: i64 = 78;

/// A single vertex (a shape) in the diagram.
#[derive(Debug, Clone)]
pub struct Node {
    pub id: String,
    pub label: String,
    pub x: Decimal,
    pub y: Decimal,
    pub w: Decimal,
    pub h: Decimal,
    pub style: String,
}

/// The content of a node: text as character sequences, geometry as
/// millionths.
pub struct NodeV {
    pub id: Seq<char>,
    pub label: Seq<char>,
    pub x: int,
    pub y: int,
    pub w: int,
    pub h: int,
    pub style: Seq<char>,
}

impl View for Node {
    type V = NodeV;

    open spec fn view(&self) -> NodeV {
        NodeV {
            id: self.id@,
            label: self.label@,
            x: self.x@,
            y: self.y@,
            w: self.w@,
            h: self.h@,
            style: self.style@,
        }
    }
}

impl Node {
    /// Low-level escape hatch for shapes that are not in any catalogue.
    pub fn raw(
        id: String,
        x: Decimal,
        y: Decimal,
        w: Decimal,
        h: Decimal,
        label: String,
        style: String,
    ) -> (r: Node)
        ensures
            r@ == (NodeV { id: id@, label: label@, x: x@, y: y@, w: w@, h: h@, style: style@ }),
    {
        Node { id, label, x, y, w, h, style }
    }

    /// Builder helper: place the node's top-left at `(x, y)`.
    pub fn at(self, x: Decimal, y: Decimal) -> (r: Node)
        ensures
            r@ == (NodeV { x: x@, y: y@, ..self@ }),
    {
        Node { x, y, ..self }
    }

    /// Builder helper: set the node's width and height.
    pub fn size(self, w: Decimal, h: Decimal) -> (r: Node)
        ensures
            r@ == (NodeV { w: w@, h: h@, ..self@ }),
    {
        Node { w, h, ..self }
    }

    /// Builder helper: change the visible label.
    pub fn label(self, label: String) -> (r: Node)
        ensures
            r@ == (NodeV { label: label@, ..self@ }),
    {
        Node { label, ..self }
    }
}

/// A node of the given identity and style at the origin with a square
/// tile of `tile` units.
pub open spec fn tile_node(id: Seq<char>, label: Seq<char>, tile_w: int, tile_h: int, style: Seq<char>) -> NodeV {
    NodeV { id, label, x: 0, y: 0, w: units(tile_w), h: units(tile_h), style }
}

/// A node at the origin, `tile_w` by `tile_h` units, with the given style.
pub fn tile(id: &str, label: &str, tile_w: i64, tile_h: i64, style: String) -> (r: Node)
    ensures
        r@ == tile_node(id@, label@, tile_w as int, tile_h as int, style@),
{
    let mut i = String::new();
    push_str(&mut i, id);
    let mut l = String::new();
    push_str(&mut l, label);
    Node {
        id: i,
        label: l,
        x: Decimal::zero(),
        y: Decimal::zero(),
        w: Decimal::from_int(tile_w),
        h: Decimal::from_int(tile_h),
        style,
    }
}

/// A reference to a node that has been added to a diagram.
#[derive(Debug, Clone)]
pub struct NodeRef {
    pub id: String,
}

#[derive(Debug, Clone)]
struct Edge {
    id: String,
    source: String,
    target: String,
    exit: Option<(Decimal, Decimal)>,
    entry: Option<(Decimal, Decimal)>,
}

/// A drawio diagram document holding a single page.
#[derive(Debug, Clone)]
pub struct Diagram {
    name: String,
    nodes: Vec<Node>,
    edges: Vec<Edge>,
    next_edge: usize,
}

/// One edge: its id, source id, target id, and the pinned exit and entry
/// points (as millionths), if any.
pub type EdgeV = (Seq<char>, Seq<char>, Seq<char>, Option<(int, int)>, Option<(int, int)>);

/// A pinned attachment point as plain values.
pub open spec fn pin_view(p: Option<(Decimal, Decimal)>) -> Option<(int, int)> {
    match p {
        Some((x, y)) => Some((x@, y@)),
        None => None,
    }
}

impl Diagram {
    pub closed spec fn name_v(&self) -> Seq<char> {
        self.name@
    }

    pub closed spec fn nodes_v(&self) -> Seq<NodeV> {
        self.nodes@.map_values(|n: Node| n@)
    }

    pub closed spec fn edges_v(&self) -> Seq<EdgeV> {
        self.edges@.map_values(|e: Edge| (e.id@, e.source@, e.target@, pin_view(e.exit), pin_view(e.entry)))
    }

    /// The number the next edge's id carries.
    pub closed spec fn next_edge_v(&self) -> nat {
        self.next_edge as nat
    }

    pub fn new(name: String) -> (r: Diagram)
        ensures
            r.name_v() == name@,
            r.nodes_v() == Seq::<NodeV>::empty(),
            r.edges_v() == Seq::<EdgeV>::empty(),
            r.next_edge_v() == 1,
    {
        let d = Diagram { name, nodes: Vec::new(), edges: Vec::new(), next_edge: 1 };
        assert(d.nodes_v() =~= Seq::<NodeV>::empty());
        assert(d.edges_v() =~= Seq::<EdgeV>::empty());
        d
    }

    /// Add a node to the diagram. Returns a [`NodeRef`] naming it.
    pub fn add_node(&mut self, node: Node) -> (r: NodeRef)
        ensures
            r.id@ == node.id@,
            final(self).nodes_v() == old(self).nodes_v().push(node@),
            final(self).edges_v() == old(self).edges_v(),
            final(self).name_v() == old(self).name_v(),
            final(self).next_edge_v() == old(self).next_edge_v(),
    {
        let r = NodeRef { id: node.id.clone() };
        self.nodes.push(node);
        assert(self.nodes_v() =~= old(self).nodes_v().push(node@));
        r
    }

    /// Connect two nodes with an edge; edges are numbered `e1`, `e2`, ...
    /// in the order they are added.
    pub fn connect(&mut self, source: &NodeRef, target: &NodeRef)
        requires
            old(self).next_edge_v() < usize::MAX,
        ensures
            final(self).edges_v() == old(self).edges_v().push(
                (seq!['e'] + nat_digits(old(self).next_edge_v()), source.id@, target.id@, None, None),
            ),
            final(self).next_edge_v() == old(self).next_edge_v() + 1,
            final(self).nodes_v() == old(self).nodes_v(),
            final(self).name_v() == old(self).name_v(),
    {
        self.connect_pinned(source, target, None, None);
    }

    /// Connect two nodes with an edge whose exit point on the source and
    /// entry point on the target may be pinned (each as `(x, y)` fractions
    /// of the cell's box); numbered like [`Diagram::connect`].
    pub fn connect_pinned(
        &mut self,
        source: &NodeRef,
        target: &NodeRef,
        exit: Option<(Decimal, Decimal)>,
        entry: Option<(Decimal, Decimal)>,
    )
        requires
            old(self).next_edge_v() < usize::MAX,
        ensures
            final(self).edges_v() == old(self).edges_v().push(
                (
                    seq!['e'] + nat_digits(old(self).next_edge_v()),
                    source.id@,
                    target.id@,
                    pin_view(exit),
                    pin_view(entry),
                ),
            ),
            final(self).next_edge_v() == old(self).next_edge_v() + 1,
            final(self).nodes_v() == old(self).nodes_v(),
            final(self).name_v() == old(self).name_v(),
    {
        let mut id = String::new();
        push_char(&mut id, 'e');
        push_nat(&mut id, self.next_edge as u128);
        self.next_edge = self.next_edge + 1;
        let e = Edge { id, source: source.id.clone(), target: target.id.clone(), exit, entry };
        self.edges.push(e);
        assert(self.edges_v() =~= old(self).edges_v().push(
            (
                seq!['e'] + nat_digits(old(self).next_edge_v()),
                source.id@,
                target.id@,
                pin_view(exit),
                pin_view(entry),
            ),
        ));
        assert(self.nodes_v() =~= old(self).nodes_v());
    }
}

// ---------------------------------------------------------------------
// XML serialisation
// ---------------------------------------------------------------------

/// The XML entity a character is written as inside an attribute value.
pub open spec fn escape_char(c: char) -> Seq<char> {
    if c == '&' {
        "&amp;"@
    } else if c == '<' {
        "&lt;"@
    } else if c == '>' {
        "&gt;"@
    } else if c == '"' {
        "&quot;"@
    } else if c == '\'' {
        "&apos;"@
    } else {
        seq![c]
    }
}

/// `s` with the five XML special characters replaced by entities.
pub open spec fn escape(s: Seq<char>) -> Seq<char>
    decreases s.len(),
{
    if s.len() == 0 {
        Seq::empty()
    } else {
        escape(s.drop_last()) + escape_char(s.last())
    }
}

/// No character that would end an attribute value or open markup.
pub open spec fn is_markup_free(s: Seq<char>) -> bool {
    forall|i: int| 0 <= i < s.len() ==> #[trigger] s[i] != '<' && s[i] != '>' && s[i] != '"' && s[i] != '\''
}

/// Escaped text carries no `<`, `>`, `"` or `'`: it can stand inside an
/// attribute value or a text node without ending it or opening markup.
pub proof fn law_escaped_text_is_markup_free(s: Seq<char>)
    ensures
        is_markup_free(escape(s)),
    decreases s.len(),
{
    if s.len() > 0 {
        law_escaped_text_is_markup_free(s.drop_last());
        let c = s.last();
        let a = escape(s.drop_last());
        let b = escape_char(c);
        reveal_strlit("&amp;");
        reveal_strlit("&lt;");
        reveal_strlit("&gt;");
        reveal_strlit("&quot;");
        reveal_strlit("&apos;");
        assert(is_markup_free(b));
        assert forall|i: int| 0 <= i < (a + b).len() implies #[trigger] (a + b)[i] != '<' && (a + b)[i] != '>'
            && (a + b)[i] != '"' && (a + b)[i] != '\'' by {
            if i < a.len() {
                assert((a + b)[i] == a[i]);
            } else {
                assert((a + b)[i] == b[i - a.len()]);
            }
        }
    }
}

/// Append `s`, escaped for an XML attribute value or text node.
pub fn push_escaped(out: &mut String, s: &str)
    ensures
        final(out)@ == old(out)@ + escape(s@),
{
    let v = chars_of(s);
    let mut i: usize = 0;
    while i < v.len()
        invariant
            v@ == s@,
            0 <= i <= v@.len(),
            out@ == old(out)@ + escape(v@.take(i as int)),
        decreases v@.len() - i,
    {
        let c = v[i];
        if c == '&' {
            push_str(out, "&amp;");
        } else if c == '<' {
            push_str(out, "&lt;");
        } else if c == '>' {
            push_str(out, "&gt;");
        } else if c == '"' {
            push_str(out, "&quot;");
        } else if c == '\'' {
            push_str(out, "&apos;");
        } else {
            push_char(out, c);
        }
        proof {
            assert(v@.take(i + 1).drop_last() =~= v@.take(i as int));
            assert(v@.take(i + 1).last() == c);
        }
        i = i + 1;
    }
    assert(v@.take(v@.len() as int) =~= v@);
}

/// `s` escaped, as a new string.
pub fn escaped(s: &str) -> (r: String)
    ensures
        r@ == escape(s@),
{
    let mut r = String::new();
    push_escaped(&mut r, s);
    r
}

/// The `<mxCell>` element of one vertex.
pub open spec fn node_xml(n: NodeV) -> Seq<char> {
    "        <mxCell id=\""@ + escape(n.id) + "\" value=\""@ + escape(n.label)
        + "\" vertex=\"1\" parent=\"1\" style=\""@ + escape(n.style) + "\">\n"@
        + "          <mxGeometry x=\""@ + fmt_dec(n.x) + "\" y=\""@ + fmt_dec(n.y)
        + "\" width=\""@ + fmt_dec(n.w) + "\" height=\""@ + fmt_dec(n.h)
        + "\" as=\"geometry\"/>\n"@ + "        </mxCell>\n"@
}

/// The style entries of a pinned point: `<side>X=x;<side>Y=y;`, or
/// nothing when not pinned.
pub open spec fn pin_style(side: Seq<char>, p: Option<(int, int)>) -> Seq<char> {
    match p {
        Some((x, y)) => side + "X="@ + fmt_dec(x) + ";"@ + side + "Y="@ + fmt_dec(y) + ";"@,
        None => Seq::empty(),
    }
}

/// The drawio style of an edge: orthogonal routing with an open arrow,
/// and its pinned exit and entry points.
pub open spec fn edge_style(e: EdgeV) -> Seq<char> {
    "edgeStyle=orthogonalEdgeStyle;html=0;endArrow=open;startArrow=none;rounded=0;"@ + pin_style("exit"@, e.3)
        + pin_style("entry"@, e.4)
}

/// The `<mxCell>` element of one edge.
pub open spec fn edge_xml(e: EdgeV) -> Seq<char> {
    "        <mxCell id=\""@ + escape(e.0) + "\" edge=\"1\" parent=\"1\" source=\""@ + escape(e.1)
        + "\" target=\""@ + escape(e.2) + "\" style=\""@ + edge_style(e) + "\">\n"@
        + "          <mxGeometry relative=\"1\" as=\"geometry\"/>\n"@ + "        </mxCell>\n"@
}

pub open spec fn nodes_xml(ns: Seq<NodeV>) -> Seq<char>
    decreases ns.len(),
{
    if ns.len() == 0 {
        Seq::empty()
    } else {
        nodes_xml(ns.drop_last()) + node_xml(ns.last())
    }
}

pub open spec fn edges_xml(es: Seq<EdgeV>) -> Seq<char>
    decreases es.len(),
{
    if es.len() == 0 {
        Seq::empty()
    } else {
        edges_xml(es.drop_last()) + edge_xml(es.last())
    }
}

/// The `.drawio` document for a page named `name` with the given
/// vertices and edges.
pub open spec fn diagram_xml(name: Seq<char>, ns: Seq<NodeV>, es: Seq<EdgeV>) -> Seq<char> {
    "<mxfile host=\"drawio-headless\" compressed=\"false\" version=\"0.1.0\">\n"@
        + "  <diagram id=\"p1\" name=\""@ + escape(name) + "\">\n"@
        + "    <mxGraphModel dx=\"800\" dy=\"600\" grid=\"1\" gridSize=\"10\" pageWidth=\"850\" pageHeight=\"1100\" math=\"0\" shadow=\"0\">\n"@
        + "      <root>\n"@ + "        <mxCell id=\"0\"/>\n"@
        + "        <mxCell id=\"1\" parent=\"0\"/>\n"@ + nodes_xml(ns) + edges_xml(es)
        + "      </root>\n"@ + "    </mxGraphModel>\n"@ + "  </diagram>\n"@ + "</mxfile>\n"@
}

#[verifier::spinoff_prover]
#[verifier::rlimit(40)]
fn push_node(out: &mut String, n: &Node)
    ensures
        final(out)@ == old(out)@ + node_xml(n@),
{
    push_str(out, "        <mxCell id=\"");
    push_escaped(out, n.id.as_str());
    push_str(out, "\" value=\"");
    push_escaped(out, n.label.as_str());
    push_str(out, "\" vertex=\"1\" parent=\"1\" style=\"");
    push_escaped(out, n.style.as_str());
    push_str(out, "\">\n");
    push_str(out, "          <mxGeometry x=\"");
    n.x.write(out);
    push_str(out, "\" y=\"");
    n.y.write(out);
    push_str(out, "\" width=\"");
    n.w.write(out);
    push_str(out, "\" height=\"");
    n.h.write(out);
    push_str(out, "\" as=\"geometry\"/>\n");
    push_str(out, "        </mxCell>\n");
    assert(out@ =~= old(out)@ + node_xml(n@));
}

fn push_pin(out: &mut String, side: &str, p: Option<(Decimal, Decimal)>)
    ensures
        final(out)@ == old(out)@ + pin_style(side@, pin_view(p)),
{
    if let Some((x, y)) = p {
        push_str(out, side);
        push_str(out, "X=");
        x.write(out);
        push_str(out, ";");
        push_str(out, side);
        push_str(out, "Y=");
        y.write(out);
        push_str(out, ";");
        assert(out@ =~= old(out)@ + pin_style(side@, pin_view(p)));
    } else {
        assert(out@ =~= old(out)@ + pin_style(side@, pin_view(p)));
    }
}

#[verifier::spinoff_prover]
#[verifier::rlimit(40)]
fn push_edge(out: &mut String, e: &Edge)
    ensures
        final(out)@ == old(out)@ + edge_xml((e.id@, e.source@, e.target@, pin_view(e.exit), pin_view(e.entry))),
{
    push_str(out, "        <mxCell id=\"");
    push_escaped(out, e.id.as_str());
    push_str(out, "\" edge=\"1\" parent=\"1\" source=\"");
    push_escaped(out, e.source.as_str());
    push_str(out, "\" target=\"");
    push_escaped(out, e.target.as_str());
    push_str(out, "\" style=\"");
    push_str(out, "edgeStyle=orthogonalEdgeStyle;html=0;endArrow=open;startArrow=none;rounded=0;");
    push_pin(out, "exit", e.exit);
    push_pin(out, "entry", e.entry);
    push_str(out, "\">\n");
    push_str(out, "          <mxGeometry relative=\"1\" as=\"geometry\"/>\n");
    push_str(out, "        </mxCell>\n");
    assert(out@ =~= old(out)@ + edge_xml((e.id@, e.source@, e.target@, pin_view(e.exit), pin_view(e.entry))));
}

impl Diagram {
    /// Serialise the diagram to a `.drawio` XML string with
    /// `compressed="false"`: the two implicit root cells, one `<mxCell>`
    /// per node in insertion order, then one per edge.
    pub fn to_xml(&self) -> (r: String)
        ensures
            r@ == diagram_xml(self.name_v(), self.nodes_v(), self.edges_v()),
    {
        let mut out = String::new();
        push_str(&mut out, "<mxfile host=\"drawio-headless\" compressed=\"false\" version=\"0.1.0\">\n");
        push_str(&mut out, "  <diagram id=\"p1\" name=\"");
        push_escaped(&mut out, self.name.as_str());
        push_str(&mut out, "\">\n");
        push_str(
            &mut out,
            "    <mxGraphModel dx=\"800\" dy=\"600\" grid=\"1\" gridSize=\"10\" pageWidth=\"850\" pageHeight=\"1100\" math=\"0\" shadow=\"0\">\n",
        );
        push_str(&mut out, "      <root>\n");
        push_str(&mut out, "        <mxCell id=\"0\"/>\n");
        push_str(&mut out, "        <mxCell id=\"1\" parent=\"0\"/>\n");
        let ghost head = out@;
        let mut i: usize = 0;
        while i < self.nodes.len()
            invariant
                0 <= i <= self.nodes@.len(),
                out@ == head + nodes_xml(self.nodes_v().take(i as int)),
            decreases self.nodes@.len() - i,
        {
            push_node(&mut out, &self.nodes[i]);
            proof {
                assert(self.nodes_v().take(i + 1).drop_last() =~= self.nodes_v().take(i as int));
                assert(self.nodes_v().take(i + 1).last() == self.nodes@[i as int]@);
            }
            i = i + 1;
        }
        assert(self.nodes_v().take(self.nodes@.len() as int) =~= self.nodes_v());
        let ghost mid = out@;
        let mut j: usize = 0;
        while j < self.edges.len()
            invariant
                0 <= j <= self.edges@.len(),
                out@ == mid + edges_xml(self.edges_v().take(j as int)),
            decreases self.edges@.len() - j,
        {
            push_edge(&mut out, &self.edges[j]);
            proof {
                assert(self.edges_v().take(j + 1).drop_last() =~= self.edges_v().take(j as int));
            }
            j = j + 1;
        }
        assert(self.edges_v().take(self.edges@.len() as int) =~= self.edges_v());
        push_str(&mut out, "      </root>\n");
        push_str(&mut out, "    </mxGraphModel>\n");
        push_str(&mut out, "  </diagram>\n");
        push_str(&mut out, "</mxfile>\n");
        assert(out@ =~= diagram_xml(self.name_v(), self.nodes_v(), self.edges_v()));
        out
    }
}

} // verus!
