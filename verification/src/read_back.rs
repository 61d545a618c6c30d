//! Reading back a serialised diagram: the cells that reading the tags of
//! [`crate::author::diagram_xml`] gives are the diagram's own.
//!
//! What `quick-xml` hands out for a text is named, not stated (see
//! [`crate::xml`]), so the law here is stated over those names: when the
//! reader hands out the tags the serialisation wrote, in order, with the
//! attribute values the serialisation escaped, reading them yields every
//! node as a vertex and every edge as an edge.

use vstd::prelude::*;
use crate::author::{NodeV, diagram_xml, edge_style};
use crate::decimal::{LIMIT, fmt_dec, law_print_then_read};
use crate::model::{ReadEnd, ReadStateV, VertexV, read_from, reads_attrs, start_state, tag_close, tag_open};
use crate::xml::{XmlEventV, tag_attrs_at, tag_name_at, xml_event_at};

verus! {

/// One tag as a reader hands it out: its event kind, its name and (where
/// given) its attributes with their values unescaped.
pub struct TagV {
    pub kind: XmlEventV,
    pub name: Seq<char>,
    pub attrs: Option<Seq<(Seq<char>, Seq<char>)>>,
}

/// Whether the reader hands out `tags` for the text `x`, from its `k`-th
/// event on, and then the end of the document.
pub open spec fn reads_from(x: Seq<char>, k: nat, tags: Seq<TagV>) -> bool {
    &&& forall|j: int| 0 <= j < tags.len() ==> #[trigger] xml_event_at(x, (k + j) as nat) == tags[j].kind
    &&& forall|j: int|
        0 <= j < tags.len() && (tags[j].kind is Start || tags[j].kind is Empty) ==> #[trigger] tag_name_at(
            x,
            (k + j) as nat,
        ) == tags[j].name
    &&& forall|j: int|
        0 <= j < tags.len() && (tags[j].kind is Start || tags[j].kind is Empty) && tags[j].attrs is Some
            ==> #[trigger] tag_attrs_at(x, (k + j) as nat) == Ok::<Seq<(Seq<char>, Seq<char>)>, Seq<char>>(
            tags[j].attrs.unwrap(),
        )
    &&& xml_event_at(x, k + tags.len()) == XmlEventV::Eof
}

/// The attributes a tag is applied with in state `s`.
pub open spec fn attrs_used(s: ReadStateV, t: TagV) -> Seq<(Seq<char>, Seq<char>)> {
    if reads_attrs(s, t.name) {
        match t.attrs {
            Some(a) => a,
            None => Seq::empty(),
        }
    } else {
        Seq::empty()
    }
}

/// The effect of one tag.
pub open spec fn tag_apply(s: ReadStateV, t: TagV) -> ReadStateV {
    match t.kind {
        XmlEventV::Start => tag_open(s, t.name, attrs_used(s, t), false),
        XmlEventV::Empty => tag_open(s, t.name, attrs_used(s, t), true),
        XmlEventV::End(n) => tag_close(s, n),
        _ => s,
    }
}

/// Whether `tags` are plain tags (openings, self-closing tags and
/// closings) and each one whose attributes are read in turn gives them.
pub open spec fn tags_fit(s: ReadStateV, tags: Seq<TagV>) -> bool
    decreases tags.len(),
{
    if tags.len() == 0 {
        true
    } else {
        let t = tags[0];
        &&& (t.kind is Start || t.kind is Empty || t.kind is End)
        &&& (t.kind is End ==> t.kind->End_0 == t.name)
        &&& (reads_attrs(s, t.name) && !(t.kind is End) ==> t.attrs is Some)
        &&& tags_fit(tag_apply(s, t), tags.drop_first())
    }
}

/// The state reached from `s` by the tags, in order.
pub open spec fn apply_tags(s: ReadStateV, tags: Seq<TagV>) -> ReadStateV
    decreases tags.len(),
{
    if tags.len() == 0 {
        s
    } else {
        apply_tags(tag_apply(s, tags[0]), tags.drop_first())
    }
}

proof fn lemma_read_tags(x: Seq<char>, k: nat, fuel: nat, s: ReadStateV, tags: Seq<TagV>, inflate: bool, in_diagram: bool)
    requires
        reads_from(x, k, tags),
        tags_fit(s, tags),
        fuel > tags.len(),
    ensures
        read_from(x, k, fuel, s, inflate, in_diagram) == ReadEnd::Done(apply_tags(s, tags)),
    decreases tags.len(),
{
    if tags.len() == 0 {
        assert(xml_event_at(x, k) == XmlEventV::Eof);
    } else {
        let t = tags[0];
        let rest = tags.drop_first();
        assert(xml_event_at(x, (k + 0) as nat) == t.kind);
        assert((k + 0) as nat == k);
        if t.kind is Start || t.kind is Empty {
            assert(tag_name_at(x, (k + 0) as nat) == t.name);
            if t.attrs is Some {
                assert(tag_attrs_at(x, (k + 0) as nat) == Ok::<Seq<(Seq<char>, Seq<char>)>, Seq<char>>(
                    t.attrs.unwrap(),
                ));
            }
        }
        assert(reads_from(x, k + 1, rest)) by {
            assert forall|j: int| 0 <= j < rest.len() implies #[trigger] xml_event_at(x, (k + 1 + j) as nat)
                == rest[j].kind by {
                assert(xml_event_at(x, (k + (j + 1)) as nat) == tags[j + 1].kind);
            }
            assert forall|j: int|
                0 <= j < rest.len() && (rest[j].kind is Start || rest[j].kind is Empty) implies #[trigger] tag_name_at(
                x,
                (k + 1 + j) as nat,
            ) == rest[j].name by {
                assert(tag_name_at(x, (k + (j + 1)) as nat) == tags[j + 1].name);
            }
            assert forall|j: int|
                0 <= j < rest.len() && (rest[j].kind is Start || rest[j].kind is Empty) && rest[j].attrs is Some
                    implies #[trigger] tag_attrs_at(x, (k + 1 + j) as nat) == Ok::<
                Seq<(Seq<char>, Seq<char>)>,
                Seq<char>,
            >(rest[j].attrs.unwrap()) by {
                assert(tag_attrs_at(x, (k + (j + 1)) as nat) == Ok::<Seq<(Seq<char>, Seq<char>)>, Seq<char>>(
                    tags[j + 1].attrs.unwrap(),
                ));
            }
            assert(k + 1 + rest.len() == k + tags.len());
        }
        let next_in = match t.kind {
            XmlEventV::Start => in_diagram || t.name == "diagram"@,
            XmlEventV::End(n) => in_diagram && n != "diagram"@,
            _ => in_diagram,
        };
        lemma_read_tags(x, k + 1, (fuel - 1) as nat, tag_apply(s, t), rest, inflate, next_in);
    }
}

proof fn lemma_apply_append(s: ReadStateV, a: Seq<TagV>, b: Seq<TagV>)
    ensures
        apply_tags(s, a + b) == apply_tags(apply_tags(s, a), b),
        tags_fit(s, a) && tags_fit(apply_tags(s, a), b) ==> tags_fit(s, a + b),
    decreases a.len(),
{
    if a.len() == 0 {
        assert(a + b =~= b);
    } else {
        lemma_apply_append(tag_apply(s, a[0]), a.drop_first(), b);
        assert((a + b).drop_first() =~= a.drop_first() + b);
        assert((a + b)[0] == a[0]);
    }
}

pub open spec fn start_tag(name: Seq<char>, attrs: Option<Seq<(Seq<char>, Seq<char>)>>) -> TagV {
    TagV { kind: XmlEventV::Start, name, attrs }
}

pub open spec fn empty_tag(name: Seq<char>, attrs: Seq<(Seq<char>, Seq<char>)>) -> TagV {
    TagV { kind: XmlEventV::Empty, name, attrs: Some(attrs) }
}

pub open spec fn end_tag(name: Seq<char>) -> TagV {
    TagV { kind: XmlEventV::End(name), name, attrs: None }
}

/// The tags of one node's cell.
pub open spec fn node_tags(n: NodeV) -> Seq<TagV> {
    seq![
        start_tag(
            "mxCell"@,
            Some(seq![("id"@, n.id), ("value"@, n.label), ("vertex"@, "1"@), ("parent"@, "1"@), ("style"@, n.style)]),
        ),
        empty_tag(
            "mxGeometry"@,
            seq![
                ("x"@, fmt_dec(n.x)),
                ("y"@, fmt_dec(n.y)),
                ("width"@, fmt_dec(n.w)),
                ("height"@, fmt_dec(n.h)),
                ("as"@, "geometry"@),
            ],
        ),
        end_tag("mxCell"@),
    ]
}

/// The tags of one edge's cell.
pub open spec fn edge_tags(e: crate::author::EdgeV) -> Seq<TagV> {
    seq![
        start_tag(
            "mxCell"@,
            Some(
                seq![
                    ("id"@, e.0),
                    ("edge"@, "1"@),
                    ("parent"@, "1"@),
                    ("source"@, e.1),
                    ("target"@, e.2),
                    ("style"@, edge_style(e)),
                ],
            ),
        ),
        empty_tag("mxGeometry"@, seq![("relative"@, "1"@), ("as"@, "geometry"@)]),
        end_tag("mxCell"@),
    ]
}

pub open spec fn nodes_tags(ns: Seq<NodeV>) -> Seq<TagV>
    decreases ns.len(),
{
    if ns.len() == 0 {
        Seq::empty()
    } else {
        nodes_tags(ns.drop_last()) + node_tags(ns.last())
    }
}

pub open spec fn edges_tags(es: Seq<crate::author::EdgeV>) -> Seq<TagV>
    decreases es.len(),
{
    if es.len() == 0 {
        Seq::empty()
    } else {
        edges_tags(es.drop_last()) + edge_tags(es.last())
    }
}

/// The tags of a serialised diagram, in document order. The attributes of
/// the wrapper elements are left open: reading never looks at them.
pub open spec fn document_tags(ns: Seq<NodeV>, es: Seq<crate::author::EdgeV>) -> Seq<TagV> {
    head_tags() + nodes_tags(ns) + edges_tags(es) + tail_tags()
}

/// The vertex a node's cell reads back as.
pub open spec fn vertex_of(n: NodeV) -> VertexV {
    VertexV { id: n.id, label: n.label, style: n.style, x: n.x, y: n.y, w: n.w, h: n.h }
}

/// The edge an edge's cell reads back as: id, source, target, style.
pub open spec fn edge_of(e: crate::author::EdgeV) -> crate::model::EdgeV {
    (e.0, e.1, e.2, edge_style(e))
}

proof fn lemma_cell_attrs_push(a: Seq<(Seq<char>, Seq<char>)>, kv: (Seq<char>, Seq<char>))
    ensures
        crate::model::cell_attrs(a.push(kv)) == ({
            let p = crate::model::cell_attrs(a);
            let (k, v) = kv;
            if k == "id"@ {
                crate::model::CellAttrsV { id: v, ..p }
            } else if k == "value"@ {
                crate::model::CellAttrsV { value: v, ..p }
            } else if k == "style"@ {
                crate::model::CellAttrsV { style: v, ..p }
            } else if k == "vertex"@ {
                crate::model::CellAttrsV { vertex: v == "1"@, ..p }
            } else if k == "edge"@ {
                crate::model::CellAttrsV { edge: v == "1"@, ..p }
            } else if k == "source"@ {
                crate::model::CellAttrsV { source: v, ..p }
            } else if k == "target"@ {
                crate::model::CellAttrsV { target: v, ..p }
            } else {
                p
            }
        }),
{
    assert(a.push(kv).drop_last() =~= a);
}

proof fn lemma_geometry_push(a: Seq<(Seq<char>, Seq<char>)>, kv: (Seq<char>, Seq<char>))
    ensures
        crate::model::geometry(a.push(kv)) == ({
            let g = crate::model::geometry(a);
            let (k, v) = kv;
            if k == "x"@ {
                (crate::model::num_or_zero(v), g.1, g.2, g.3)
            } else if k == "y"@ {
                (g.0, crate::model::num_or_zero(v), g.2, g.3)
            } else if k == "width"@ {
                (g.0, g.1, crate::model::num_or_zero(v), g.3)
            } else if k == "height"@ {
                (g.0, g.1, g.2, crate::model::num_or_zero(v))
            } else {
                g
            }
        }),
{
    assert(a.push(kv).drop_last() =~= a);
}

proof fn lemma_tag_names()
    ensures
        "mxCell"@.len() == 6 && "mxGeometry"@.len() == 10 && "mxfile"@.len() == 6 && "diagram"@.len() == 7
            && "mxGraphModel"@.len() == 12 && "root"@.len() == 4,
        "mxCell"@[2] == 'C' && "mxfile"@[2] == 'f',
{
    reveal_strlit("mxCell");
    reveal_strlit("mxGeometry");
    reveal_strlit("mxfile");
    reveal_strlit("diagram");
    reveal_strlit("mxGraphModel");
    reveal_strlit("root");
}

proof fn lemma_cell_keys()
    ensures
        "id"@.len() == 2 && "value"@.len() == 5 && "style"@.len() == 5 && "vertex"@.len() == 6 && "edge"@.len() == 4
            && "source"@.len() == 6 && "target"@.len() == 6 && "parent"@.len() == 6,
        "value"@[0] == 'v' && "style"@[0] == 's' && "vertex"@[0] == 'v' && "source"@[0] == 's' && "target"@[0] == 't'
            && "parent"@[0] == 'p',
        "1"@.len() == 1,
{
    reveal_strlit("id");
    reveal_strlit("value");
    reveal_strlit("vertex");
    reveal_strlit("parent");
    reveal_strlit("style");
    reveal_strlit("edge");
    reveal_strlit("source");
    reveal_strlit("target");
    reveal_strlit("1");
}

proof fn lemma_geometry_keys()
    ensures
        "x"@.len() == 1 && "y"@.len() == 1 && "width"@.len() == 5 && "height"@.len() == 6 && "as"@.len() == 2,
        "x"@[0] == 'x' && "y"@[0] == 'y',
{
    reveal_strlit("x");
    reveal_strlit("y");
    reveal_strlit("width");
    reveal_strlit("height");
    reveal_strlit("as");
}

proof fn lemma_node_cell_attrs(n: NodeV)
    ensures
        crate::model::cell_attrs(
            seq![("id"@, n.id), ("value"@, n.label), ("vertex"@, "1"@), ("parent"@, "1"@), ("style"@, n.style)],
        ) == (crate::model::CellAttrsV {
            id: n.id,
            value: n.label,
            style: n.style,
            vertex: true,
            edge: false,
            source: Seq::empty(),
            target: Seq::empty(),
        }),
{
    reveal_strlit("id");
    reveal_strlit("value");
    reveal_strlit("vertex");
    reveal_strlit("parent");
    reveal_strlit("style");
    reveal_strlit("edge");
    reveal_strlit("source");
    reveal_strlit("target");
    reveal_strlit("1");
    let e = Seq::<(Seq<char>, Seq<char>)>::empty();
    let a1 = e.push(("id"@, n.id));
    let a2 = a1.push(("value"@, n.label));
    let a3 = a2.push(("vertex"@, "1"@));
    let a4 = a3.push(("parent"@, "1"@));
    let a5 = a4.push(("style"@, n.style));
    lemma_cell_attrs_push(e, ("id"@, n.id));
    lemma_cell_keys();
    lemma_cell_attrs_push(a1, ("value"@, n.label));
    lemma_cell_attrs_push(a2, ("vertex"@, "1"@));
    lemma_cell_attrs_push(a3, ("parent"@, "1"@));
    lemma_cell_attrs_push(a4, ("style"@, n.style));
    assert(a5 =~= seq![("id"@, n.id), ("value"@, n.label), ("vertex"@, "1"@), ("parent"@, "1"@), ("style"@, n.style)]);
}

proof fn lemma_edge_cell_attrs(e: crate::author::EdgeV)
    ensures
        crate::model::cell_attrs(
            seq![
                ("id"@, e.0),
                ("edge"@, "1"@),
                ("parent"@, "1"@),
                ("source"@, e.1),
                ("target"@, e.2),
                ("style"@, edge_style(e)),
            ],
        ) == (crate::model::CellAttrsV {
            id: e.0,
            value: Seq::empty(),
            style: edge_style(e),
            vertex: false,
            edge: true,
            source: e.1,
            target: e.2,
        }),
{
    reveal_strlit("id");
    reveal_strlit("value");
    reveal_strlit("vertex");
    reveal_strlit("parent");
    reveal_strlit("style");
    reveal_strlit("edge");
    reveal_strlit("source");
    reveal_strlit("target");
    reveal_strlit("1");
    let z = Seq::<(Seq<char>, Seq<char>)>::empty();
    let a1 = z.push(("id"@, e.0));
    let a2 = a1.push(("edge"@, "1"@));
    let a3 = a2.push(("parent"@, "1"@));
    let a4 = a3.push(("source"@, e.1));
    let a5 = a4.push(("target"@, e.2));
    let a6 = a5.push(("style"@, edge_style(e)));
    lemma_cell_keys();
    lemma_cell_attrs_push(z, ("id"@, e.0));
    lemma_cell_attrs_push(a1, ("edge"@, "1"@));
    lemma_cell_attrs_push(a2, ("parent"@, "1"@));
    lemma_cell_attrs_push(a3, ("source"@, e.1));
    lemma_cell_attrs_push(a4, ("target"@, e.2));
    lemma_cell_attrs_push(a5, ("style"@, edge_style(e)));
    assert(a6 =~= seq![
        ("id"@, e.0),
        ("edge"@, "1"@),
        ("parent"@, "1"@),
        ("source"@, e.1),
        ("target"@, e.2),
        ("style"@, edge_style(e)),
    ]);
}

proof fn lemma_node_geometry(n: NodeV)
    requires
        -LIMIT <= n.x <= LIMIT,
        -LIMIT <= n.y <= LIMIT,
        -LIMIT <= n.w <= LIMIT,
        -LIMIT <= n.h <= LIMIT,
    ensures
        crate::model::geometry(
            seq![
                ("x"@, fmt_dec(n.x)),
                ("y"@, fmt_dec(n.y)),
                ("width"@, fmt_dec(n.w)),
                ("height"@, fmt_dec(n.h)),
                ("as"@, "geometry"@),
            ],
        ) == (n.x, n.y, n.w, n.h),
{
    reveal_strlit("x");
    reveal_strlit("y");
    reveal_strlit("width");
    reveal_strlit("height");
    reveal_strlit("as");
    law_print_then_read(n.x);
    law_print_then_read(n.y);
    law_print_then_read(n.w);
    law_print_then_read(n.h);
    let z = Seq::<(Seq<char>, Seq<char>)>::empty();
    let a1 = z.push(("x"@, fmt_dec(n.x)));
    let a2 = a1.push(("y"@, fmt_dec(n.y)));
    let a3 = a2.push(("width"@, fmt_dec(n.w)));
    let a4 = a3.push(("height"@, fmt_dec(n.h)));
    let a5 = a4.push(("as"@, "geometry"@));
    lemma_geometry_keys();
    lemma_geometry_push(z, ("x"@, fmt_dec(n.x)));
    lemma_geometry_push(a1, ("y"@, fmt_dec(n.y)));
    lemma_geometry_push(a2, ("width"@, fmt_dec(n.w)));
    lemma_geometry_push(a3, ("height"@, fmt_dec(n.h)));
    lemma_geometry_push(a4, ("as"@, "geometry"@));
    assert(a5 =~= seq![
        ("x"@, fmt_dec(n.x)),
        ("y"@, fmt_dec(n.y)),
        ("width"@, fmt_dec(n.w)),
        ("height"@, fmt_dec(n.h)),
        ("as"@, "geometry"@),
    ]);
}

proof fn lemma_three_tags(s: ReadStateV, tags: Seq<TagV>)
    requires
        tags.len() == 3,
        tags[0].kind is Start || tags[0].kind is Empty,
        tags[1].kind is Start || tags[1].kind is Empty,
        tags[2].kind is End && tags[2].kind->End_0 == tags[2].name,
        reads_attrs(s, tags[0].name) ==> tags[0].attrs is Some,
        reads_attrs(tag_apply(s, tags[0]), tags[1].name) ==> tags[1].attrs is Some,
    ensures
        tags_fit(s, tags),
        apply_tags(s, tags) == tag_apply(tag_apply(tag_apply(s, tags[0]), tags[1]), tags[2]),
{
    let t1 = tags.drop_first();
    let t2 = t1.drop_first();
    let t3 = t2.drop_first();
    assert(t1[0] == tags[1]);
    assert(t2[0] == tags[2]);
    assert(t3.len() == 0);
    let s1 = tag_apply(s, tags[0]);
    let s2 = tag_apply(s1, tags[1]);
    let s3 = tag_apply(s2, tags[2]);
    assert(apply_tags(s3, t3) == s3);
    assert(apply_tags(s2, t2) == s3);
    assert(apply_tags(s1, t1) == s3);
    assert(tags_fit(s3, t3));
    assert(tags_fit(s2, t2));
    assert(tags_fit(s1, t1));
}

proof fn lemma_node_tags(s: ReadStateV, n: NodeV)
    requires
        s.pending is None,
        n.id != "0"@,
        n.id != "1"@,
        -LIMIT <= n.x <= LIMIT,
        -LIMIT <= n.y <= LIMIT,
        -LIMIT <= n.w <= LIMIT,
        -LIMIT <= n.h <= LIMIT,
    ensures
        tags_fit(s, node_tags(n)),
        apply_tags(s, node_tags(n)) == (ReadStateV { vertices: s.vertices.push(vertex_of(n)), ..s }),
{
    lemma_tag_names();
    let tags = node_tags(n);
    lemma_node_cell_attrs(n);
    lemma_node_geometry(n);
    let s1 = tag_apply(s, tags[0]);
    assert(s1 == ReadStateV {
        pending: Some(VertexV { id: n.id, label: n.label, style: n.style, x: 0, y: 0, w: 0, h: 0 }),
        ..s
    });
    let s2 = tag_apply(s1, tags[1]);
    assert(s2 == ReadStateV { pending: Some(vertex_of(n)), ..s });
    lemma_three_tags(s, tags);
}

proof fn lemma_edge_tags(s: ReadStateV, e: crate::author::EdgeV)
    requires
        s.pending is None,
        e.0 != "0"@,
        e.0 != "1"@,
        e.1.len() > 0,
        e.2.len() > 0,
    ensures
        tags_fit(s, edge_tags(e)),
        apply_tags(s, edge_tags(e)) == (ReadStateV { edges: s.edges.push(edge_of(e)), ..s }),
{
    lemma_tag_names();
    let tags = edge_tags(e);
    lemma_edge_cell_attrs(e);
    let s1 = tag_apply(s, tags[0]);
    assert(s1 == ReadStateV { edges: s.edges.push(edge_of(e)), ..s });
    lemma_three_tags(s, tags);
}

proof fn lemma_nodes_tags(s: ReadStateV, ns: Seq<NodeV>)
    requires
        s.pending is None,
        forall|i: int| 0 <= i < ns.len() ==> node_ok(#[trigger] ns[i]),
    ensures
        tags_fit(s, nodes_tags(ns)),
        apply_tags(s, nodes_tags(ns)) == (ReadStateV {
            vertices: s.vertices + ns.map_values(|n: NodeV| vertex_of(n)),
            ..s
        }),
    decreases ns.len(),
{
    if ns.len() == 0 {
        assert(s.vertices + ns.map_values(|n: NodeV| vertex_of(n)) =~= s.vertices);
    } else {
        let init = ns.drop_last();
        assert forall|i: int| 0 <= i < init.len() implies node_ok(#[trigger] init[i]) by {
            assert(init[i] == ns[i]);
        }
        lemma_nodes_tags(s, init);
        let mid = apply_tags(s, nodes_tags(init));
        assert(node_ok(ns[ns.len() - 1]));
        lemma_node_tags(mid, ns.last());
        lemma_apply_append(s, nodes_tags(init), node_tags(ns.last()));
        assert(s.vertices + init.map_values(|n: NodeV| vertex_of(n)) + seq![vertex_of(ns.last())]
            =~= s.vertices + ns.map_values(|n: NodeV| vertex_of(n)));
        assert((s.vertices + init.map_values(|n: NodeV| vertex_of(n))).push(vertex_of(ns.last()))
            =~= s.vertices + ns.map_values(|n: NodeV| vertex_of(n)));
    }
}

proof fn lemma_edges_tags(s: ReadStateV, es: Seq<crate::author::EdgeV>)
    requires
        s.pending is None,
        forall|i: int| 0 <= i < es.len() ==> edge_ok(#[trigger] es[i]),
    ensures
        tags_fit(s, edges_tags(es)),
        apply_tags(s, edges_tags(es)) == (ReadStateV {
            edges: s.edges + es.map_values(|e: crate::author::EdgeV| edge_of(e)),
            ..s
        }),
    decreases es.len(),
{
    if es.len() == 0 {
        assert(s.edges + es.map_values(|e: crate::author::EdgeV| edge_of(e)) =~= s.edges);
    } else {
        let init = es.drop_last();
        assert forall|i: int| 0 <= i < init.len() implies edge_ok(#[trigger] init[i]) by {
            assert(init[i] == es[i]);
        }
        lemma_edges_tags(s, init);
        let mid = apply_tags(s, edges_tags(init));
        assert(edge_ok(es[es.len() - 1]));
        lemma_edge_tags(mid, es.last());
        lemma_apply_append(s, edges_tags(init), edge_tags(es.last()));
        assert((s.edges + init.map_values(|e: crate::author::EdgeV| edge_of(e))).push(edge_of(es.last()))
            =~= s.edges + es.map_values(|e: crate::author::EdgeV| edge_of(e)));
    }
}

/// A tag that leaves state `s` as it is, fitting.
pub open spec fn inert(s: ReadStateV, t: TagV) -> bool {
    &&& tag_apply(s, t) == s
    &&& (t.kind is Start || t.kind is Empty || t.kind is End)
    &&& (t.kind is End ==> t.kind->End_0 == t.name)
    &&& (reads_attrs(s, t.name) && !(t.kind is End) ==> t.attrs is Some)
}

proof fn lemma_inert_tags(s: ReadStateV, tags: Seq<TagV>)
    requires
        forall|i: int| 0 <= i < tags.len() ==> inert(s, #[trigger] tags[i]),
    ensures
        apply_tags(s, tags) == s,
        tags_fit(s, tags),
    decreases tags.len(),
{
    if tags.len() > 0 {
        let rest = tags.drop_first();
        assert(inert(s, tags[0]));
        assert forall|i: int| 0 <= i < rest.len() implies inert(s, #[trigger] rest[i]) by {
            assert(rest[i] == tags[i + 1]);
        }
        lemma_inert_tags(s, rest);
    }
}

proof fn lemma_head_and_tail(s: ReadStateV)
    requires
        s.pending is None,
    ensures
        apply_tags(s, head_tags()) == s,
        tags_fit(s, head_tags()),
        apply_tags(s, tail_tags()) == s,
        tags_fit(s, tail_tags()),
{
    lemma_tag_names();
    lemma_cell_keys();
    reveal_strlit("0");
    let z = Seq::<(Seq<char>, Seq<char>)>::empty();
    lemma_cell_attrs_push(z, ("id"@, "0"@));
    lemma_cell_attrs_push(z.push(("id"@, "1"@)), ("parent"@, "0"@));
    lemma_cell_attrs_push(z, ("id"@, "1"@));
    assert(z.push(("id"@, "0"@)) =~= seq![("id"@, "0"@)]);
    assert(z.push(("id"@, "1"@)).push(("parent"@, "0"@)) =~= seq![("id"@, "1"@), ("parent"@, "0"@)]);
    let h = head_tags();
    assert forall|i: int| 0 <= i < h.len() implies inert(s, #[trigger] h[i]) by {}
    lemma_inert_tags(s, h);
    let t = tail_tags();
    assert forall|i: int| 0 <= i < t.len() implies inert(s, #[trigger] t[i]) by {}
    lemma_inert_tags(s, t);
}

/// The tags before the cells: the wrappers and the two root cells.
pub open spec fn head_tags() -> Seq<TagV> {
    seq![
        start_tag("mxfile"@, None),
        start_tag("diagram"@, None),
        start_tag("mxGraphModel"@, None),
        start_tag("root"@, None),
        empty_tag("mxCell"@, seq![("id"@, "0"@)]),
        empty_tag("mxCell"@, seq![("id"@, "1"@), ("parent"@, "0"@)]),
    ]
}

/// The tags after the cells: the wrappers closing.
pub open spec fn tail_tags() -> Seq<TagV> {
    seq![end_tag("root"@), end_tag("mxGraphModel"@), end_tag("diagram"@), end_tag("mxfile"@)]
}

/// A node that reads back: not a root cell id, its box within the bounds.
pub open spec fn node_ok(n: NodeV) -> bool {
    &&& n.id != "0"@
    &&& n.id != "1"@
    &&& -LIMIT <= n.x <= LIMIT
    &&& -LIMIT <= n.y <= LIMIT
    &&& -LIMIT <= n.w <= LIMIT
    &&& -LIMIT <= n.h <= LIMIT
}

/// An edge that reads back: not a root cell id, both ends named.
pub open spec fn edge_ok(e: crate::author::EdgeV) -> bool {
    &&& e.0 != "0"@
    &&& e.0 != "1"@
    &&& e.1.len() > 0
    &&& e.2.len() > 0
}

proof fn lemma_tags_len(ns: Seq<NodeV>, es: Seq<crate::author::EdgeV>)
    ensures
        nodes_tags(ns).len() == 3 * ns.len(),
        edges_tags(es).len() == 3 * es.len(),
    decreases ns.len() + es.len(),
{
    if ns.len() > 0 {
        lemma_tags_len(ns.drop_last(), es);
    } else if es.len() > 0 {
        lemma_tags_len(ns, es.drop_last());
    }
}

proof fn lemma_xml_len(ns: Seq<NodeV>, es: Seq<crate::author::EdgeV>)
    ensures
        crate::author::nodes_xml(ns).len() >= 3 * ns.len(),
        crate::author::edges_xml(es).len() >= 3 * es.len(),
    decreases ns.len() + es.len(),
{
    reveal_strlit("        <mxCell id=\"");
    if ns.len() > 0 {
        lemma_xml_len(ns.drop_last(), es);
    } else if es.len() > 0 {
        lemma_xml_len(ns, es.drop_last());
    }
}

/// Reading back a serialised diagram: when the XML reader hands out, for
/// the text [`diagram_xml`] writes, exactly the tags written there (see
/// [`document_tags`]: the attribute values as written before escaping,
/// then the end of the document), reading that text's events gives every
/// node as a vertex (id, label, style and box) and every edge as an edge
/// (id, source, target and style), in order. Nodes must not use a root
/// cell id and must lie within the bounds; edges must not use a root cell
/// id and must name both ends. (`parse` reads these events once it has
/// found the file not marked `compressed="true"`; that check is not part
/// of this law.)
pub proof fn law_serialised_cells_read_back(name: Seq<char>, ns: Seq<NodeV>, es: Seq<crate::author::EdgeV>)
    requires
        forall|i: int| 0 <= i < ns.len() ==> node_ok(#[trigger] ns[i]),
        forall|i: int| 0 <= i < es.len() ==> edge_ok(#[trigger] es[i]),
        reads_from(diagram_xml(name, ns, es), 0, document_tags(ns, es)),
    ensures
        read_from(diagram_xml(name, ns, es), 0, diagram_xml(name, ns, es).len() + 1, start_state(), true, false)
            == ReadEnd::Done(
            ReadStateV {
                vertices: ns.map_values(|n: NodeV| vertex_of(n)),
                edges: es.map_values(|e: crate::author::EdgeV| edge_of(e)),
                pending: None,
            },
        ),
{
    let x = diagram_xml(name, ns, es);
    let tags = document_tags(ns, es);
    let s0 = start_state();
    lemma_tags_len(ns, es);
    lemma_xml_len(ns, es);
    reveal_strlit("<mxfile host=\"drawio-headless\" compressed=\"false\" version=\"0.1.0\">\n");
    assert(tags.len() == 10 + 3 * ns.len() + 3 * es.len());
    assert(x.len() >= 10 + 3 * ns.len() + 3 * es.len());
    lemma_head_and_tail(s0);
    lemma_nodes_tags(s0, ns);
    let s1 = apply_tags(s0, nodes_tags(ns));
    lemma_edges_tags(s1, es);
    let s2 = apply_tags(s1, edges_tags(es));
    lemma_head_and_tail(s2);
    lemma_apply_append(s0, head_tags(), nodes_tags(ns));
    lemma_apply_append(s0, head_tags() + nodes_tags(ns), edges_tags(es));
    lemma_apply_append(s0, head_tags() + nodes_tags(ns) + edges_tags(es), tail_tags());
    assert(Seq::<VertexV>::empty() + ns.map_values(|n: NodeV| vertex_of(n)) =~= ns.map_values(|n: NodeV| vertex_of(n)));
    assert(Seq::<crate::model::EdgeV>::empty() + es.map_values(|e: crate::author::EdgeV| edge_of(e)) =~= es.map_values(
        |e: crate::author::EdgeV| edge_of(e),
    ));
    lemma_read_tags(x, 0, (x.len() + 1) as nat, s0, tags, true, false);
}

} // verus!
