//! Read `mxfile/diagram/mxGraphModel/root/mxCell` into a small model.
//!
//! Cells with `id="0"` and `id="1"` (the implicit root and default layer)
//! are skipped. A compressed `<diagram>` body is inflated (see
//! [`crate::inflate`]) and its cells are read in place.

use vstd::prelude::*;
use crate::decimal::{Decimal, parse_dec};
use crate::error::RenderError;
use crate::inflate::{base64_decoded, compressed_body, inflate_diagram_body, inflated_text, is_compressed_body, url_decoded};
use crate::text::{chars_of, contains_str, has_sub, str_eq, trim};
use crate::xml::{XmlEvent, XmlEventV, XmlFailure, tag_attrs, tag_attrs_at, tag_name, tag_name_at, text_at, text_unescaped, xml_event_at, xml_next, xml_reader};

verus! {

/// A vertex cell: a shape with a bounding box.
#[derive(Debug, Clone)]
pub struct Vertex {
    pub id: String,
    pub label: String,
    pub style: String,
    pub x: Decimal,
    pub y: Decimal,
    pub w: Decimal,
    pub h: Decimal,
}

/// An edge cell between two vertices, by id.
#[derive(Debug, Clone)]
pub struct Edge {
    pub id: String,
    pub source: String,
    pub target: String,
    pub style: String,
}

/// The vertices and edges of a diagram, in document order.
#[derive(Debug, Clone)]
pub struct Model {
    pub vertices: Vec<Vertex>,
    pub edges: Vec<Edge>,
}

pub struct VertexV {
    pub id: Seq<char>,
    pub label: Seq<char>,
    pub style: Seq<char>,
    pub x: int,
    pub y: int,
    pub w: int,
    pub h: int,
}

/// An edge as text: id, source, target, style.
pub type EdgeV = (Seq<char>, Seq<char>, Seq<char>, Seq<char>);

impl View for Vertex {
    type V = VertexV;

    open spec fn view(&self) -> VertexV {
        VertexV {
            id: self.id@,
            label: self.label@,
            style: self.style@,
            x: self.x@,
            y: self.y@,
            w: self.w@,
            h: self.h@,
        }
    }
}

impl View for Edge {
    type V = EdgeV;

    open spec fn view(&self) -> EdgeV {
        (self.id@, self.source@, self.target@, self.style@)
    }
}

pub open spec fn vertices_view(vs: Seq<Vertex>) -> Seq<VertexV> {
    vs.map_values(|v: Vertex| v@)
}

pub open spec fn edges_view(es: Seq<Edge>) -> Seq<EdgeV> {
    es.map_values(|e: Edge| e@)
}

/// The attributes of an `<mxCell>` the model reads.
pub struct CellAttrsV {
    pub id: Seq<char>,
    pub value: Seq<char>,
    pub style: Seq<char>,
    pub vertex: bool,
    pub edge: bool,
    pub source: Seq<char>,
    pub target: Seq<char>,
}

pub open spec fn attrs_view(a: Seq<(String, String)>) -> Seq<(Seq<char>, Seq<char>)> {
    a.map_values(|p: (String, String)| (p.0@, p.1@))
}

/// Cell attributes read from an attribute list, later occurrences
/// winning; `vertex`/`edge` hold when their value is exactly `1`.
pub open spec fn cell_attrs(a: Seq<(Seq<char>, Seq<char>)>) -> CellAttrsV
    decreases a.len(),
{
    if a.len() == 0 {
        CellAttrsV {
            id: Seq::empty(),
            value: Seq::empty(),
            style: Seq::empty(),
            vertex: false,
            edge: false,
            source: Seq::empty(),
            target: Seq::empty(),
        }
    } else {
        let p = cell_attrs(a.drop_last());
        let (k, v) = a.last();
        if k == "id"@ {
            CellAttrsV { id: v, ..p }
        } else if k == "value"@ {
            CellAttrsV { value: v, ..p }
        } else if k == "style"@ {
            CellAttrsV { style: v, ..p }
        } else if k == "vertex"@ {
            CellAttrsV { vertex: v == "1"@, ..p }
        } else if k == "edge"@ {
            CellAttrsV { edge: v == "1"@, ..p }
        } else if k == "source"@ {
            CellAttrsV { source: v, ..p }
        } else if k == "target"@ {
            CellAttrsV { target: v, ..p }
        } else {
            p
        }
    }
}

/// A number attribute value; unreadable text counts as zero.
pub open spec fn num_or_zero(v: Seq<char>) -> int {
    match parse_dec(v) {
        Some(n) => n,
        None => 0,
    }
}

/// Geometry read from an `<mxGeometry>` attribute list into `g`
/// (x, y, width, height), later occurrences winning.
pub open spec fn geometry(a: Seq<(Seq<char>, Seq<char>)>) -> (int, int, int, int)
    decreases a.len(),
{
    if a.len() == 0 {
        (0, 0, 0, 0)
    } else {
        let g = geometry(a.drop_last());
        let (k, v) = a.last();
        if k == "x"@ {
            (num_or_zero(v), g.1, g.2, g.3)
        } else if k == "y"@ {
            (g.0, num_or_zero(v), g.2, g.3)
        } else if k == "width"@ {
            (g.0, g.1, num_or_zero(v), g.3)
        } else if k == "height"@ {
            (g.0, g.1, g.2, num_or_zero(v))
        } else {
            g
        }
    }
}

/// Model-building state: the model so far and the vertex cell still
/// waiting for its geometry.
pub struct ReadStateV {
    pub vertices: Seq<VertexV>,
    pub edges: Seq<EdgeV>,
    pub pending: Option<VertexV>,
}

/// Opening an `<mxCell>` with attributes `a`: root cells are skipped; an
/// edge with both ends named is recorded; a vertex becomes the pending
/// cell with an empty box.
pub open spec fn cell_open(s: ReadStateV, a: CellAttrsV) -> ReadStateV {
    if a.id == "0"@ || a.id == "1"@ {
        s
    } else if a.edge {
        if a.source.len() > 0 && a.target.len() > 0 {
            ReadStateV { edges: s.edges.push((a.id, a.source, a.target, a.style)), ..s }
        } else {
            s
        }
    } else if a.vertex {
        ReadStateV {
            pending: Some(
                VertexV { id: a.id, label: a.value, style: a.style, x: 0, y: 0, w: 0, h: 0 },
            ),
            ..s
        }
    } else {
        s
    }
}

/// The effect of one opening (or self-closing, `empty`) tag.
pub open spec fn tag_open(s: ReadStateV, name: Seq<char>, a: Seq<(Seq<char>, Seq<char>)>, empty: bool) -> ReadStateV {
    if name == "mxCell"@ {
        if empty {
            let t = cell_open(ReadStateV { pending: None, ..s }, cell_attrs(a));
            match t.pending {
                Some(v) => ReadStateV { vertices: t.vertices.push(v), pending: s.pending, ..t },
                None => ReadStateV { pending: s.pending, ..t },
            }
        } else {
            cell_open(s, cell_attrs(a))
        }
    } else if name == "mxGeometry"@ {
        match s.pending {
            Some(v) => {
                let g = geometry(a);
                ReadStateV { pending: Some(VertexV { x: g.0, y: g.1, w: g.2, h: g.3, ..v }), ..s }
            },
            None => s,
        }
    } else {
        s
    }
}

/// The effect of one closing tag: `</mxCell>` commits the pending vertex.
pub open spec fn tag_close(s: ReadStateV, name: Seq<char>) -> ReadStateV {
    if name == "mxCell"@ {
        match s.pending {
            Some(v) => ReadStateV { vertices: s.vertices.push(v), pending: None, ..s },
            None => s,
        }
    } else {
        s
    }
}

/// Whether a tag's attributes are read: those of `<mxCell>`, and those of
/// `<mxGeometry>` while a vertex is pending.
pub open spec fn reads_attrs(s: ReadStateV, name: Seq<char>) -> bool {
    name == "mxCell"@ || (name == "mxGeometry"@ && s.pending is Some)
}

/// The state before any tag is read.
pub open spec fn start_state() -> ReadStateV {
    ReadStateV { vertices: Seq::empty(), edges: Seq::empty(), pending: None }
}

/// A model under construction.
pub struct ModelBuilder {
    pub model: Model,
    pub pending: Option<Vertex>,
}

impl ModelBuilder {
    pub open spec fn state(&self) -> ReadStateV {
        ReadStateV {
            vertices: vertices_view(self.model.vertices@),
            edges: edges_view(self.model.edges@),
            pending: match self.pending {
                Some(v) => Some(v@),
                None => None,
            },
        }
    }

    pub fn new() -> (r: ModelBuilder)
        ensures
            r.state() == (ReadStateV {
                vertices: Seq::empty(),
                edges: Seq::empty(),
                pending: None,
            }),
    {
        let r = ModelBuilder { model: Model { vertices: Vec::new(), edges: Vec::new() }, pending: None };
        assert(r.state().vertices =~= Seq::<VertexV>::empty());
        assert(r.state().edges =~= Seq::<EdgeV>::empty());
        r
    }

    /// Whether a tag called `name` has its attributes read.
    pub fn wants_attrs(&self, name: &str) -> (r: bool)
        ensures
            r == reads_attrs(self.state(), name@),
    {
        str_eq(name, "mxCell") || (str_eq(name, "mxGeometry") && self.pending.is_some())
    }

    /// Apply one opening (or self-closing) tag with its attributes.
    pub fn open_tag(&mut self, name: &str, attrs: &Vec<(String, String)>, empty: bool)
        ensures
            final(self).state() == tag_open(old(self).state(), name@, attrs_view(attrs@), empty),
    {
        if str_eq(name, "mxCell") {
            let a = read_cell_attrs(attrs);
            if empty {
                let saved = self.pending.take();
                self.cell_open(a);
                proof {
                    assert(self.state() == cell_open(
                        ReadStateV { pending: None, ..old(self).state() },
                        cell_attrs(attrs_view(attrs@)),
                    ));
                }
                let ghost mid = self.state();
                if let Some(v) = self.pending.take() {
                    self.model.vertices.push(v);
                    assert(vertices_view(self.model.vertices@) =~= mid.vertices.push(v@));
                }
                self.pending = saved;
            } else {
                self.cell_open(a);
            }
        } else if str_eq(name, "mxGeometry") {
            if self.pending.is_some() {
                let (x, y, w, h) = read_geometry(attrs);
                let mut v = self.pending.take().unwrap();
                v.x = x;
                v.y = y;
                v.w = w;
                v.h = h;
                self.pending = Some(v);
            }
        }
    }

    fn cell_open(&mut self, a: CellAttrs)
        ensures
            final(self).state() == cell_open(old(self).state(), a.view()),
    {
        if str_eq(a.id.as_str(), "0") || str_eq(a.id.as_str(), "1") {
            return;
        }
        if a.edge {
            if !a.source.as_str().is_empty() && !a.target.as_str().is_empty() {
                let ghost before = self.state();
                self.model.edges.push(Edge { id: a.id, source: a.source, target: a.target, style: a.style });
                assert(edges_view(self.model.edges@) =~= before.edges.push(
                    (a.view().id, a.view().source, a.view().target, a.view().style),
                ));
            } else {
                assert(!(a.view().source.len() > 0 && a.view().target.len() > 0));
            }
            return;
        }
        if a.vertex {
            self.pending = Some(
                Vertex {
                    id: a.id,
                    label: a.value,
                    style: a.style,
                    x: Decimal::zero(),
                    y: Decimal::zero(),
                    w: Decimal::zero(),
                    h: Decimal::zero(),
                },
            );
        }
    }

    /// Apply one closing tag.
    pub fn close_tag(&mut self, name: &str)
        ensures
            final(self).state() == tag_close(old(self).state(), name@),
    {
        if str_eq(name, "mxCell") {
            if let Some(v) = self.pending.take() {
                let ghost before = vertices_view(self.model.vertices@);
                self.model.vertices.push(v);
                assert(vertices_view(self.model.vertices@) =~= before.push(v@));
            }
        }
    }
}

struct CellAttrs {
    id: String,
    value: String,
    style: String,
    vertex: bool,
    edge: bool,
    source: String,
    target: String,
}

impl CellAttrs {
    spec fn view(&self) -> CellAttrsV {
        CellAttrsV {
            id: self.id@,
            value: self.value@,
            style: self.style@,
            vertex: self.vertex,
            edge: self.edge,
            source: self.source@,
            target: self.target@,
        }
    }
}

fn copy_string(s: &String) -> (r: String)
    ensures
        r@ == s@,
{
    let mut r = String::new();
    r.append(s.as_str());
    r
}

fn read_cell_attrs(attrs: &Vec<(String, String)>) -> (r: CellAttrs)
    ensures
        r.view() == cell_attrs(attrs_view(attrs@)),
{
    let mut out = CellAttrs {
        id: String::new(),
        value: String::new(),
        style: String::new(),
        vertex: false,
        edge: false,
        source: String::new(),
        target: String::new(),
    };
    let mut i: usize = 0;
    while i < attrs.len()
        invariant
            0 <= i <= attrs@.len(),
            out.view() == cell_attrs(attrs_view(attrs@).take(i as int)),
        decreases attrs@.len() - i,
    {
        let k = attrs[i].0.as_str();
        let v = &attrs[i].1;
        if str_eq(k, "id") {
            out.id = copy_string(v);
        } else if str_eq(k, "value") {
            out.value = copy_string(v);
        } else if str_eq(k, "style") {
            out.style = copy_string(v);
        } else if str_eq(k, "vertex") {
            out.vertex = str_eq(v.as_str(), "1");
        } else if str_eq(k, "edge") {
            out.edge = str_eq(v.as_str(), "1");
        } else if str_eq(k, "source") {
            out.source = copy_string(v);
        } else if str_eq(k, "target") {
            out.target = copy_string(v);
        }
        proof {
            let t = attrs_view(attrs@).take(i + 1);
            assert(t.drop_last() =~= attrs_view(attrs@).take(i as int));
            assert(t.last() == (attrs@[i as int].0@, attrs@[i as int].1@));
        }
        i = i + 1;
    }
    assert(attrs_view(attrs@).take(attrs@.len() as int) =~= attrs_view(attrs@));
    out
}

pub(crate) fn num_attr(s: &String) -> (r: Decimal)
    ensures
        r@ == num_or_zero(s@),
{
    let v = chars_of(s.as_str());
    assert(v@.subrange(0, v@.len() as int) =~= v@);
    match Decimal::parse_range(&v, 0, v.len()) {
        Some(d) => d,
        None => Decimal::zero(),
    }
}

fn read_geometry(attrs: &Vec<(String, String)>) -> (r: (Decimal, Decimal, Decimal, Decimal))
    ensures
        (r.0@, r.1@, r.2@, r.3@) == geometry(attrs_view(attrs@)),
{
    let mut x = Decimal::zero();
    let mut y = Decimal::zero();
    let mut w = Decimal::zero();
    let mut h = Decimal::zero();
    let mut i: usize = 0;
    while i < attrs.len()
        invariant
            0 <= i <= attrs@.len(),
            (x@, y@, w@, h@) == geometry(attrs_view(attrs@).take(i as int)),
        decreases attrs@.len() - i,
    {
        let k = attrs[i].0.as_str();
        let v = &attrs[i].1;
        if str_eq(k, "x") {
            x = num_attr(v);
        } else if str_eq(k, "y") {
            y = num_attr(v);
        } else if str_eq(k, "width") {
            w = num_attr(v);
        } else if str_eq(k, "height") {
            h = num_attr(v);
        }
        proof {
            let t = attrs_view(attrs@).take(i + 1);
            assert(t.drop_last() =~= attrs_view(attrs@).take(i as int));
            assert(t.last() == (attrs@[i as int].0@, attrs@[i as int].1@));
        }
        i = i + 1;
    }
    assert(attrs_view(attrs@).take(attrs@.len() as int) =~= attrs_view(attrs@));
    (x, y, w, h)
}

/// A read state in which every vertex and edge is a real cell: no root
/// cell ids, and every edge names both ends.
pub open spec fn cells_ok(s: ReadStateV) -> bool {
    &&& forall|i: int| #![trigger s.vertices[i]] 0 <= i < s.vertices.len() ==> s.vertices[i].id != "0"@ && s.vertices[i].id != "1"@
    &&& forall|i: int| #![trigger s.edges[i]] 0 <= i < s.edges.len() ==> s.edges[i].0 != "0"@ && s.edges[i].0 != "1"@
        && s.edges[i].1.len() > 0 && s.edges[i].2.len() > 0
    &&& match s.pending {
        Some(v) => v.id != "0"@ && v.id != "1"@,
        None => true,
    }
}

proof fn lemma_cell_open_ok(s: ReadStateV, a: CellAttrsV)
    requires
        cells_ok(s),
    ensures
        cells_ok(cell_open(s, a)),
{
    let t = cell_open(s, a);
    if !(a.id == "0"@ || a.id == "1"@) && a.edge && a.source.len() > 0 && a.target.len() > 0 {
        let ne = (a.id, a.source, a.target, a.style);
        assert(t.edges == s.edges.push(ne));
        assert(ne.0 != "0"@ && ne.0 != "1"@ && ne.1.len() > 0 && ne.2.len() > 0);
        assert forall|i: int| 0 <= i < t.edges.len() implies t.edges[i].0 != "0"@ && t.edges[i].0 != "1"@
            && t.edges[i].1.len() > 0 && t.edges[i].2.len() > 0 by {
            if i < s.edges.len() {
                assert(t.edges[i] == s.edges[i]);
            } else {
                assert(t.edges[i] == (a.id, a.source, a.target, a.style));
            }
        }
    }
}

proof fn lemma_open_keeps_ok(s: ReadStateV, name: Seq<char>, a: Seq<(Seq<char>, Seq<char>)>, empty: bool)
    requires
        cells_ok(s),
    ensures
        cells_ok(tag_open(s, name, a, empty)),
{
    let t = tag_open(s, name, a, empty);
    if name == "mxCell"@ && empty {
        let s0 = ReadStateV { pending: None, ..s };
        assert(s0.vertices == s.vertices && s0.edges == s.edges);
        assert(cells_ok(s0));
        lemma_cell_open_ok(s0, cell_attrs(a));
        let u = cell_open(s0, cell_attrs(a));
        assert forall|i: int| 0 <= i < t.vertices.len() implies t.vertices[i].id != "0"@ && t.vertices[i].id != "1"@ by {
            if i < u.vertices.len() {
                assert(t.vertices[i] == u.vertices[i]);
            }
        }
        assert(t.edges == u.edges);
    } else if name == "mxCell"@ {
        lemma_cell_open_ok(s, cell_attrs(a));
    }
}

proof fn lemma_close_keeps_ok(s: ReadStateV, name: Seq<char>)
    requires
        cells_ok(s),
    ensures
        cells_ok(tag_close(s, name)),
{
    let t = tag_close(s, name);
    assert forall|i: int| 0 <= i < t.vertices.len() implies t.vertices[i].id != "0"@ && t.vertices[i].id != "1"@ by {
        if i < s.vertices.len() {
            assert(t.vertices[i] == s.vertices[i]);
        }
    }
}

/// How reading a document can fail.
pub enum ReadFail {
    /// The XML does not parse (with the message reported).
    Xml(Seq<char>),
    /// A compressed body is not base64.
    Base64,
    /// A compressed body does not inflate.
    Inflate,
    /// An inflated body is not percent-encoded UTF-8.
    UrlDecode,
    /// The file is marked `compressed="true"`.
    Compressed,
}

/// The end of reading a document: the state reached, or a failure.
pub enum ReadEnd {
    Done(ReadStateV),
    Failed(ReadFail),
}

/// Whether the error `e` reports the failure `f`.
pub open spec fn reports(e: RenderError, f: ReadFail) -> bool {
    match f {
        ReadFail::Xml(m) => e matches RenderError::Xml(em) && em@ == m,
        ReadFail::Base64 => e is Base64Decode,
        ReadFail::Inflate => e is Inflate,
        ReadFail::UrlDecode => e is UrlDecode,
        ReadFail::Compressed => e is CompressedUnsupported,
    }
}

/// The message of a parse failure at byte `pos`.
pub open spec fn xml_error_text(pos: nat, msg: Seq<char>) -> Seq<char> {
    "at "@ + crate::decimal::nat_digits(pos) + ": "@ + msg
}

/// The `<mxGraphModel>` text a compressed body `t` holds: base64, then
/// raw DEFLATE, then percent-decoding.
pub open spec fn inflated_body(t: Seq<char>) -> Result<Seq<char>, ReadFail> {
    match base64_decoded(trim(t)) {
        None => Err(ReadFail::Base64),
        Some(bytes) => match inflated_text(bytes) {
            None => Err(ReadFail::Inflate),
            Some(u) => match url_decoded(u) {
                None => Err(ReadFail::UrlDecode),
                Some(x) => Ok(x),
            },
        },
    }
}

/// The attributes that an opening tag (the `k`-th event of `text`) is
/// applied with: its own where they are read, none otherwise.
pub open spec fn cell_tag_attrs(s: ReadStateV, text: Seq<char>, k: nat) -> Result<Seq<(Seq<char>, Seq<char>)>, Seq<char>> {
    if reads_attrs(s, tag_name_at(text, k)) {
        tag_attrs_at(text, k)
    } else {
        Ok(Seq::empty())
    }
}

/// Reading the events of `text` from the `k`-th on, with at most `fuel`
/// more reads, from state `s`; `in_diagram` says whether a `<diagram>` is
/// open. With `inflate`, the text of an open `<diagram>` that is a
/// compressed body is inflated and its cells read in place.
pub open spec fn read_from(text: Seq<char>, k: nat, fuel: nat, s: ReadStateV, inflate: bool, in_diagram: bool) -> ReadEnd
    decreases (if inflate { 1int } else { 0int }), fuel,
{
    if fuel == 0 {
        ReadEnd::Failed(ReadFail::Xml("no end of document"@))
    } else {
        let f = (fuel - 1) as nat;
        match xml_event_at(text, k) {
            XmlEventV::Fail(pos, msg) => ReadEnd::Failed(ReadFail::Xml(xml_error_text(pos, msg))),
            XmlEventV::Eof => ReadEnd::Done(s),
            XmlEventV::Start => {
                let name = tag_name_at(text, k);
                match cell_tag_attrs(s, text, k) {
                    Err(m) => ReadEnd::Failed(ReadFail::Xml(m)),
                    Ok(a) => read_from(text, k + 1, f, tag_open(s, name, a, false), inflate, in_diagram || name == "diagram"@),
                }
            },
            XmlEventV::Empty => {
                let name = tag_name_at(text, k);
                match cell_tag_attrs(s, text, k) {
                    Err(m) => ReadEnd::Failed(ReadFail::Xml(m)),
                    Ok(a) => read_from(text, k + 1, f, tag_open(s, name, a, true), inflate, in_diagram),
                }
            },
            XmlEventV::End(name) => read_from(text, k + 1, f, tag_close(s, name), inflate, in_diagram && name != "diagram"@),
            XmlEventV::Text => {
                if inflate && in_diagram {
                    match text_at(text, k) {
                        Err(m) => ReadEnd::Failed(ReadFail::Xml(m)),
                        Ok(t) => {
                            if compressed_body(t) {
                                match inflated_body(t) {
                                    Err(e) => ReadEnd::Failed(e),
                                    Ok(x) => match read_from(x, 0, x.len() + 1, s, false, false) {
                                        ReadEnd::Failed(e) => ReadEnd::Failed(e),
                                        ReadEnd::Done(s2) => read_from(text, k + 1, f, s2, inflate, in_diagram),
                                    },
                                }
                            } else {
                                read_from(text, k + 1, f, s, inflate, in_diagram)
                            }
                        },
                    }
                } else {
                    read_from(text, k + 1, f, s, inflate, in_diagram)
                }
            },
            XmlEventV::Other => read_from(text, k + 1, f, s, inflate, in_diagram),
        }
    }
}

/// Whether the file is marked compressed (`compressed="true"`, in either
/// quote style).
pub open spec fn marked_compressed(xml: Seq<char>) -> bool {
    has_sub(xml, "compressed=\"true\""@) || has_sub(xml, "compressed='true'"@)
}

/// Reading a whole document: a file marked compressed is refused;
/// otherwise its events are read from the start, one more read allowed
/// than it has characters.
pub open spec fn read_document(xml: Seq<char>) -> ReadEnd {
    if marked_compressed(xml) {
        ReadEnd::Failed(ReadFail::Compressed)
    } else {
        read_from(xml, 0, xml.len() + 1, start_state(), true, false)
    }
}

/// The error a parse failure is reported as.
fn xml_error(f: XmlFailure) -> (r: RenderError)
    ensures
        r matches RenderError::Xml(m) && m@ == xml_error_text(f.position as nat, f.message@),
{
    let mut m = String::new();
    m.append("at ");
    crate::decimal::push_nat(&mut m, f.position as u128);
    m.append(": ");
    m.append(f.message.as_str());
    assert(m@ =~= xml_error_text(f.position as nat, f.message@));
    RenderError::Xml(m)
}

/// Read the cells of `xml` into `b`. With `inflate`, a compressed
/// `<diagram>` body is inflated and its cells read in place.
fn read_cells(xml: &str, b: &mut ModelBuilder, inflate: bool) -> (r: Result<(), RenderError>)
    requires
        cells_ok(old(b).state()),
    ensures
        cells_ok(final(b).state()),
        match read_from(xml@, 0, xml@.len() + 1, old(b).state(), inflate, false) {
            ReadEnd::Done(st) => r is Ok && final(b).state() == st,
            ReadEnd::Failed(f) => r matches Err(e) && reports(e, f),
        },
    decreases (if inflate { 1int } else { 0int }),
{
    let ghost goal = read_from(xml@, 0, xml@.len() + 1, old(b).state(), inflate, false);
    let mut src = xml_reader(xml);
    let mut in_diagram = false;
    // Every event but the end of the document consumes input, so a
    // document of `n` characters reaches its end within `n + 1` events.
    let budget: u128 = chars_of(xml).len() as u128;
    let mut steps: u128 = 0;
    while steps <= budget
        invariant
            cells_ok(b.state()),
            budget == xml@.len(),
            steps <= budget + 1,
            src.text() == xml@,
            src.seen() == steps,
            budget <= 0xffff_ffff_ffff_ffff,
            goal == read_from(xml@, 0, xml@.len() + 1, old(b).state(), inflate, false),
            goal == read_from(xml@, steps as nat, (budget + 1 - steps) as nat, b.state(), inflate, in_diagram),
        decreases budget + 1 - steps,
    {
        let ghost k = steps as nat;
        let ghost f = (budget - steps) as nat;
        let ghost s = b.state();
        let ev = xml_next(&mut src);
        steps = steps + 1;
        match ev {
            Err(fail) => return Err(xml_error(fail)),
            Ok(XmlEvent::Eof) => return Ok(()),
            Ok(XmlEvent::Start(e)) => {
                let name = tag_name(&e);
                let attrs = if b.wants_attrs(name.as_str()) {
                    match tag_attrs(&e, &src) {
                        Ok(a) => a,
                        Err(m) => return Err(RenderError::Xml(m)),
                    }
                } else {
                    Vec::new()
                };
                proof {
                    assert(attrs_view(attrs@) =~= match cell_tag_attrs(s, xml@, k) { Ok(a) => a, Err(_) => Seq::empty() });
                    lemma_open_keeps_ok(b.state(), name@, attrs_view(attrs@), false);
                }
                if str_eq(name.as_str(), "diagram") {
                    in_diagram = true;
                }
                b.open_tag(name.as_str(), &attrs, false);
            },
            Ok(XmlEvent::Empty(e)) => {
                let name = tag_name(&e);
                let attrs = if b.wants_attrs(name.as_str()) {
                    match tag_attrs(&e, &src) {
                        Ok(a) => a,
                        Err(m) => return Err(RenderError::Xml(m)),
                    }
                } else {
                    Vec::new()
                };
                proof {
                    assert(attrs_view(attrs@) =~= match cell_tag_attrs(s, xml@, k) { Ok(a) => a, Err(_) => Seq::empty() });
                    lemma_open_keeps_ok(b.state(), name@, attrs_view(attrs@), true);
                }
                b.open_tag(name.as_str(), &attrs, true);
            },
            Ok(XmlEvent::End(name)) => {
                if str_eq(name.as_str(), "diagram") {
                    in_diagram = false;
                }
                proof {
                    lemma_close_keeps_ok(b.state(), name@);
                }
                b.close_tag(name.as_str());
            },
            Ok(XmlEvent::Text(t)) => {
                if inflate && in_diagram {
                    let text = match text_unescaped(&t) {
                        Ok(s) => s,
                        Err(m) => return Err(RenderError::Xml(m)),
                    };
                    if is_compressed_body(text.as_str()) {
                        let inner = match inflate_diagram_body(text.as_str()) {
                            Ok(x) => x,
                            Err(e) => return Err(e),
                        };
                        match read_cells(inner.as_str(), b, false) {
                            Ok(()) => {},
                            Err(e) => return Err(e),
                        }
                    }
                }
            },
            Ok(XmlEvent::Other) => {},
        }
    }
    let mut m = String::new();
    m.append("no end of document");
    Err(RenderError::Xml(m))
}

/// Parse a drawio XML string into a [`Model`]: the cells that reading the
/// document's events gives (see [`read_document`]), a compressed
/// `<diagram>` body inflated in place. A file marked
/// `compressed="true"` is refused. Every vertex and edge of the result is
/// a real cell: none has id `0` or `1`, and every edge names its source
/// and target.
pub fn parse(xml: &str) -> (r: Result<Model, RenderError>)
    ensures
        match read_document(xml@) {
            ReadEnd::Done(st) => r matches Ok(m) && vertices_view(m.vertices@) == st.vertices
                && edges_view(m.edges@) == st.edges,
            ReadEnd::Failed(f) => r matches Err(e) && reports(e, f),
        },
        r matches Ok(m) ==> cells_ok(
            ReadStateV { vertices: vertices_view(m.vertices@), edges: edges_view(m.edges@), pending: None },
        ),
{
    let v = chars_of(xml);
    if contains_str(&v, "compressed=\"true\"") || contains_str(&v, "compressed='true'") {
        return Err(RenderError::CompressedUnsupported);
    }
    let mut b = ModelBuilder::new();
    match read_cells(xml, &mut b, true) {
        Ok(()) => {},
        Err(e) => return Err(e),
    }
    let ghost st = b.state();
    let m = b.model;
    assert(vertices_view(m.vertices@) == st.vertices);
    assert(edges_view(m.edges@) == st.edges);
    Ok(m)
}

} // verus!
