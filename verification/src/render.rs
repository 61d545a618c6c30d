//! Rendering a diagram model to SVG.
//!
//! Groups paint first (boundary containers sit behind everything), then
//! edges, then the other vertices on top. A vertex bound to a stencil
//! library (AWS resource icons, Kubernetes icons, Azure and GCP shapes)
//! draws its glyph from the matching [`Stencils`] library; any other vertex
//! is a plain rectangle. Edges run between side-centre anchors of their
//! cells unless the edge style pins an end with `exitX/exitY` or
//! `entryX/entryY`; `edgeStyle=orthogonalEdgeStyle` bends them once at a
//! right angle.

use vstd::prelude::*;
use crate::error::RenderError;
use crate::author::{escape, push_escaped};
use crate::decimal::{Coord, Decimal, LIMIT, dadd, dmax, dmin, dmul, dsub, fmt_dec, fmt_half, tdiv, units};
use crate::model::{Edge, EdgeV, Model, Vertex, VertexV, cells_ok, edges_view, vertices_view, ReadStateV, ReadEnd, read_document, reports};
use crate::stencil::{StencilLibrary, lookup_in};
use crate::stencil_svg::{CellBounds, Stencil, StencilV, render_stencil_to_svg, stencil_svg};
use crate::style::{StyleMap, EdgeEndpoints, endpoints_of, pair_view, style_map};
use crate::text::{chars_of, last_index, push_range, push_str, starts_with, str_eq};

verus! {

/// The four stencil libraries a diagram's shapes are drawn from.
pub struct Stencils {
    /// `mxgraph.aws4`
    pub aws4: StencilLibrary,
    /// `mxgraph.azure`
    pub azure: StencilLibrary,
    /// `mxgraph.gcp`
    pub gcp: StencilLibrary,
    /// `mxgraph.kubernetes`
    pub kubernetes: StencilLibrary,
}

pub struct StencilsV {
    pub aws4: Map<Seq<char>, StencilV>,
    pub azure: Map<Seq<char>, StencilV>,
    pub gcp: Map<Seq<char>, StencilV>,
    pub kubernetes: Map<Seq<char>, StencilV>,
}

impl View for Stencils {
    type V = StencilsV;

    open spec fn view(&self) -> StencilsV {
        StencilsV { aws4: self.aws4@, azure: self.azure@, gcp: self.gcp@, kubernetes: self.kubernetes@ }
    }
}

/// Which library a resolved glyph came from.
#[derive(Debug, Clone, Copy, PartialEq, Eq, Structural)]
pub enum LibraryKind {
    Aws4,
    Azure,
    Gcp,
    Kubernetes,
}

/// A style key's value, or `d` when the key is absent.
pub open spec fn style_or(m: Map<Seq<char>, Seq<char>>, k: Seq<char>, d: Seq<char>) -> Seq<char> {
    if m.contains_key(k) {
        m[k]
    } else {
        d
    }
}

/// The part of `s` after its last `.` (all of `s` when it has none).
pub open spec fn last_segment(s: Seq<char>) -> Seq<char> {
    match last_index(s, '.') {
        Some(i) => s.subrange(i + 1, s.len() as int),
        None => s,
    }
}

/// The AWS icon to try when `res_icon` names no stencil: drawio keys the
/// OpenSearch tile on the older `elasticsearch_service` glyph.
pub open spec fn alias_of(res_icon: Seq<char>) -> Option<Seq<char>> {
    if last_segment(res_icon) == "opensearch_service"@ {
        Some("elasticsearch_service"@)
    } else {
        None
    }
}

pub fn aws4_res_icon_alias(res_icon: &str) -> (r: Option<&'static str>)
    ensures
        match r {
            Some(a) => alias_of(res_icon@) == Some(a@),
            None => alias_of(res_icon@) == None::<Seq<char>>,
        },
{
    let v = chars_of(res_icon);
    let mut i = v.len();
    while i > 0 && v[i - 1] != '.'
        invariant
            i <= v@.len(),
            forall|j: int| i <= j < v@.len() ==> v@[j] != '.',
        decreases i,
    {
        i = i - 1;
    }
    let mut seg = String::new();
    push_range(&mut seg, &v, i, v.len());
    proof {
        let s = res_icon@;
        if i > 0 {
            let k = (i - 1) as int;
            assert(0 <= k < s.len() && s[k] == '.' && (forall|j: int| k < j < s.len() ==> s[j] != '.'));
            let c = choose|c: int| 0 <= c < s.len() && s[c] == '.' && (forall|j: int| c < j < s.len() ==> s[j] != '.');
            if c < k {
                assert(s[k] != '.');
            } else if k < c {
                assert(s[c] != '.');
            }
            assert(last_index(s, '.') == Some(k));
        } else {
            assert(v@.subrange(0, v@.len() as int) =~= v@);
            if exists|c: int| 0 <= c < s.len() && s[c] == '.' && (forall|j: int| c < j < s.len() ==> s[j] != '.') {
                let c = choose|c: int| 0 <= c < s.len() && s[c] == '.' && (forall|j: int| c < j < s.len() ==> s[j] != '.');
                assert(v@[c] != '.');
            }
        }
    }
    if str_eq(seg.as_str(), "opensearch_service") {
        Some("elasticsearch_service")
    } else {
        None
    }
}

/// The glyph a style resolves to, and its library:
/// `shape=mxgraph.aws4.resourceIcon` with `resIcon` (or its alias) from
/// AWS, `shape=mxgraph.kubernetes.icon2` with `prIcon` from Kubernetes,
/// `shape=mxgraph.azure.*` from Azure and `shape=mxgraph.gcp.*` from GCP.
pub open spec fn resolve(m: Map<Seq<char>, Seq<char>>, libs: StencilsV) -> Option<(StencilV, LibraryKind)> {
    if !m.contains_key("shape"@) {
        None
    } else {
        let shape = m["shape"@];
        if shape == "mxgraph.aws4.resourceIcon"@ {
            if !m.contains_key("resIcon"@) {
                None
            } else {
                let ri = m["resIcon"@];
                match lookup_in(libs.aws4, ri) {
                    Some(s) => Some((s, LibraryKind::Aws4)),
                    None => match alias_of(ri) {
                        Some(a) => match lookup_in(libs.aws4, a) {
                            Some(s) => Some((s, LibraryKind::Aws4)),
                            None => None,
                        },
                        None => None,
                    },
                }
            }
        } else if shape == "mxgraph.kubernetes.icon2"@ {
            if !m.contains_key("prIcon"@) {
                None
            } else {
                match lookup_in(libs.kubernetes, m["prIcon"@]) {
                    Some(s) => Some((s, LibraryKind::Kubernetes)),
                    None => None,
                }
            }
        } else if "mxgraph.azure."@.len() <= shape.len() && shape.subrange(0, "mxgraph.azure."@.len() as int)
            == "mxgraph.azure."@ {
            match lookup_in(libs.azure, shape) {
                Some(s) => Some((s, LibraryKind::Azure)),
                None => None,
            }
        } else if "mxgraph.gcp."@.len() <= shape.len() && shape.subrange(0, "mxgraph.gcp."@.len() as int)
            == "mxgraph.gcp."@ {
            match lookup_in(libs.gcp, shape) {
                Some(s) => Some((s, LibraryKind::Gcp)),
                None => None,
            }
        } else {
            None
        }
    }
}

/// Inspect a vertex's style and, when it refers to a known stencil
/// library, return the matching glyph and its library.
pub fn resolve_stencil<'a>(style: &StyleMap, libs: &'a Stencils) -> (r: Option<(&'a Stencil, LibraryKind)>)
    ensures
        match r {
            Some((s, k)) => resolve(style@, libs@) == Some((s@, k)),
            None => resolve(style@, libs@) == None::<(StencilV, LibraryKind)>,
        },
{
    let shape = match style.get("shape") {
        Some(s) => s,
        None => return None,
    };
    if str_eq(shape, "mxgraph.aws4.resourceIcon") {
        let res_icon = match style.get("resIcon") {
            Some(s) => s,
            None => return None,
        };
        return match libs.aws4.lookup(res_icon) {
            Some(s) => Some((s, LibraryKind::Aws4)),
            None => match aws4_res_icon_alias(res_icon) {
                Some(a) => match libs.aws4.lookup(a) {
                    Some(s) => Some((s, LibraryKind::Aws4)),
                    None => None,
                },
                None => None,
            },
        };
    }
    if str_eq(shape, "mxgraph.kubernetes.icon2") {
        let pr_icon = match style.get("prIcon") {
            Some(s) => s,
            None => return None,
        };
        return match libs.kubernetes.lookup(pr_icon) {
            Some(s) => Some((s, LibraryKind::Kubernetes)),
            None => None,
        };
    }
    if starts_with(shape, "mxgraph.azure.") {
        return match libs.azure.lookup(shape) {
            Some(s) => Some((s, LibraryKind::Azure)),
            None => None,
        };
    }
    if starts_with(shape, "mxgraph.gcp.") {
        return match libs.gcp.lookup(shape) {
            Some(s) => Some((s, LibraryKind::Gcp)),
            None => None,
        };
    }
    None
}


// ------------------------------------------------------------------
// Vertices.

/// `<rect x=".." y=".." width=".." height=".."`, unterminated.
pub open spec fn rect_head(x: int, y: int, w: int, h: int) -> Seq<char> {
    "<rect x=\""@ + fmt_dec(x) + "\" y=\""@ + fmt_dec(y) + "\" width=\""@ + fmt_dec(w) + "\" height=\""@
        + fmt_dec(h) + "\""@
}

/// Whether a style draws an AWS group container.
pub open spec fn is_group_style(style: Seq<char>) -> bool {
    style_map(style).contains_key("shape"@) && style_map(style)["shape"@] == "mxgraph.aws4.group"@
}

/// A group's outline: a rounded rectangle, dashed when `dashed`.
pub open spec fn group_outline(v: VertexV, stroke: Seq<char>, dashed: bool) -> Seq<char> {
    rect_head(v.x, v.y, v.w, v.h) + " fill=\"none\" stroke=\""@ + stroke + "\" stroke-width=\"1.5\""@ + (if dashed {
        " stroke-dasharray=\"6,4\""@
    } else {
        ""@
    }) + " rx=\"6\" ry=\"6\"/>"@
}

/// A group's label, at its top left.
pub open spec fn group_label(v: VertexV, font: Seq<char>) -> Seq<char> {
    if v.label.len() == 0 {
        Seq::empty()
    } else {
        "<text x=\""@ + fmt_dec(dadd(v.x, units(14))) + "\" y=\""@ + fmt_dec(dadd(v.y, units(20)))
            + "\" font-family=\"sans-serif\" font-size=\"13\" font-weight=\"600\" fill=\""@ + font
            + "\" text-anchor=\"start\">"@ + escape(v.label) + "</text>"@
    }
}

/// A group: its outline, dashed unless `dashed=0`, and its label.
pub open spec fn group_svg(v: VertexV) -> Seq<char> {
    let m = style_map(v.style);
    let stroke = style_or(m, "strokeColor"@, "#7D8998"@);
    group_outline(v, stroke, style_or(m, "dashed"@, "1"@) != "0"@) + group_label(
        v,
        style_or(m, "fontColor"@, stroke),
    )
}

/// The label of a vertex, centred below it.
pub open spec fn label_svg(v: VertexV, font: Seq<char>) -> Seq<char> {
    if v.label.len() == 0 {
        Seq::empty()
    } else {
        "<text x=\""@ + fmt_half(2 * v.x + v.w) + "\" y=\""@ + fmt_dec(dadd(dadd(v.y, v.h), units(14)))
            + "\" font-family=\"sans-serif\" font-size=\"12\" fill=\""@ + font + "\" text-anchor=\"middle\">"@
            + escape(v.label) + "</text>"@
    }
}

/// Padding inside an icon tile (0.18 of its size).
pub open spec fn tile_pad() -> int {
    180_000
}

/// Padding around a bare Azure or GCP glyph (0.04 of its size).
pub open spec fn glyph_pad() -> int {
    40_000
}

/// A tile rectangle with fill `fill` and corner radius `r`.
pub open spec fn tile_svg(v: VertexV, fill: Seq<char>, r: Seq<char>) -> Seq<char> {
    rect_head(v.x, v.y, v.w, v.h) + " fill=\""@ + fill + "\" stroke=\"none\" rx=\""@ + r + "\" ry=\""@ + r
        + "\"/>"@
}

/// What a vertex draws, its label aside.
pub open spec fn vertex_body(v: VertexV, libs: StencilsV) -> Seq<char> {
    let m = style_map(v.style);
    let aspect = m.contains_key("aspect"@) && m["aspect"@] == "fixed"@;
    let cell = (v.x, v.y, v.w, v.h);
    if style_or(m, "shape"@, ""@) == "mxgraph.aws4.resourceIcon"@ {
        tile_svg(v, style_or(m, "fillColor"@, "#cccccc"@), "3"@) + match resolve(m, libs) {
            Some((s, _)) => stencil_svg(s, cell, tile_pad(), "#ffffff"@, aspect),
            None => Seq::empty(),
        }
    } else {
        match resolve(m, libs) {
            Some((s, LibraryKind::Kubernetes)) => tile_svg(v, style_or(m, "fillColor"@, "#2875E2"@), "4"@)
                + stencil_svg(s, cell, tile_pad(), "#ffffff"@, aspect),
            Some((s, k)) => stencil_svg(
                s,
                cell,
                glyph_pad(),
                style_or(m, "fillColor"@, (if k == LibraryKind::Azure {
                    "#00BEF2"@
                } else {
                    "#4285F4"@
                })),
                aspect,
            ),
            None => rect_head(v.x, v.y, v.w, v.h) + " fill=\""@ + style_or(m, "fillColor"@, "#cccccc"@)
                + "\" stroke=\"#999\" stroke-width=\"1\"/>"@,
        }
    }
}

/// A vertex other than a group: its body, then its label.
pub open spec fn vertex_svg(v: VertexV, libs: StencilsV) -> Seq<char> {
    vertex_body(v, libs) + label_svg(v, style_or(style_map(v.style), "fontColor"@, "#232F3E"@))
}

fn write_rect_head(out: &mut String, x: Decimal, y: Decimal, w: Decimal, h: Decimal)
    ensures
        final(out)@ == old(out)@ + rect_head(x@, y@, w@, h@),
{
    push_str(out, "<rect x=\"");
    x.write(out);
    push_str(out, "\" y=\"");
    y.write(out);
    push_str(out, "\" width=\"");
    w.write(out);
    push_str(out, "\" height=\"");
    h.write(out);
    push_str(out, "\"");
    assert(out@ =~= old(out)@ + rect_head(x@, y@, w@, h@));
}

/// Whether a style string draws an AWS group container.
pub fn is_group(style: &str) -> (r: bool)
    ensures
        r == is_group_style(style@),
{
    match StyleMap::parse(style).get("shape") {
        Some(s) => str_eq(s, "mxgraph.aws4.group"),
        None => false,
    }
}

fn write_group_outline(out: &mut String, v: &Vertex, stroke: &str, dashed: bool)
    ensures
        final(out)@ == old(out)@ + group_outline(v@, stroke@, dashed),
{
    write_rect_head(out, v.x, v.y, v.w, v.h);
    push_str(out, " fill=\"none\" stroke=\"");
    push_str(out, stroke);
    push_str(out, "\" stroke-width=\"1.5\"");
    push_str(out, if dashed { " stroke-dasharray=\"6,4\"" } else { "" });
    push_str(out, " rx=\"6\" ry=\"6\"/>");
    assert(out@ =~= old(out)@ + group_outline(v@, stroke@, dashed));
}

fn write_group_label(out: &mut String, v: &Vertex, font: &str)
    ensures
        final(out)@ == old(out)@ + group_label(v@, font@),
{
    if !v.label.as_str().is_empty() {
        push_str(out, "<text x=\"");
        v.x.add(Decimal::from_int(14)).write(out);
        push_str(out, "\" y=\"");
        v.y.add(Decimal::from_int(20)).write(out);
        push_str(out, "\" font-family=\"sans-serif\" font-size=\"13\" font-weight=\"600\" fill=\"");
        push_str(out, font);
        push_str(out, "\" text-anchor=\"start\">");
        push_escaped(out, v.label.as_str());
        push_str(out, "</text>");
    }
    assert(out@ =~= old(out)@ + group_label(v@, font@));
}

/// Append the SVG of a group container.
pub fn render_group(out: &mut String, v: &Vertex)
    ensures
        final(out)@ == old(out)@ + group_svg(v@),
{
    let style = StyleMap::parse(v.style.as_str());
    let stroke = style.get_or("strokeColor", "#7D8998");
    let font_color = style.get_or("fontColor", stroke);
    let dashed = !str_eq(style.get_or("dashed", "1"), "0");
    write_group_outline(out, v, stroke, dashed);
    write_group_label(out, v, font_color);
    assert(out@ =~= old(out)@ + group_svg(v@));
}

fn write_label(out: &mut String, v: &Vertex, font: &str)
    ensures
        final(out)@ == old(out)@ + label_svg(v@, font@),
{
    if !v.label.as_str().is_empty() {
        push_str(out, "<text x=\"");
        v.x.bounds();
        v.w.bounds();
        Coord::from_halves(2 * v.x.micros() + v.w.micros()).write(out);
        push_str(out, "\" y=\"");
        v.y.add(v.h).add(Decimal::from_int(14)).write(out);
        push_str(out, "\" font-family=\"sans-serif\" font-size=\"12\" fill=\"");
        push_str(out, font);
        push_str(out, "\" text-anchor=\"middle\">");
        push_escaped(out, v.label.as_str());
        push_str(out, "</text>");
    }
    assert(out@ =~= old(out)@ + label_svg(v@, font@));
}

fn cell_of(v: &Vertex) -> (r: CellBounds)
    ensures
        r.x@ == v.x@ && r.y@ == v.y@ && r.w@ == v.w@ && r.h@ == v.h@,
{
    CellBounds { x: v.x, y: v.y, w: v.w, h: v.h }
}

fn write_tile(out: &mut String, v: &Vertex, fill: &str, r: &str)
    ensures
        final(out)@ == old(out)@ + tile_svg(v@, fill@, r@),
{
    write_rect_head(out, v.x, v.y, v.w, v.h);
    push_str(out, " fill=\"");
    push_str(out, fill);
    push_str(out, "\" stroke=\"none\" rx=\"");
    push_str(out, r);
    push_str(out, "\" ry=\"");
    push_str(out, r);
    push_str(out, "\"/>");
    assert(out@ =~= old(out)@ + tile_svg(v@, fill@, r@));
}

#[verifier::spinoff_prover]
#[verifier::rlimit(40)]
fn write_vertex_body(out: &mut String, v: &Vertex, style: &StyleMap, libs: &Stencils)
    requires
        style@ == style_map(v@.style),
    ensures
        final(out)@ == old(out)@ + vertex_body(v@, libs@),
{
    let shape = style.get_or("shape", "");
    let aspect_fixed = match style.get("aspect") {
        Some(a) => str_eq(a, "fixed"),
        None => false,
    };
    let cell = cell_of(v);
    if str_eq(shape, "mxgraph.aws4.resourceIcon") {
        write_tile(out, v, style.get_or("fillColor", "#cccccc"), "3");
        let ghost tile = out@;
        match resolve_stencil(style, libs) {
            Some((stencil, _)) => {
                let g = render_stencil_to_svg(stencil, cell, Decimal::from_micros(180_000), "#ffffff", aspect_fixed);
                push_str(out, g.as_str());
            },
            None => {},
        }
        assert(out@ =~= old(out)@ + vertex_body(v@, libs@));
    } else {
        match resolve_stencil(style, libs) {
            Some((stencil, LibraryKind::Kubernetes)) => {
                write_tile(out, v, style.get_or("fillColor", "#2875E2"), "4");
                let g = render_stencil_to_svg(stencil, cell, Decimal::from_micros(180_000), "#ffffff", aspect_fixed);
                push_str(out, g.as_str());
                assert(out@ =~= old(out)@ + vertex_body(v@, libs@));
            },
            Some((stencil, kind)) => {
                let default = if kind == LibraryKind::Azure {
                    "#00BEF2"
                } else {
                    "#4285F4"
                };
                let glyph = style.get_or("fillColor", default);
                let g = render_stencil_to_svg(stencil, cell, Decimal::from_micros(40_000), glyph, aspect_fixed);
                push_str(out, g.as_str());
                assert(out@ =~= old(out)@ + vertex_body(v@, libs@));
            },
            None => {
                write_rect_head(out, v.x, v.y, v.w, v.h);
                push_str(out, " fill=\"");
                push_str(out, style.get_or("fillColor", "#cccccc"));
                push_str(out, "\" stroke=\"#999\" stroke-width=\"1\"/>");
                assert(out@ =~= old(out)@ + vertex_body(v@, libs@));
            },
        }
    }
}

/// Append the SVG of a vertex that is not a group: an icon tile with its
/// glyph, a bare glyph, or a plain rectangle, then its label.
pub fn render_vertex(out: &mut String, v: &Vertex, libs: &Stencils)
    ensures
        final(out)@ == old(out)@ + vertex_svg(v@, libs@),
{
    let style = StyleMap::parse(v.style.as_str());
    write_vertex_body(out, v, &style, libs);
    write_label(out, v, style.get_or("fontColor", "#232F3E"));
    assert(out@ =~= old(out)@ + vertex_svg(v@, libs@));
}


// ------------------------------------------------------------------
// Edge geometry.

/// One of the four sides of a cell an edge attaches to.
#[derive(Debug, Clone, Copy, PartialEq, Eq, Structural)]
pub enum Side {
    Top,
    Bottom,
    Left,
    Right,
}

/// Top and bottom run horizontally.
pub open spec fn is_horizontal(s: Side) -> bool {
    s is Top || s is Bottom
}

/// The other side of the same axis.
pub open spec fn opposite(s: Side) -> Side {
    match s {
        Side::Top => Side::Bottom,
        Side::Bottom => Side::Top,
        Side::Left => Side::Right,
        Side::Right => Side::Left,
    }
}

impl Side {
    /// Whether this side runs horizontally (top or bottom).
    pub fn is_horizontal_side(self) -> (r: bool)
        ensures
            r == is_horizontal(self),
    {
        match self {
            Side::Top | Side::Bottom => true,
            _ => false,
        }
    }

    /// The other side of the same axis.
    pub fn opposite(self) -> (r: Side)
        ensures
            r == opposite(self),
    {
        match self {
            Side::Top => Side::Bottom,
            Side::Bottom => Side::Top,
            Side::Left => Side::Right,
            Side::Right => Side::Left,
        }
    }
}

/// The centre of `side` of the cell `c`, in half-millionths (exact).
pub open spec fn centre_of(c: VertexV, side: Side) -> (int, int) {
    match side {
        Side::Top => (2 * c.x + c.w, 2 * c.y),
        Side::Bottom => (2 * c.x + c.w, 2 * (c.y + c.h)),
        Side::Left => (2 * c.x, 2 * c.y + c.h),
        Side::Right => (2 * (c.x + c.w), 2 * c.y + c.h),
    }
}

/// The side a pinned attachment `(nx, ny)` (each in `[0, 1]`) lies on; a
/// corner reads as the top or bottom side.
pub open spec fn override_side(nx: int, ny: int) -> Side {
    if ny <= 0 {
        Side::Top
    } else if ny >= units(1) {
        Side::Bottom
    } else if nx <= 0 {
        Side::Left
    } else {
        Side::Right
    }
}

/// The side on the given axis (`horizontal`: top/bottom) that faces the
/// direction `(dx, dy)`.
pub open spec fn facing(horizontal: bool, dx: int, dy: int) -> Side {
    if horizontal {
        if dy >= 0 {
            Side::Bottom
        } else {
            Side::Top
        }
    } else if dx >= 0 {
        Side::Right
    } else {
        Side::Left
    }
}

/// The point a pinned attachment `(nx, ny)` gives on the cell `c`, in
/// half-millionths: the box's origin plus the fraction of its size (the
/// product truncated to a millionth).
pub open spec fn pinned_point(c: VertexV, p: (int, int)) -> (int, int) {
    (2 * (c.x + dmul(p.0, c.w)), 2 * (c.y + dmul(p.1, c.h)))
}

/// The centre of a cell, in half-millionths (exact).
pub open spec fn centre(c: VertexV) -> (int, int) {
    (2 * c.x + c.w, 2 * c.y + c.h)
}

/// The side the exit of an edge leaves its source from, when it is not
/// pinned: perpendicular to a pinned entry (or opposite it when the cells
/// share a row or column), else facing the target along the axis of the
/// larger centre offset.
pub open spec fn default_exit_side(dx: int, dy: int, entry: Option<(int, int)>) -> Side {
    match entry {
        Some(p) => {
            let es = override_side(p.0, p.1);
            if dx == 0 || dy == 0 {
                opposite(es)
            } else {
                facing(!is_horizontal(es), dx, dy)
            }
        },
        None => facing(crate::decimal::abs(dy) >= crate::decimal::abs(dx), dx, dy),
    }
}

/// The exit side of an edge: that of the pinned exit, or the default.
pub open spec fn exit_side(dx: int, dy: int, exit: Option<(int, int)>, entry: Option<(int, int)>) -> Side {
    match exit {
        Some(p) => override_side(p.0, p.1),
        None => default_exit_side(dx, dy, entry),
    }
}

/// The entry side of an edge whose entry is not pinned: opposite the exit
/// side when the cells share a row or column, else perpendicular to it,
/// facing back to the source.
pub open spec fn default_entry_side(dx: int, dy: int, exit_side: Side) -> Side {
    if dx == 0 || dy == 0 {
        opposite(exit_side)
    } else {
        facing(!is_horizontal(exit_side), -dx, -dy)
    }
}

/// Both ends of an edge from `src` to `tgt`, in half-millionths: a pinned
/// end is used as given; an end that is not pinned lands on a side centre.
pub open spec fn endpoints(src: VertexV, tgt: VertexV, exit: Option<(int, int)>, entry: Option<(int, int)>) -> (int, int, int, int) {
    let dx = centre(tgt).0 - centre(src).0;
    let dy = centre(tgt).1 - centre(src).1;
    let side = exit_side(dx, dy, exit, entry);
    let s = match exit {
        Some(p) => pinned_point(src, p),
        None => centre_of(src, side),
    };
    let t = match entry {
        Some(p) => pinned_point(tgt, p),
        None => centre_of(tgt, default_entry_side(dx, dy, side)),
    };
    (s.0, s.1, t.0, t.1)
}

/// The corner of a two-segment right-angle route from `start` to `end`
/// (all in half-millionths): leaving a left or right side of `src`
/// horizontally, a top or bottom side vertically. None when the ends share
/// an x or y, or `start` is on no side of `src`.
pub open spec fn corner(src: VertexV, start: (int, int), end: (int, int)) -> Option<(int, int)> {
    if start.0 == end.0 || start.1 == end.1 {
        None
    } else if start.0 == 2 * src.x || start.0 == 2 * (src.x + src.w) {
        Some((end.0, start.1))
    } else if start.1 == 2 * src.y || start.1 == 2 * (src.y + src.h) {
        Some((start.0, end.1))
    } else {
        None
    }
}

/// Absolute coordinate of the centre of `side` of `cell`.
pub fn side_centre(cell: &Vertex, side: Side) -> (r: (Coord, Coord))
    ensures
        (r.0@, r.1@) == centre_of(cell@, side),
{
    cell.x.bounds();
    cell.y.bounds();
    cell.w.bounds();
    cell.h.bounds();
    let (x, y, w, h) = (cell.x.micros(), cell.y.micros(), cell.w.micros(), cell.h.micros());
    match side {
        Side::Top => (Coord::from_halves(2 * x + w), Coord::from_halves(2 * y)),
        Side::Bottom => (Coord::from_halves(2 * x + w), Coord::from_halves(2 * (y + h))),
        Side::Left => (Coord::from_halves(2 * x), Coord::from_halves(2 * y + h)),
        Side::Right => (Coord::from_halves(2 * (x + w)), Coord::from_halves(2 * y + h)),
    }
}

/// The side a pinned attachment `(nx, ny)` lies on.
pub fn side_of_override(nx: Decimal, ny: Decimal) -> (r: Side)
    ensures
        r == override_side(nx@, ny@),
{
    if ny.le(&Decimal::zero()) {
        Side::Top
    } else if Decimal::from_int(1).le(&ny) {
        Side::Bottom
    } else if nx.le(&Decimal::zero()) {
        Side::Left
    } else {
        Side::Right
    }
}

/// The side on the given axis that faces `(dx, dy)` (offsets in
/// half-millionths).
pub fn facing_side(horizontal: bool, dx: i128, dy: i128) -> (r: Side)
    ensures
        r == facing(horizontal, dx as int, dy as int),
{
    if horizontal {
        if 0 <= dy {
            Side::Bottom
        } else {
            Side::Top
        }
    } else if 0 <= dx {
        Side::Right
    } else {
        Side::Left
    }
}

fn pinned(c: &Vertex, p: (Decimal, Decimal)) -> (r: (Coord, Coord))
    ensures
        (r.0@, r.1@) == pinned_point(c@, (p.0@, p.1@)),
{
    let px = p.0.mul(c.w);
    let py = p.1.mul(c.h);
    c.x.bounds();
    c.y.bounds();
    px.bounds();
    py.bounds();
    (Coord::from_halves(2 * (c.x.micros() + px.micros())), Coord::from_halves(2 * (c.y.micros() + py.micros())))
}

/// Resolve both ends of an edge between `src` and `tgt`. A pinned end
/// (`exit_override`, `entry_override`) is used verbatim; an end that is
/// not pinned snaps to a side centre of its cell.
pub fn edge_endpoints(
    src: &Vertex,
    tgt: &Vertex,
    exit_override: Option<(Decimal, Decimal)>,
    entry_override: Option<(Decimal, Decimal)>,
) -> (r: (Coord, Coord, Coord, Coord))
    ensures
        (r.0@, r.1@, r.2@, r.3@) == endpoints(src@, tgt@, pair_view(exit_override), pair_view(entry_override)),
{
    src.x.bounds();
    src.y.bounds();
    src.w.bounds();
    src.h.bounds();
    tgt.x.bounds();
    tgt.y.bounds();
    tgt.w.bounds();
    tgt.h.bounds();
    let dx: i128 = (2 * tgt.x.micros() + tgt.w.micros()) - (2 * src.x.micros() + src.w.micros());
    let dy: i128 = (2 * tgt.y.micros() + tgt.h.micros()) - (2 * src.y.micros() + src.h.micros());
    let colinear = dx == 0 || dy == 0;
    let exit_side = match exit_override {
        Some((nx, ny)) => side_of_override(nx, ny),
        None => match entry_override {
            Some((enx, eny)) => {
                let entry_side = side_of_override(enx, eny);
                if colinear {
                    entry_side.opposite()
                } else {
                    facing_side(!entry_side.is_horizontal_side(), dx, dy)
                }
            },
            None => {
                let ax: i128 = if dx < 0 { -dx } else { dx };
                let ay: i128 = if dy < 0 { -dy } else { dy };
                facing_side(ax <= ay, dx, dy)
            },
        },
    };
    let (ex, ey) = match exit_override {
        Some(p) => pinned(src, p),
        None => side_centre(src, exit_side),
    };
    let (tx, ty) = match entry_override {
        Some(p) => pinned(tgt, p),
        None => {
            let side = if colinear {
                exit_side.opposite()
            } else {
                facing_side(!exit_side.is_horizontal_side(), -dx, -dy)
            };
            side_centre(tgt, side)
        },
    };
    (ex, ey, tx, ty)
}

/// The single corner of a two-segment right-angle route from `start` to
/// `end` for an edge leaving `src`.
pub fn orthogonal_corner(src: &Vertex, start: (Coord, Coord), end: (Coord, Coord)) -> (r: Option<(Coord, Coord)>)
    ensures
        match r {
            Some(c) => corner(src@, (start.0@, start.1@), (end.0@, end.1@)) == Some((c.0@, c.1@)),
            None => corner(src@, (start.0@, start.1@), (end.0@, end.1@)) == None::<(int, int)>,
        },
{
    if start.0.eq(&end.0) || start.1.eq(&end.1) {
        return None;
    }
    src.x.bounds();
    src.y.bounds();
    src.w.bounds();
    src.h.bounds();
    let (x, y, w, h) = (src.x.micros(), src.y.micros(), src.w.micros(), src.h.micros());
    let on_vertical_side = start.0.halves() == 2 * x || start.0.halves() == 2 * (x + w);
    let on_horizontal_side = start.1.halves() == 2 * y || start.1.halves() == 2 * (y + h);
    if on_vertical_side {
        Some((end.0, start.1))
    } else if on_horizontal_side {
        Some((start.0, end.1))
    } else {
        None
    }
}


// ------------------------------------------------------------------
// Edges.

/// The first vertex with id `id`.
pub open spec fn find_vertex(vs: Seq<VertexV>, id: Seq<char>) -> Option<VertexV>
    decreases vs.len(),
{
    if vs.len() == 0 {
        None
    } else if vs[0].id == id {
        Some(vs[0])
    } else {
        find_vertex(vs.drop_first(), id)
    }
}

/// `" marker-end=..."` unless the style says `endArrow=none`.
pub open spec fn marker_of(m: Map<Seq<char>, Seq<char>>) -> Seq<char> {
    if style_or(m, "endArrow"@, "open"@) == "none"@ {
        ""@
    } else {
        " marker-end=\"url(#arrow)\""@
    }
}

/// A right-angle route through the corner `c`.
pub open spec fn bent_svg(p: (int, int, int, int), c: (int, int), marker: Seq<char>) -> Seq<char> {
    "<path d=\"M "@ + fmt_half(p.0) + " "@ + fmt_half(p.1) + " L "@ + fmt_half(c.0) + " "@ + fmt_half(c.1)
        + " L "@ + fmt_half(p.2) + " "@ + fmt_half(p.3) + "\" fill=\"none\" stroke=\"#232F3E\" stroke-width=\"1.5\""@
        + marker + "/>"@
}

/// A straight route.
pub open spec fn line_svg(p: (int, int, int, int), marker: Seq<char>) -> Seq<char> {
    "<line x1=\""@ + fmt_half(p.0) + "\" y1=\""@ + fmt_half(p.1) + "\" x2=\""@ + fmt_half(p.2) + "\" y2=\""@
        + fmt_half(p.3) + "\" stroke=\"#232F3E\" stroke-width=\"1.5\""@ + marker + "/>"@
}

/// The route of an edge between `src` and `tgt`.
pub open spec fn route_svg(src: VertexV, tgt: VertexV, style: Seq<char>) -> Seq<char> {
    let m = style_map(style);
    let ends = endpoints_of(m);
    let p = endpoints(src, tgt, ends.0, ends.1);
    let orthogonal = m.contains_key("edgeStyle"@) && m["edgeStyle"@] == "orthogonalEdgeStyle"@;
    match corner(src, (p.0, p.1), (p.2, p.3)) {
        Some(c) => if orthogonal {
            bent_svg(p, c, marker_of(m))
        } else {
            line_svg(p, marker_of(m))
        },
        None => line_svg(p, marker_of(m)),
    }
}

/// An edge: its route when both its ends name vertices of `vs`, else
/// nothing.
pub open spec fn edge_svg(vs: Seq<VertexV>, e: EdgeV) -> Seq<char> {
    match (find_vertex(vs, e.1), find_vertex(vs, e.2)) {
        (Some(src), Some(tgt)) => route_svg(src, tgt, e.3),
        _ => Seq::empty(),
    }
}

fn find_vertex_by_id<'a>(vs: &'a Vec<Vertex>, id: &str) -> (r: Option<&'a Vertex>)
    ensures
        match r {
            Some(v) => find_vertex(vertices_view(vs@), id@) == Some(v@),
            None => find_vertex(vertices_view(vs@), id@) == None::<VertexV>,
        },
{
    let mut i: usize = 0;
    assert(vertices_view(vs@).skip(0) =~= vertices_view(vs@));
    while i < vs.len()
        invariant
            i <= vs@.len(),
            find_vertex(vertices_view(vs@), id@) == find_vertex(vertices_view(vs@).skip(i as int), id@),
        decreases vs@.len() - i,
    {
        proof {
            let t = vertices_view(vs@).skip(i as int);
            assert(t.drop_first() =~= vertices_view(vs@).skip(i + 1));
            assert(t[0] == vs@[i as int]@);
        }
        if str_eq(vs[i].id.as_str(), id) {
            return Some(&vs[i]);
        }
        i = i + 1;
    }
    None
}

fn write_pair(out: &mut String, x: Decimal, y: Decimal)
    ensures
        final(out)@ == old(out)@ + fmt_dec(x@) + " "@ + fmt_dec(y@),
{
    x.write(out);
    push_str(out, " ");
    y.write(out);
    assert(out@ =~= old(out)@ + fmt_dec(x@) + " "@ + fmt_dec(y@));
}

fn write_point(out: &mut String, x: Coord, y: Coord)
    ensures
        final(out)@ == old(out)@ + fmt_half(x@) + " "@ + fmt_half(y@),
{
    x.write(out);
    push_str(out, " ");
    y.write(out);
    assert(out@ =~= old(out)@ + fmt_half(x@) + " "@ + fmt_half(y@));
}

#[verifier::rlimit(40)]
fn write_bent(out: &mut String, p: (Coord, Coord, Coord, Coord), c: (Coord, Coord), marker: &str)
    ensures
        final(out)@ == old(out)@ + bent_svg((p.0@, p.1@, p.2@, p.3@), (c.0@, c.1@), marker@),
{
    push_str(out, "<path d=\"M ");
    write_point(out, p.0, p.1);
    push_str(out, " L ");
    write_point(out, c.0, c.1);
    push_str(out, " L ");
    write_point(out, p.2, p.3);
    push_str(out, "\" fill=\"none\" stroke=\"#232F3E\" stroke-width=\"1.5\"");
    push_str(out, marker);
    push_str(out, "/>");
    assert(out@ =~= old(out)@ + bent_svg((p.0@, p.1@, p.2@, p.3@), (c.0@, c.1@), marker@));
}

fn write_line(out: &mut String, p: (Coord, Coord, Coord, Coord), marker: &str)
    ensures
        final(out)@ == old(out)@ + line_svg((p.0@, p.1@, p.2@, p.3@), marker@),
{
    push_str(out, "<line x1=\"");
    p.0.write(out);
    push_str(out, "\" y1=\"");
    p.1.write(out);
    push_str(out, "\" x2=\"");
    p.2.write(out);
    push_str(out, "\" y2=\"");
    p.3.write(out);
    push_str(out, "\" stroke=\"#232F3E\" stroke-width=\"1.5\"");
    push_str(out, marker);
    push_str(out, "/>");
    assert(out@ =~= old(out)@ + line_svg((p.0@, p.1@, p.2@, p.3@), marker@));
}

/// Append the SVG of an edge of `model`; nothing when an end names no
/// vertex.
pub fn render_edge(out: &mut String, model: &Model, e: &Edge)
    ensures
        final(out)@ == old(out)@ + edge_svg(vertices_view(model.vertices@), e@),
{
    let src = match find_vertex_by_id(&model.vertices, e.source.as_str()) {
        Some(v) => v,
        None => return,
    };
    let tgt = match find_vertex_by_id(&model.vertices, e.target.as_str()) {
        Some(v) => v,
        None => return,
    };
    let style = StyleMap::parse(e.style.as_str());
    let overrides = EdgeEndpoints::from_style(&style);
    let p = edge_endpoints(src, tgt, overrides.exit, overrides.entry);
    let marker_end = if str_eq(style.get_or("endArrow", "open"), "none") {
        ""
    } else {
        " marker-end=\"url(#arrow)\""
    };
    let orthogonal = match style.get("edgeStyle") {
        Some(s) => str_eq(s, "orthogonalEdgeStyle"),
        None => false,
    };
    match orthogonal_corner(src, (p.0, p.1), (p.2, p.3)) {
        Some(c) => if orthogonal {
            write_bent(out, p, c, marker_end);
        } else {
            write_line(out, p, marker_end);
        },
        None => write_line(out, p, marker_end),
    }
}


// ------------------------------------------------------------------
// The whole diagram.

/// Smallest x and y and largest right edge and bottom (with room for a
/// label below) over the vertices.
pub open spec fn extent(vs: Seq<VertexV>) -> (int, int, int, int)
    decreases vs.len(),
{
    if vs.len() <= 1 {
        let v = vs[0];
        (v.x, v.y, dadd(v.x, v.w), dadd(dadd(v.y, v.h), units(24)))
    } else {
        let e = extent(vs.drop_last());
        let v = vs.last();
        (dmin(e.0, v.x), dmin(e.1, v.y), dmax(e.2, dadd(v.x, v.w)), dmax(e.3, dadd(dadd(v.y, v.h), units(24))))
    }
}

/// The SVG view box `(x, y, w, h)`: the vertices' extent with a margin of
/// 24 all round; `0 0 800 600` for a diagram without vertices.
pub open spec fn viewbox(vs: Seq<VertexV>) -> (int, int, int, int) {
    if vs.len() == 0 {
        (0, 0, units(800), units(600))
    } else {
        let e = extent(vs);
        (dsub(e.0, units(24)), dsub(e.1, units(24)), dadd(dsub(e.2, e.0), units(48)), dadd(dsub(e.3, e.1), units(48)))
    }
}

/// Compute the view box of a model: its vertices' extent with a margin.
pub fn compute_viewbox(model: &Model) -> (r: (Decimal, Decimal, Decimal, Decimal))
    ensures
        (r.0@, r.1@, r.2@, r.3@) == viewbox(vertices_view(model.vertices@)),
{
    let ghost vs = vertices_view(model.vertices@);
    if model.vertices.len() == 0 {
        return (Decimal::zero(), Decimal::zero(), Decimal::from_int(800), Decimal::from_int(600));
    }
    let label_room = Decimal::from_int(24);
    let v0 = &model.vertices[0];
    let mut min_x = v0.x;
    let mut min_y = v0.y;
    let mut max_x = v0.x.add(v0.w);
    let mut max_y = v0.y.add(v0.h).add(label_room);
    assert(vs.take(1).len() == 1 && vs.take(1)[0] == vs[0]);
    let mut i: usize = 1;
    while i < model.vertices.len()
        invariant
            1 <= i <= model.vertices@.len(),
            vs == vertices_view(model.vertices@),
            label_room@ == units(24),
            (min_x@, min_y@, max_x@, max_y@) == extent(vs.take(i as int)),
        decreases model.vertices@.len() - i,
    {
        let v = &model.vertices[i];
        min_x = min_x.min(v.x);
        min_y = min_y.min(v.y);
        max_x = max_x.max(v.x.add(v.w));
        max_y = max_y.max(v.y.add(v.h).add(label_room));
        proof {
            assert(vs.take(i + 1).drop_last() =~= vs.take(i as int));
            assert(vs.take(i + 1).last() == vs[i as int]);
        }
        i = i + 1;
    }
    assert(vs.take(vs.len() as int) =~= vs);
    let margin = Decimal::from_int(24);
    let twice = Decimal::from_int(48);
    (min_x.sub(margin), min_y.sub(margin), max_x.sub(min_x).add(twice), max_y.sub(min_y).add(twice))
}

/// The opening `<svg>` tag, white background and arrowhead marker.
pub open spec fn header_svg(vb: (int, int, int, int)) -> Seq<char> {
    "<svg xmlns=\"http://www.w3.org/2000/svg\" viewBox=\""@ + fmt_dec(vb.0) + " "@ + fmt_dec(vb.1) + " "@
        + fmt_dec(vb.2) + " "@ + fmt_dec(vb.3) + "\" width=\""@ + fmt_dec(vb.2) + "\" height=\""@ + fmt_dec(vb.3)
        + "\">"@ + rect_head(vb.0, vb.1, vb.2, vb.3) + " fill=\"#ffffff\"/>"@ + marker_defs()
}

pub open spec fn marker_defs() -> Seq<char> {
    "<defs><marker id=\"arrow\" viewBox=\"0 0 10 10\" refX=\"9\" refY=\"5\" markerWidth=\"6\" markerHeight=\"6\" orient=\"auto-start-reverse\"><path d=\"M 0 0 L 10 5 L 0 10\" fill=\"none\" stroke=\"#232F3E\" stroke-width=\"1.5\"/></marker></defs>"@
}

/// The groups among `vs`, in order.
pub open spec fn groups_svg(vs: Seq<VertexV>) -> Seq<char>
    decreases vs.len(),
{
    if vs.len() == 0 {
        Seq::empty()
    } else {
        groups_svg(vs.drop_last()) + if is_group_style(vs.last().style) {
            group_svg(vs.last())
        } else {
            Seq::empty()
        }
    }
}

/// The edges `es` between vertices of `all`, in order.
pub open spec fn edges_svg(all: Seq<VertexV>, es: Seq<EdgeV>) -> Seq<char>
    decreases es.len(),
{
    if es.len() == 0 {
        Seq::empty()
    } else {
        edges_svg(all, es.drop_last()) + edge_svg(all, es.last())
    }
}

/// The vertices among `vs` that are not groups, in order.
pub open spec fn vertices_svg(vs: Seq<VertexV>, libs: StencilsV) -> Seq<char>
    decreases vs.len(),
{
    if vs.len() == 0 {
        Seq::empty()
    } else {
        vertices_svg(vs.drop_last(), libs) + if is_group_style(vs.last().style) {
            Seq::empty()
        } else {
            vertex_svg(vs.last(), libs)
        }
    }
}

/// The SVG document of a diagram: header, groups, edges, then the other
/// vertices on top.
pub open spec fn model_svg(vs: Seq<VertexV>, es: Seq<EdgeV>, libs: StencilsV) -> Seq<char> {
    header_svg(viewbox(vs)) + groups_svg(vs) + edges_svg(vs, es) + vertices_svg(vs, libs) + "</svg>"@
}

#[verifier::rlimit(40)]
fn write_header(out: &mut String, vb: (Decimal, Decimal, Decimal, Decimal))
    ensures
        final(out)@ == old(out)@ + header_svg((vb.0@, vb.1@, vb.2@, vb.3@)),
{
    push_str(out, "<svg xmlns=\"http://www.w3.org/2000/svg\" viewBox=\"");
    write_pair(out, vb.0, vb.1);
    push_str(out, " ");
    write_pair(out, vb.2, vb.3);
    push_str(out, "\" width=\"");
    vb.2.write(out);
    push_str(out, "\" height=\"");
    vb.3.write(out);
    push_str(out, "\">");
    write_rect_head(out, vb.0, vb.1, vb.2, vb.3);
    push_str(out, " fill=\"#ffffff\"/>");
    push_str(
        out,
        "<defs><marker id=\"arrow\" viewBox=\"0 0 10 10\" refX=\"9\" refY=\"5\" markerWidth=\"6\" markerHeight=\"6\" orient=\"auto-start-reverse\"><path d=\"M 0 0 L 10 5 L 0 10\" fill=\"none\" stroke=\"#232F3E\" stroke-width=\"1.5\"/></marker></defs>",
    );
    assert(out@ =~= old(out)@ + header_svg((vb.0@, vb.1@, vb.2@, vb.3@)));
}

fn write_groups(out: &mut String, vertices: &Vec<Vertex>)
    ensures
        final(out)@ == old(out)@ + groups_svg(vertices_view(vertices@)),
{
    let ghost vs = vertices_view(vertices@);
    let mut i: usize = 0;
    while i < vertices.len()
        invariant
            i <= vertices@.len(),
            vs == vertices_view(vertices@),
            out@ == old(out)@ + groups_svg(vs.take(i as int)),
        decreases vertices@.len() - i,
    {
        let ghost before = out@;
        if is_group(vertices[i].style.as_str()) {
            render_group(out, &vertices[i]);
        }
        proof {
            let t = vs.take(i + 1);
            assert(t.drop_last() =~= vs.take(i as int));
            assert(t.last() == vs[i as int]);
            assert(out@ =~= old(out)@ + groups_svg(t));
        }
        i = i + 1;
    }
    assert(vs.take(vs.len() as int) =~= vs);
}

fn write_edges(out: &mut String, model: &Model)
    ensures
        final(out)@ == old(out)@ + edges_svg(vertices_view(model.vertices@), edges_view(model.edges@)),
{
    let ghost vs = vertices_view(model.vertices@);
    let ghost es = edges_view(model.edges@);
    let mut j: usize = 0;
    while j < model.edges.len()
        invariant
            j <= model.edges@.len(),
            vs == vertices_view(model.vertices@),
            es == edges_view(model.edges@),
            out@ == old(out)@ + edges_svg(vs, es.take(j as int)),
        decreases model.edges@.len() - j,
    {
        render_edge(out, model, &model.edges[j]);
        proof {
            let t = es.take(j + 1);
            assert(t.drop_last() =~= es.take(j as int));
            assert(t.last() == model.edges@[j as int]@);
            assert(out@ =~= old(out)@ + edges_svg(vs, t));
        }
        j = j + 1;
    }
    assert(es.take(es.len() as int) =~= es);
}

fn write_vertices(out: &mut String, vertices: &Vec<Vertex>, libs: &Stencils)
    ensures
        final(out)@ == old(out)@ + vertices_svg(vertices_view(vertices@), libs@),
{
    let ghost vs = vertices_view(vertices@);
    let mut k: usize = 0;
    while k < vertices.len()
        invariant
            k <= vertices@.len(),
            vs == vertices_view(vertices@),
            out@ == old(out)@ + vertices_svg(vs.take(k as int), libs@),
        decreases vertices@.len() - k,
    {
        if !is_group(vertices[k].style.as_str()) {
            render_vertex(out, &vertices[k], libs);
        }
        proof {
            let t = vs.take(k + 1);
            assert(t.drop_last() =~= vs.take(k as int));
            assert(t.last() == vs[k as int]);
            assert(out@ =~= old(out)@ + vertices_svg(t, libs@));
        }
        k = k + 1;
    }
    assert(vs.take(vs.len() as int) =~= vs);
}

/// Render a parsed model to an SVG document.
pub fn render_model(model: &Model, libs: &Stencils) -> (r: String)
    ensures
        r@ == model_svg(vertices_view(model.vertices@), edges_view(model.edges@), libs@),
{
    let ghost vs = vertices_view(model.vertices@);
    let ghost es = edges_view(model.edges@);
    let vb = compute_viewbox(model);
    let mut svg = String::new();
    write_header(&mut svg, vb);
    write_groups(&mut svg, &model.vertices);
    write_edges(&mut svg, model);
    write_vertices(&mut svg, &model.vertices, libs);
    push_str(&mut svg, "</svg>");
    assert(svg@ =~= model_svg(vs, es, libs@));
    svg
}

/// Render a drawio XML document to SVG, drawing stencil glyphs from
/// `libs`. The result is the SVG of the cells the document holds (see
/// [`read_document`]); XML that does not parse, a compressed body that
/// does not inflate, or a file marked `compressed="true"` is an error.
pub fn render(xml: &str, libs: &Stencils) -> (r: Result<String, RenderError>)
    ensures
        match read_document(xml@) {
            ReadEnd::Done(st) => r matches Ok(s) && s@ == model_svg(st.vertices, st.edges, libs@),
            ReadEnd::Failed(f) => r matches Err(e) && reports(e, f),
        },
{
    let model = match crate::model::parse(xml) {
        Ok(m) => m,
        Err(e) => return Err(e),
    };
    let s = render_model(&model, libs);
    Ok(s)
}

// ------------------------------------------------------------------
// Laws.

/// The centres of two cells share a row or a column.
pub open spec fn colinear(src: VertexV, tgt: VertexV) -> bool {
    centre(tgt).0 == centre(src).0 || centre(tgt).1 == centre(src).1
}

/// With neither end pinned, both ends of an edge land on side centres of
/// their cells; when the cells share a row or column the sides face each
/// other (opposite sides of one axis), otherwise the entry side lies on
/// the axis perpendicular to the exit side, so that the one bend of the
/// route enters it head-on.
pub proof fn law_default_ends_are_side_centres(src: VertexV, tgt: VertexV)
    ensures
        exists|a: Side, b: Side| {
            let p = endpoints(src, tgt, None, None);
            &&& (p.0, p.1) == #[trigger] centre_of(src, a)
            &&& (p.2, p.3) == #[trigger] centre_of(tgt, b)
            &&& colinear(src, tgt) ==> b == opposite(a)
            &&& !colinear(src, tgt) ==> is_horizontal(a) != is_horizontal(b)
        },
{
    let dx = centre(tgt).0 - centre(src).0;
    let dy = centre(tgt).1 - centre(src).1;
    let a = exit_side(dx, dy, None, None);
    let b = default_entry_side(dx, dy, a);
    let p = endpoints(src, tgt, None, None);
    assert((p.0, p.1) == centre_of(src, a));
    assert((p.2, p.3) == centre_of(tgt, b));
}

/// A side centre of a cell of positive width and height is never one of
/// its corners (all in half-millionths).
pub proof fn law_side_centre_is_not_a_corner(c: VertexV, side: Side)
    requires
        c.w > 0,
        c.h > 0,
    ensures
        ({
            let p = centre_of(c, side);
            !((p.0 == 2 * c.x || p.0 == 2 * (c.x + c.w)) && (p.1 == 2 * c.y || p.1 == 2 * (c.y + c.h)))
        }),
{
}

/// Whether the point `p` (in half-millionths) is a corner of the cell `c`.
pub open spec fn is_corner(c: VertexV, p: (int, int)) -> bool {
    (p.0 == 2 * c.x || p.0 == 2 * (c.x + c.w)) && (p.1 == 2 * c.y || p.1 == 2 * (c.y + c.h))
}

/// With neither end pinned, no end of an edge between cells of positive
/// width and height lands on a corner of its cell.
pub proof fn law_default_ends_are_not_corners(src: VertexV, tgt: VertexV)
    requires
        src.w > 0 && src.h > 0,
        tgt.w > 0 && tgt.h > 0,
    ensures
        ({
            let p = endpoints(src, tgt, None, None);
            !is_corner(src, (p.0, p.1)) && !is_corner(tgt, (p.2, p.3))
        }),
{
    let dx = centre(tgt).0 - centre(src).0;
    let dy = centre(tgt).1 - centre(src).1;
    let a = exit_side(dx, dy, None, None);
    let b = default_entry_side(dx, dy, a);
    law_side_centre_is_not_a_corner(src, a);
    law_side_centre_is_not_a_corner(tgt, b);
}

/// With neither end pinned, an edge leaves its source towards the target
/// and enters the target from the source's direction (positions in
/// half-millionths, cells of positive size). Along the axis on which the
/// centres lie farther apart, the exit point moves from the source's
/// centre towards the target's centre, and stays level with the centre on
/// the other axis. When the centres share a row or column the entry point
/// moves from the target's centre back towards the source on that axis;
/// otherwise it lies on the other axis, again on the source's side of the
/// target's centre.
pub proof fn law_default_exit_faces_target(src: VertexV, tgt: VertexV)
    requires
        src.w > 0 && src.h > 0,
        tgt.w > 0 && tgt.h > 0,
    ensures
        ({
            let p = endpoints(src, tgt, None, None);
            let (sx, sy) = (2 * src.x + src.w, 2 * src.y + src.h);
            let (tx, ty) = (2 * tgt.x + tgt.w, 2 * tgt.y + tgt.h);
            let dx = tx - sx;
            let dy = ty - sy;
            let across = if dx < 0 { -dx } else { dx };
            let down = if dy < 0 { -dy } else { dy };
            &&& across > down ==> p.1 == sy && (dx > 0 ==> p.0 > sx) && (dx < 0 ==> p.0 < sx)
            &&& across <= down ==> p.0 == sx && (dy > 0 ==> p.1 > sy) && (dy < 0 ==> p.1 < sy)
            &&& across > down && dy == 0 ==> p.3 == ty && (dx > 0 ==> p.2 < tx) && (dx < 0 ==> p.2 > tx)
            &&& across > down && dy != 0 ==> p.2 == tx && (dy > 0 ==> p.3 < ty) && (dy < 0 ==> p.3 > ty)
            &&& across <= down && dx == 0 && dy != 0 ==> p.2 == tx && (dy > 0 ==> p.3 < ty) && (dy < 0 ==> p.3 > ty)
            &&& across <= down && dx != 0 ==> p.3 == ty && (dx > 0 ==> p.2 < tx) && (dx < 0 ==> p.2 > tx)
        }),
{
}

/// Whatever is pinned, when the centres share neither a row nor a column
/// an end that is not pinned never turns away from the other cell: an
/// unpinned exit lies, on each axis, on the target's side of (or level
/// with) the source's centre, and an unpinned entry on the source's side
/// of the target's centre.
pub proof fn law_unpinned_ends_face_each_other(
    src: VertexV,
    tgt: VertexV,
    exit: Option<(int, int)>,
    entry: Option<(int, int)>,
)
    requires
        src.w > 0 && src.h > 0,
        tgt.w > 0 && tgt.h > 0,
        2 * tgt.x + tgt.w != 2 * src.x + src.w,
        2 * tgt.y + tgt.h != 2 * src.y + src.h,
    ensures
        ({
            let p = endpoints(src, tgt, exit, entry);
            let (sx, sy) = (2 * src.x + src.w, 2 * src.y + src.h);
            let (tx, ty) = (2 * tgt.x + tgt.w, 2 * tgt.y + tgt.h);
            &&& exit is None ==> (tx > sx ==> p.0 >= sx) && (tx < sx ==> p.0 <= sx) && (ty > sy ==> p.1 >= sy) && (
            ty < sy ==> p.1 <= sy)
            &&& entry is None ==> (tx > sx ==> p.2 <= tx) && (tx < sx ==> p.2 >= tx) && (ty > sy ==> p.3 <= ty) && (
            ty < sy ==> p.3 >= ty)
        }),
{
}

/// An AWS resource icon is a tile in its `fillColor` (grey by default)
/// with its glyph drawn in white on top, inset by 0.18 of the tile,
/// whatever colour the tile has; with no glyph found, the tile alone.
pub proof fn law_resource_icon_glyph_is_white(v: VertexV, libs: StencilsV)
    requires
        style_map(v.style).contains_key("shape"@),
        style_map(v.style)["shape"@] == "mxgraph.aws4.resourceIcon"@,
    ensures
        ({
            let m = style_map(v.style);
            let fill = if m.contains_key("fillColor"@) { m["fillColor"@] } else { "#cccccc"@ };
            let aspect = m.contains_key("aspect"@) && m["aspect"@] == "fixed"@;
            let tile = rect_head(v.x, v.y, v.w, v.h) + " fill=\""@ + fill + "\" stroke=\"none\" rx=\"3\" ry=\"3\"/>"@;
            &&& resolve(m, libs) matches Some((s, _)) ==> vertex_body(v, libs) == tile + stencil_svg(
                s,
                (v.x, v.y, v.w, v.h),
                180_000,
                "#ffffff"@,
                aspect,
            )
            &&& resolve(m, libs) is None ==> vertex_body(v, libs) == tile
        }),
{
    let m = style_map(v.style);
    let fill = if m.contains_key("fillColor"@) { m["fillColor"@] } else { "#cccccc"@ };
    assert(style_or(m, "shape"@, ""@) == "mxgraph.aws4.resourceIcon"@);
    assert(style_or(m, "fillColor"@, "#cccccc"@) == fill);
    reveal_strlit("3");
    assert(tile_svg(v, fill, "3"@) =~= rect_head(v.x, v.y, v.w, v.h) + " fill=\""@ + fill
        + "\" stroke=\"none\" rx=\"3\" ry=\"3\"/>"@) by {
        reveal_strlit("\" stroke=\"none\" rx=\"");
        reveal_strlit("\" ry=\"");
        reveal_strlit("\"/>");
        reveal_strlit("\" stroke=\"none\" rx=\"3\" ry=\"3\"/>");
    }
    if resolve(m, libs) is None {
        assert(tile_svg(v, fill, "3"@) + Seq::<char>::empty() =~= tile_svg(v, fill, "3"@));
    }
}

/// A Kubernetes shape that is not an AWS resource icon is drawn the same
/// way: a tile (blue by default) with the glyph in white, inset by 0.18.
pub proof fn law_kubernetes_glyph_is_white(v: VertexV, libs: StencilsV, s: StencilV)
    requires
        !(style_map(v.style).contains_key("shape"@) && style_map(v.style)["shape"@] == "mxgraph.aws4.resourceIcon"@),
        resolve(style_map(v.style), libs) == Some((s, LibraryKind::Kubernetes)),
    ensures
        ({
            let m = style_map(v.style);
            let fill = if m.contains_key("fillColor"@) { m["fillColor"@] } else { "#2875E2"@ };
            let aspect = m.contains_key("aspect"@) && m["aspect"@] == "fixed"@;
            vertex_body(v, libs) == rect_head(v.x, v.y, v.w, v.h) + " fill=\""@ + fill
                + "\" stroke=\"none\" rx=\"4\" ry=\"4\"/>"@ + stencil_svg(
                s,
                (v.x, v.y, v.w, v.h),
                180_000,
                "#ffffff"@,
                aspect,
            )
        }),
{
    let m = style_map(v.style);
    let fill = if m.contains_key("fillColor"@) { m["fillColor"@] } else { "#2875E2"@ };
    assert(style_or(m, "shape"@, ""@) != "mxgraph.aws4.resourceIcon"@);
    assert(style_or(m, "fillColor"@, "#2875E2"@) == fill);
    reveal_strlit("4");
    assert(tile_svg(v, fill, "4"@) =~= rect_head(v.x, v.y, v.w, v.h) + " fill=\""@ + fill
        + "\" stroke=\"none\" rx=\"4\" ry=\"4\"/>"@) by {
        reveal_strlit("\" stroke=\"none\" rx=\"");
        reveal_strlit("\" ry=\"");
        reveal_strlit("\"/>");
        reveal_strlit("\" stroke=\"none\" rx=\"4\" ry=\"4\"/>");
    }
}

/// A pinned end is used verbatim: the attachment `(nx, ny)` of the exit
/// (and of the entry) maps onto the cell's box.
pub proof fn law_pinned_ends_are_used_verbatim(src: VertexV, tgt: VertexV, exit: (int, int), entry: Option<(int, int)>)
    ensures
        ({
            let p = endpoints(src, tgt, Some(exit), entry);
            &&& (p.0, p.1) == pinned_point(src, exit)
            &&& entry matches Some(q) ==> (p.2, p.3) == pinned_point(tgt, q)
        }),
{
}

/// A bent route is two axis-parallel segments: the corner shares one
/// coordinate with each end, leaving a left or right side horizontally and
/// a top or bottom side vertically.
pub proof fn law_corner_is_axis_aligned(src: VertexV, start: (int, int), end: (int, int))
    ensures
        corner(src, start, end) matches Some(c) ==> {
            ||| c.0 == end.0 && c.1 == start.1 && (start.0 == 2 * src.x || start.0 == 2 * (src.x + src.w))
            ||| c.0 == start.0 && c.1 == end.1 && (start.1 == 2 * src.y || start.1 == 2 * (src.y + src.h))
        },
        corner(src, start, end) matches Some(c) ==> c != start && c != end,
{
}

/// Every vertex lies inside the extent: its box, and the label room below
/// it.
pub proof fn law_extent_covers_vertices(vs: Seq<VertexV>, i: int)
    requires
        0 <= i < vs.len(),
    ensures
        extent(vs).0 <= vs[i].x,
        extent(vs).1 <= vs[i].y,
        dadd(vs[i].x, vs[i].w) <= extent(vs).2,
        dadd(dadd(vs[i].y, vs[i].h), units(24)) <= extent(vs).3,
    decreases vs.len(),
{
    if vs.len() > 1 && i < vs.len() - 1 {
        law_extent_covers_vertices(vs.drop_last(), i);
        assert(vs.drop_last()[i] == vs[i]);
    }
}

} // verus!
