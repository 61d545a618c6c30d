//! Stencil commands and their SVG rendering.
//!
//! A stencil draws in its own `(w, h)` coordinate system; rendering maps
//! it linearly onto a destination tile with a padding inset and emits the
//! equivalent SVG. Paint commands use a graphics state (fill, stroke and
//! font colour, stroke width, dashing) that `<save/>`/`<restore/>` push
//! and pop and the colour/width/dash commands update.

use vstd::prelude::*;
use crate::author::{escape, push_escaped};
use crate::decimal::{Decimal, LIMIT, dadd, dmax, dmin, dmul, ddiv, dsub, fmt_dec, tdiv, units, abs};
use crate::text::{push_str, str_eq, trim, trimmed};

verus! {

/// One stencil drawing command.
#[derive(Debug, Clone)]
pub enum Cmd {
    PathBegin,
    Move(Decimal, Decimal),
    Line(Decimal, Decimal),
    Curve { x1: Decimal, y1: Decimal, x2: Decimal, y2: Decimal, x3: Decimal, y3: Decimal },
    Quad { x1: Decimal, y1: Decimal, x2: Decimal, y2: Decimal },
    Arc {
        rx: Decimal,
        ry: Decimal,
        x_axis_rotation: Decimal,
        large_arc_flag: bool,
        sweep_flag: bool,
        x: Decimal,
        y: Decimal,
    },
    Close,
    /// Push a copy of the graphics state.
    Save,
    /// Pop the graphics state; a no-op when nothing was saved.
    Restore,
    Fill,
    Stroke,
    FillStroke,
    SetStrokeColor(String),
    SetFillColor(String),
    SetFontColor(String),
    /// `fixed` widths are used verbatim; others scale with the tile.
    SetStrokeWidth { width: Decimal, fixed: bool },
    SetDashed(bool),
    /// Literal text painted with the font colour.
    Text { x: Decimal, y: Decimal, text: String, align: String, valign: String },
    Ellipse { x: Decimal, y: Decimal, w: Decimal, h: Decimal },
    Rect { x: Decimal, y: Decimal, w: Decimal, h: Decimal },
    RoundRect { x: Decimal, y: Decimal, w: Decimal, h: Decimal, arc: Decimal },
}

pub enum CmdV {
    PathBegin,
    Move(int, int),
    Line(int, int),
    Curve(int, int, int, int, int, int),
    Quad(int, int, int, int),
    Arc(int, int, int, bool, bool, int, int),
    Close,
    Save,
    Restore,
    Fill,
    Stroke,
    FillStroke,
    SetStrokeColor(Seq<char>),
    SetFillColor(Seq<char>),
    SetFontColor(Seq<char>),
    SetStrokeWidth(int, bool),
    SetDashed(bool),
    Text(int, int, Seq<char>, Seq<char>, Seq<char>),
    Ellipse(int, int, int, int),
    Rect(int, int, int, int),
    RoundRect(int, int, int, int, int),
}

impl View for Cmd {
    type V = CmdV;

    open spec fn view(&self) -> CmdV {
        match self {
            Cmd::PathBegin => CmdV::PathBegin,
            Cmd::Move(x, y) => CmdV::Move(x@, y@),
            Cmd::Line(x, y) => CmdV::Line(x@, y@),
            Cmd::Curve { x1, y1, x2, y2, x3, y3 } => CmdV::Curve(x1@, y1@, x2@, y2@, x3@, y3@),
            Cmd::Quad { x1, y1, x2, y2 } => CmdV::Quad(x1@, y1@, x2@, y2@),
            Cmd::Arc { rx, ry, x_axis_rotation, large_arc_flag, sweep_flag, x, y } => CmdV::Arc(
                rx@,
                ry@,
                x_axis_rotation@,
                *large_arc_flag,
                *sweep_flag,
                x@,
                y@,
            ),
            Cmd::Close => CmdV::Close,
            Cmd::Save => CmdV::Save,
            Cmd::Restore => CmdV::Restore,
            Cmd::Fill => CmdV::Fill,
            Cmd::Stroke => CmdV::Stroke,
            Cmd::FillStroke => CmdV::FillStroke,
            Cmd::SetStrokeColor(c) => CmdV::SetStrokeColor(c@),
            Cmd::SetFillColor(c) => CmdV::SetFillColor(c@),
            Cmd::SetFontColor(c) => CmdV::SetFontColor(c@),
            Cmd::SetStrokeWidth { width, fixed } => CmdV::SetStrokeWidth(width@, *fixed),
            Cmd::SetDashed(d) => CmdV::SetDashed(*d),
            Cmd::Text { x, y, text, align, valign } => CmdV::Text(x@, y@, text@, align@, valign@),
            Cmd::Ellipse { x, y, w, h } => CmdV::Ellipse(x@, y@, w@, h@),
            Cmd::Rect { x, y, w, h } => CmdV::Rect(x@, y@, w@, h@),
            Cmd::RoundRect { x, y, w, h, arc } => CmdV::RoundRect(x@, y@, w@, h@, arc@),
        }
    }
}

/// One parsed stencil: its name, native size and foreground commands.
#[derive(Debug, Clone)]
pub struct Stencil {
    pub name: String,
    pub w: Decimal,
    pub h: Decimal,
    pub commands: Vec<Cmd>,
}

pub struct StencilV {
    pub name: Seq<char>,
    pub w: int,
    pub h: int,
    pub commands: Seq<CmdV>,
}

impl View for Stencil {
    type V = StencilV;

    open spec fn view(&self) -> StencilV {
        StencilV {
            name: self.name@,
            w: self.w@,
            h: self.h@,
            commands: self.commands@.map_values(|c: Cmd| c@),
        }
    }
}

/// Destination tile bounds a stencil is rendered into.
#[derive(Clone, Copy)]
pub struct CellBounds {
    pub x: Decimal,
    pub y: Decimal,
    pub w: Decimal,
    pub h: Decimal,
}

/// The mapping from stencil coordinates onto a tile: origin
/// `(cx + px, cy + py)`, scale `(sx, sy)`.
pub struct TransformV {
    pub cx: int,
    pub cy: int,
    pub px: int,
    pub py: int,
    pub sx: int,
    pub sy: int,
}

/// The mapping of a `sw` by `sh` stencil onto the tile `(x, y, w, h)`
/// inset by `pad` of its size on each side; with `aspect_fixed` the
/// scale is uniform (the smaller of the two) and the glyph is centred.
/// A stencil dimension that is not positive maps with scale 1.
pub open spec fn transform(sw: int, sh: int, x: int, y: int, w: int, h: int, pad: int, aspect_fixed: bool) -> TransformV {
    let pad_x = dmul(w, pad);
    let pad_y = dmul(h, pad);
    let draw_w = dsub(w, dadd(pad_x, pad_x));
    let draw_h = dsub(h, dadd(pad_y, pad_y));
    let sx = if sw > 0 {
        ddiv(draw_w, sw)
    } else {
        units(1)
    };
    let sy = if sh > 0 {
        ddiv(draw_h, sh)
    } else {
        units(1)
    };
    if !aspect_fixed {
        TransformV { cx: x, cy: y, px: pad_x, py: pad_y, sx, sy }
    } else {
        let s = dmin(sx, sy);
        let extra_x = tdiv(dsub(draw_w, dmul(sw, s)), 2);
        let extra_y = tdiv(dsub(draw_h, dmul(sh, s)), 2);
        TransformV { cx: x, cy: y, px: dadd(pad_x, extra_x), py: dadd(pad_y, extra_y), sx: s, sy: s }
    }
}

pub open spec fn tx(t: TransformV, x: int) -> int {
    dadd(dadd(t.cx, t.px), dmul(x, t.sx))
}

pub open spec fn ty(t: TransformV, y: int) -> int {
    dadd(dadd(t.cy, t.py), dmul(y, t.sy))
}

/// The graphics state: fill, stroke and font colour, stroke width,
/// dashing.
pub struct PaintV {
    pub fill: Seq<char>,
    pub stroke: Seq<char>,
    pub width: int,
    pub dashed: bool,
    pub font: Seq<char>,
}

/// Rendering state: emitted SVG, the path being accumulated, the
/// graphics state and the saved states.
pub struct EmitV {
    pub out: Seq<char>,
    pub path: Seq<char>,
    pub state: PaintV,
    pub stack: Seq<PaintV>,
}

/// `" stroke-dasharray=\"u u\""` for a dashed state (`u` is three stroke
/// widths, at least 0.3), empty otherwise.
pub open spec fn dash_attr(st: PaintV) -> Seq<char> {
    if !st.dashed {
        Seq::empty()
    } else {
        let u = dmul(units(3), dmax(st.width, 100_000));
        " stroke-dasharray=\""@ + fmt_dec(u) + " "@ + fmt_dec(u) + "\""@
    }
}

/// The SVG element that paints the path data `d` (`mode` 0: fill, 1:
/// stroke, 2: both).
pub open spec fn paint_piece(d: Seq<char>, st: PaintV, mode: int) -> Seq<char> {
    if mode == 0 {
        "<path d=\""@ + d + "\" fill=\""@ + st.fill + "\" fill-rule=\"evenodd\" stroke=\"none\"/>"@
    } else if mode == 1 {
        "<path d=\""@ + d + "\" fill=\"none\" stroke=\""@ + st.stroke + "\" stroke-width=\""@
            + fmt_dec(st.width) + "\""@ + dash_attr(st) + "/>"@
    } else {
        "<path d=\""@ + d + "\" fill=\""@ + st.fill + "\" fill-rule=\"evenodd\" stroke=\""@ + st.stroke
            + "\" stroke-width=\""@ + fmt_dec(st.width) + "\""@ + dash_attr(st) + "/>"@
    }
}

/// Paint the accumulated path (`mode` 0: fill, 1: stroke, 2: both) and
/// clear it; nothing happens while the path is blank.
pub open spec fn paint(e: EmitV, mode: int) -> EmitV {
    let d = trim(e.path);
    if d.len() == 0 {
        e
    } else {
        EmitV { out: e.out + paint_piece(d, e.state, mode), path: Seq::empty(), ..e }
    }
}

pub open spec fn anchor_of(align: Seq<char>) -> Seq<char> {
    if align == "center"@ {
        "middle"@
    } else if align == "right"@ {
        "end"@
    } else {
        "start"@
    }
}

pub open spec fn baseline_of(valign: Seq<char>) -> Seq<char> {
    if valign == "middle"@ {
        "middle"@
    } else if valign == "bottom"@ {
        "auto"@
    } else {
        "hanging"@
    }
}

pub open spec fn text_svg(t: TransformV, font: Seq<char>, x: int, y: int, text: Seq<char>, align: Seq<char>, valign: Seq<char>) -> Seq<char> {
    let size = dmax(dmul(units(12), dmin(t.sy, t.sx)), units(1));
    "<text x=\""@ + fmt_dec(tx(t, x)) + "\" y=\""@ + fmt_dec(ty(t, y))
        + "\" font-family=\"sans-serif\" font-size=\""@ + fmt_dec(size) + "\" fill=\""@ + font
        + "\" text-anchor=\""@ + anchor_of(align) + "\" dominant-baseline=\""@ + baseline_of(valign)
        + "\">"@ + escape(text) + "</text>"@
}

pub open spec fn ellipse_svg(t: TransformV, fill: Seq<char>, x: int, y: int, w: int, h: int) -> Seq<char> {
    "<ellipse cx=\""@ + fmt_dec(tx(t, dadd(x, tdiv(w, 2)))) + "\" cy=\""@ + fmt_dec(ty(t, dadd(y, tdiv(h, 2))))
        + "\" rx=\""@ + fmt_dec(tdiv(dmul(w, t.sx), 2)) + "\" ry=\""@ + fmt_dec(tdiv(dmul(h, t.sy), 2))
        + "\" fill=\""@ + fill + "\"/>"@
}

pub open spec fn rect_svg(t: TransformV, fill: Seq<char>, x: int, y: int, w: int, h: int, arc: int) -> Seq<char> {
    let r = dmul(arc, t.sx);
    "<rect x=\""@ + fmt_dec(tx(t, x)) + "\" y=\""@ + fmt_dec(ty(t, y)) + "\" width=\""@ + fmt_dec(dmul(w, t.sx))
        + "\" height=\""@ + fmt_dec(dmul(h, t.sy)) + "\" rx=\""@ + fmt_dec(r) + "\" ry=\""@ + fmt_dec(r)
        + "\" fill=\""@ + fill + "\"/>"@
}

pub open spec fn flag_digit(b: bool) -> Seq<char> {
    if b {
        "1"@
    } else {
        "0"@
    }
}

/// The effect of one command.
#[verifier::opaque]
pub open spec fn emit(c: CmdV, t: TransformV, e: EmitV) -> EmitV {
    match c {
        CmdV::PathBegin => EmitV { path: Seq::empty(), ..e },
        CmdV::Move(x, y) => EmitV {
            path: e.path + "M "@ + fmt_dec(tx(t, x)) + " "@ + fmt_dec(ty(t, y)) + " "@,
            ..e
        },
        CmdV::Line(x, y) => EmitV {
            path: e.path + "L "@ + fmt_dec(tx(t, x)) + " "@ + fmt_dec(ty(t, y)) + " "@,
            ..e
        },
        CmdV::Curve(x1, y1, x2, y2, x3, y3) => EmitV {
            path: e.path + "C "@ + fmt_dec(tx(t, x1)) + " "@ + fmt_dec(ty(t, y1)) + " "@ + fmt_dec(tx(t, x2))
                + " "@ + fmt_dec(ty(t, y2)) + " "@ + fmt_dec(tx(t, x3)) + " "@ + fmt_dec(ty(t, y3)) + " "@,
            ..e
        },
        CmdV::Quad(x1, y1, x2, y2) => EmitV {
            path: e.path + "Q "@ + fmt_dec(tx(t, x1)) + " "@ + fmt_dec(ty(t, y1)) + " "@ + fmt_dec(tx(t, x2))
                + " "@ + fmt_dec(ty(t, y2)) + " "@,
            ..e
        },
        CmdV::Arc(rx, ry, rot, large, sweep, x, y) => EmitV {
            path: e.path + "A "@ + fmt_dec(abs(dmul(rx, t.sx))) + " "@ + fmt_dec(abs(dmul(ry, t.sy))) + " "@
                + fmt_dec(rot) + " "@ + flag_digit(large) + " "@ + flag_digit(sweep) + " "@ + fmt_dec(tx(t, x))
                + " "@ + fmt_dec(ty(t, y)) + " "@,
            ..e
        },
        CmdV::Close => EmitV { path: e.path + "Z "@, ..e },
        CmdV::Save => EmitV { stack: e.stack.push(e.state), ..e },
        CmdV::Restore => if e.stack.len() > 0 {
            EmitV { state: e.stack.last(), stack: e.stack.drop_last(), ..e }
        } else {
            e
        },
        CmdV::SetFillColor(c) => EmitV { state: PaintV { fill: c, ..e.state }, ..e },
        CmdV::SetStrokeColor(c) => EmitV { state: PaintV { stroke: c, ..e.state }, ..e },
        CmdV::SetFontColor(c) => EmitV { state: PaintV { font: c, ..e.state }, ..e },
        CmdV::SetStrokeWidth(w, fixed) => {
            let scale = if fixed {
                units(1)
            } else {
                dmin(t.sx, t.sy)
            };
            EmitV { state: PaintV { width: dmul(w, scale), ..e.state }, ..e }
        },
        CmdV::SetDashed(d) => EmitV { state: PaintV { dashed: d, ..e.state }, ..e },
        CmdV::Fill => paint(e, 0),
        CmdV::Stroke => paint(e, 1),
        CmdV::FillStroke => paint(e, 2),
        CmdV::Text(x, y, text, align, valign) => EmitV {
            out: e.out + text_svg(t, e.state.font, x, y, text, align, valign),
            ..e
        },
        CmdV::Ellipse(x, y, w, h) => EmitV { out: e.out + ellipse_svg(t, e.state.fill, x, y, w, h), ..e },
        CmdV::Rect(x, y, w, h) => EmitV { out: e.out + rect_svg(t, e.state.fill, x, y, w, h, 0), ..e },
        CmdV::RoundRect(x, y, w, h, arc) => EmitV {
            out: e.out + rect_svg(t, e.state.fill, x, y, w, h, arc),
            ..e
        },
    }
}

/// The effect of a command list, in order.
pub open spec fn emit_all(cs: Seq<CmdV>, t: TransformV, e: EmitV) -> EmitV
    decreases cs.len(),
{
    if cs.len() == 0 {
        e
    } else {
        emit(cs.last(), t, emit_all(cs.drop_last(), t, e))
    }
}

/// The SVG group a stencil renders to on the given tile.
pub open spec fn stencil_svg(s: StencilV, cell: (int, int, int, int), pad: int, glyph: Seq<char>, aspect_fixed: bool) -> Seq<char> {
    let t = transform(s.w, s.h, cell.0, cell.1, cell.2, cell.3, pad, aspect_fixed);
    let init = EmitV {
        out: Seq::empty(),
        path: Seq::empty(),
        state: PaintV { fill: glyph, stroke: glyph, width: units(1), dashed: false, font: glyph },
        stack: Seq::empty(),
    };
    "<g>"@ + emit_all(s.commands, t, init).out + "</g>"@
}

#[derive(Clone, Copy)]
struct Transform {
    cx: Decimal,
    cy: Decimal,
    px: Decimal,
    py: Decimal,
    sx: Decimal,
    sy: Decimal,
}

impl Transform {
    spec fn view(&self) -> TransformV {
        TransformV { cx: self.cx@, cy: self.cy@, px: self.px@, py: self.py@, sx: self.sx@, sy: self.sy@ }
    }

    fn new(stencil: &Stencil, cell: CellBounds, pad: Decimal, aspect_fixed: bool) -> (r: Transform)
        ensures
            r.view() == transform(stencil.w@, stencil.h@, cell.x@, cell.y@, cell.w@, cell.h@, pad@, aspect_fixed),
    {
        let pad_x = cell.w.mul(pad);
        let pad_y = cell.h.mul(pad);
        let draw_w = cell.w.sub(pad_x.add(pad_x));
        let draw_h = cell.h.sub(pad_y.add(pad_y));
        let sx = if stencil.w.is_positive() {
            draw_w.div(stencil.w)
        } else {
            Decimal::from_int(1)
        };
        let sy = if stencil.h.is_positive() {
            draw_h.div(stencil.h)
        } else {
            Decimal::from_int(1)
        };
        if !aspect_fixed {
            return Transform { cx: cell.x, cy: cell.y, px: pad_x, py: pad_y, sx, sy };
        }
        let s = sx.min(sy);
        let extra_x = draw_w.sub(stencil.w.mul(s)).half();
        let extra_y = draw_h.sub(stencil.h.mul(s)).half();
        Transform { cx: cell.x, cy: cell.y, px: pad_x.add(extra_x), py: pad_y.add(extra_y), sx: s, sy: s }
    }

    fn tx(&self, x: Decimal) -> (r: Decimal)
        ensures
            r@ == tx(self.view(), x@),
    {
        self.cx.add(self.px).add(x.mul(self.sx))
    }

    fn ty(&self, y: Decimal) -> (r: Decimal)
        ensures
            r@ == ty(self.view(), y@),
    {
        self.cy.add(self.py).add(y.mul(self.sy))
    }
}

#[derive(Clone)]
struct Paint {
    fill: String,
    stroke: String,
    width: Decimal,
    dashed: bool,
    font: String,
}

impl Paint {
    spec fn view(&self) -> PaintV {
        PaintV { fill: self.fill@, stroke: self.stroke@, width: self.width@, dashed: self.dashed, font: self.font@ }
    }

    fn copy(&self) -> (r: Paint)
        ensures
            r.view() == self.view(),
    {
        Paint {
            fill: copy_text(&self.fill),
            stroke: copy_text(&self.stroke),
            width: self.width,
            dashed: self.dashed,
            font: copy_text(&self.font),
        }
    }
}

fn copy_text(s: &String) -> (r: String)
    ensures
        r@ == s@,
{
    let mut r = String::new();
    push_str(&mut r, s.as_str());
    r
}

/// Append `"x y "` for the stencil point `(x, y)` mapped onto the tile.
fn write_point(path: &mut String, t: &Transform, x: Decimal, y: Decimal)
    ensures
        final(path)@ == old(path)@ + fmt_dec(tx(t.view(), x@)) + " "@ + fmt_dec(ty(t.view(), y@)) + " "@,
{
    t.tx(x).write(path);
    push_str(path, " ");
    t.ty(y).write(path);
    push_str(path, " ");
    assert(path@ =~= old(path)@ + fmt_dec(tx(t.view(), x@)) + " "@ + fmt_dec(ty(t.view(), y@)) + " "@);
}

fn write_arc(path: &mut String, t: &Transform, rx: Decimal, ry: Decimal, rot: Decimal, large: bool, sweep: bool, x: Decimal, y: Decimal)
    ensures
        final(path)@ == old(path)@ + "A "@ + fmt_dec(abs(dmul(rx@, t.sx@))) + " "@ + fmt_dec(abs(dmul(ry@, t.sy@)))
            + " "@ + fmt_dec(rot@) + " "@ + flag_digit(large) + " "@ + flag_digit(sweep) + " "@
            + fmt_dec(tx(t.view(), x@)) + " "@ + fmt_dec(ty(t.view(), y@)) + " "@,
{
    push_str(path, "A ");
    rx.mul(t.sx).abs().write(path);
    push_str(path, " ");
    ry.mul(t.sy).abs().write(path);
    push_str(path, " ");
    rot.write(path);
    push_str(path, " ");
    push_str(path, if large { "1" } else { "0" });
    push_str(path, " ");
    push_str(path, if sweep { "1" } else { "0" });
    push_str(path, " ");
    write_point(path, t, x, y);
    assert(path@ =~= old(path)@ + "A "@ + fmt_dec(abs(dmul(rx@, t.sx@))) + " "@ + fmt_dec(abs(dmul(ry@, t.sy@)))
        + " "@ + fmt_dec(rot@) + " "@ + flag_digit(large) + " "@ + flag_digit(sweep) + " "@
        + fmt_dec(tx(t.view(), x@)) + " "@ + fmt_dec(ty(t.view(), y@)) + " "@);
}

fn write_dash(out: &mut String, st: &Paint)
    ensures
        final(out)@ == old(out)@ + dash_attr(st.view()),
{
    if st.dashed {
        let u = Decimal::from_int(3).mul(st.width.max(Decimal::from_micros(100_000)));
        push_str(out, " stroke-dasharray=\"");
        u.write(out);
        push_str(out, " ");
        u.write(out);
        push_str(out, "\"");
    }
    assert(out@ =~= old(out)@ + dash_attr(st.view()));
}

fn write_paint(out: &mut String, d: &str, st: &Paint, mode: u8)
    requires
        mode <= 2,
    ensures
        final(out)@ == old(out)@ + paint_piece(d@, st.view(), mode as int),
{
    push_str(out, "<path d=\"");
    push_str(out, d);
    if mode == 0 {
        push_str(out, "\" fill=\"");
        push_str(out, st.fill.as_str());
        push_str(out, "\" fill-rule=\"evenodd\" stroke=\"none\"/>");
    } else if mode == 1 {
        push_str(out, "\" fill=\"none\" stroke=\"");
        push_str(out, st.stroke.as_str());
        push_str(out, "\" stroke-width=\"");
        st.width.write(out);
        push_str(out, "\"");
        write_dash(out, st);
        push_str(out, "/>");
    } else {
        push_str(out, "\" fill=\"");
        push_str(out, st.fill.as_str());
        push_str(out, "\" fill-rule=\"evenodd\" stroke=\"");
        push_str(out, st.stroke.as_str());
        push_str(out, "\" stroke-width=\"");
        st.width.write(out);
        push_str(out, "\"");
        write_dash(out, st);
        push_str(out, "/>");
    }
    assert(out@ =~= old(out)@ + paint_piece(d@, st.view(), mode as int));
}

fn text_anchor(align: &str) -> (r: &'static str)
    ensures
        r@ == anchor_of(align@),
{
    if str_eq(align, "center") {
        "middle"
    } else if str_eq(align, "right") {
        "end"
    } else {
        "start"
    }
}

fn text_baseline(valign: &str) -> (r: &'static str)
    ensures
        r@ == baseline_of(valign@),
{
    if str_eq(valign, "middle") {
        "middle"
    } else if str_eq(valign, "bottom") {
        "auto"
    } else {
        "hanging"
    }
}

#[verifier::rlimit(30)]
fn write_text(out: &mut String, t: &Transform, font: &str, x: Decimal, y: Decimal, text: &str, align: &str, valign: &str)
    ensures
        final(out)@ == old(out)@ + text_svg(t.view(), font@, x@, y@, text@, align@, valign@),
{
    let anchor = text_anchor(align);
    let baseline = text_baseline(valign);
    let size = Decimal::from_int(12).mul(t.sy.min(t.sx)).max(Decimal::from_int(1));
    push_str(out, "<text x=\"");
    t.tx(x).write(out);
    push_str(out, "\" y=\"");
    t.ty(y).write(out);
    push_str(out, "\" font-family=\"sans-serif\" font-size=\"");
    size.write(out);
    push_str(out, "\" fill=\"");
    push_str(out, font);
    push_str(out, "\" text-anchor=\"");
    push_str(out, anchor);
    push_str(out, "\" dominant-baseline=\"");
    push_str(out, baseline);
    push_str(out, "\">");
    push_escaped(out, text);
    push_str(out, "</text>");
    assert(out@ =~= old(out)@ + text_svg(t.view(), font@, x@, y@, text@, align@, valign@));
}

fn write_ellipse(out: &mut String, t: &Transform, fill: &str, x: Decimal, y: Decimal, w: Decimal, h: Decimal)
    ensures
        final(out)@ == old(out)@ + ellipse_svg(t.view(), fill@, x@, y@, w@, h@),
{
    let cx = t.tx(x.add(w.half()));
    let cy = t.ty(y.add(h.half()));
    let rx = w.mul(t.sx).half();
    let ry = h.mul(t.sy).half();
    push_str(out, "<ellipse cx=\"");
    cx.write(out);
    push_str(out, "\" cy=\"");
    cy.write(out);
    push_str(out, "\" rx=\"");
    rx.write(out);
    push_str(out, "\" ry=\"");
    ry.write(out);
    push_str(out, "\" fill=\"");
    push_str(out, fill);
    push_str(out, "\"/>");
    assert(out@ =~= old(out)@ + ellipse_svg(t.view(), fill@, x@, y@, w@, h@));
}

#[verifier::spinoff_prover]
#[verifier::rlimit(60)]
fn write_rect(out: &mut String, t: &Transform, fill: &str, x: Decimal, y: Decimal, w: Decimal, h: Decimal, arc: Decimal)
    ensures
        final(out)@ == old(out)@ + rect_svg(t.view(), fill@, x@, y@, w@, h@, arc@),
{
    let r = arc.mul(t.sx);
    push_str(out, "<rect x=\"");
    t.tx(x).write(out);
    push_str(out, "\" y=\"");
    t.ty(y).write(out);
    push_str(out, "\" width=\"");
    w.mul(t.sx).write(out);
    push_str(out, "\" height=\"");
    h.mul(t.sy).write(out);
    push_str(out, "\" rx=\"");
    r.write(out);
    push_str(out, "\" ry=\"");
    r.write(out);
    push_str(out, "\" fill=\"");
    push_str(out, fill);
    push_str(out, "\"/>");
    assert(out@ =~= old(out)@ + rect_svg(t.view(), fill@, x@, y@, w@, h@, arc@));
}

struct Emitter {
    out: String,
    path: String,
    state: Paint,
    stack: Vec<Paint>,
}

impl Emitter {
    spec fn view(&self) -> EmitV {
        EmitV {
            out: self.out@,
            path: self.path@,
            state: self.state.view(),
            stack: self.stack@.map_values(|p: Paint| p.view()),
        }
    }

    fn paint(&mut self, mode: u8)
        requires
            mode <= 2,
        ensures
            final(self).view() == paint(old(self).view(), mode as int),
    {
        let d = trimmed(self.path.as_str());
        if d.as_str().is_empty() {
            return;
        }
        write_paint(&mut self.out, d.as_str(), &self.state, mode);
        self.path = String::new();
        assert(self.view().path =~= Seq::<char>::empty());
    }

    /// Apply one command to the path being accumulated.
    fn path_cmd(&mut self, cmd: &Cmd, t: &Transform)
        requires
            is_path_cmd(cmd@),
        ensures
            final(self).view() == emit(cmd@, t.view(), old(self).view()),
    {
        reveal(emit);
        match cmd {
            Cmd::PathBegin => {
                self.path = String::new();
                assert(self.view().path =~= Seq::<char>::empty());
            },
            Cmd::Move(x, y) => {
                push_str(&mut self.path, "M ");
                write_point(&mut self.path, t, *x, *y);
                assert(self.view().path =~= emit(cmd@, t.view(), old(self).view()).path);
            },
            Cmd::Line(x, y) => {
                push_str(&mut self.path, "L ");
                write_point(&mut self.path, t, *x, *y);
                assert(self.view().path =~= emit(cmd@, t.view(), old(self).view()).path);
            },
            Cmd::Curve { x1, y1, x2, y2, x3, y3 } => {
                push_str(&mut self.path, "C ");
                write_point(&mut self.path, t, *x1, *y1);
                write_point(&mut self.path, t, *x2, *y2);
                write_point(&mut self.path, t, *x3, *y3);
                assert(self.view().path =~= emit(cmd@, t.view(), old(self).view()).path);
            },
            Cmd::Quad { x1, y1, x2, y2 } => {
                push_str(&mut self.path, "Q ");
                write_point(&mut self.path, t, *x1, *y1);
                write_point(&mut self.path, t, *x2, *y2);
                assert(self.view().path =~= emit(cmd@, t.view(), old(self).view()).path);
            },
            Cmd::Arc { rx, ry, x_axis_rotation, large_arc_flag, sweep_flag, x, y } => {
                write_arc(&mut self.path, t, *rx, *ry, *x_axis_rotation, *large_arc_flag, *sweep_flag, *x, *y);
            },
            Cmd::Close => {
                push_str(&mut self.path, "Z ");
            },
            _ => {},
        }
    }

    /// Apply `<save/>` or `<restore/>`.
    fn stack_cmd(&mut self, cmd: &Cmd, t: &Transform)
        requires
            cmd@ is Save || cmd@ is Restore,
        ensures
            final(self).view() == emit(cmd@, t.view(), old(self).view()),
    {
        reveal(emit);
        if let Cmd::Save = cmd {
            let p = self.state.copy();
            self.stack.push(p);
            assert(self.view().stack =~= old(self).view().stack.push(old(self).view().state));
        } else if let Some(prev) = self.stack.pop() {
            self.state = prev;
            assert(self.view().stack =~= old(self).view().stack.drop_last());
        }
    }

    /// Apply one of the commands that set a field of the graphics state.
    fn set_cmd(&mut self, cmd: &Cmd, t: &Transform)
        requires
            is_state_cmd(cmd@),
            !(cmd@ is Save || cmd@ is Restore),
        ensures
            final(self).view() == emit(cmd@, t.view(), old(self).view()),
    {
        reveal(emit);
        let ghost stack = self.view().stack;
        match cmd {
            Cmd::SetFillColor(c) => {
                self.state.fill = copy_text(c);
            },
            Cmd::SetStrokeColor(c) => {
                self.state.stroke = copy_text(c);
            },
            Cmd::SetFontColor(c) => {
                self.state.font = copy_text(c);
            },
            Cmd::SetStrokeWidth { width, fixed } => {
                let scale = if *fixed {
                    Decimal::from_int(1)
                } else {
                    t.sx.min(t.sy)
                };
                self.state.width = width.mul(scale);
            },
            Cmd::SetDashed(d) => {
                self.state.dashed = *d;
            },
            _ => {},
        }
        assert(self.view().stack == stack);
    }

    /// Apply one of the commands that draw: paints and primitives.
    #[verifier::rlimit(40)]
    fn draw_cmd(&mut self, cmd: &Cmd, t: &Transform)
        requires
            !is_path_cmd(cmd@),
            !is_state_cmd(cmd@),
        ensures
            final(self).view() == emit(cmd@, t.view(), old(self).view()),
    {
        reveal(emit);
        match cmd {
            Cmd::Fill => self.paint(0),
            Cmd::Stroke => self.paint(1),
            Cmd::FillStroke => self.paint(2),
            Cmd::Text { x, y, text, align, valign } => {
                write_text(&mut self.out, t, self.state.font.as_str(), *x, *y, text.as_str(), align.as_str(), valign.as_str());
            },
            Cmd::Ellipse { x, y, w, h } => {
                write_ellipse(&mut self.out, t, self.state.fill.as_str(), *x, *y, *w, *h);
            },
            Cmd::Rect { x, y, w, h } => {
                write_rect(&mut self.out, t, self.state.fill.as_str(), *x, *y, *w, *h, Decimal::zero());
            },
            Cmd::RoundRect { x, y, w, h, arc } => {
                write_rect(&mut self.out, t, self.state.fill.as_str(), *x, *y, *w, *h, *arc);
            },
            _ => {},
        }
    }

    fn emit(&mut self, cmd: &Cmd, t: &Transform)
        ensures
            final(self).view() == emit(cmd@, t.view(), old(self).view()),
    {
        if is_path(cmd) {
            self.path_cmd(cmd, t);
        } else if let Cmd::Save = cmd {
            self.stack_cmd(cmd, t);
        } else if let Cmd::Restore = cmd {
            self.stack_cmd(cmd, t);
        } else if is_state(cmd) {
            self.set_cmd(cmd, t);
        } else {
            self.draw_cmd(cmd, t);
        }
    }
}

spec fn is_path_cmd(c: CmdV) -> bool {
    c is PathBegin || c is Move || c is Line || c is Curve || c is Quad || c is Arc || c is Close
}

spec fn is_state_cmd(c: CmdV) -> bool {
    c is Save || c is Restore || c is SetFillColor || c is SetStrokeColor || c is SetFontColor
        || c is SetStrokeWidth || c is SetDashed
}

fn is_path(c: &Cmd) -> (r: bool)
    ensures
        r == is_path_cmd(c@),
{
    match c {
        Cmd::PathBegin | Cmd::Move(..) | Cmd::Line(..) | Cmd::Curve { .. } | Cmd::Quad { .. } | Cmd::Arc { .. }
        | Cmd::Close => true,
        _ => false,
    }
}

fn is_state(c: &Cmd) -> (r: bool)
    ensures
        r == is_state_cmd(c@),
{
    match c {
        Cmd::Save | Cmd::Restore | Cmd::SetFillColor(..) | Cmd::SetStrokeColor(..) | Cmd::SetFontColor(..)
        | Cmd::SetStrokeWidth { .. } | Cmd::SetDashed(..) => true,
        _ => false,
    }
}

/// Render a stencil into an SVG `<g>` element, mapping its native
/// (`stencil.w`, `stencil.h`) coordinates onto the tile `cell`, inset by
/// `pad_ratio` of the tile's size on each side. `glyph_color` seeds the
/// fill, stroke and font colours; stencil colour commands override it.
pub fn render_stencil_to_svg(
    stencil: &Stencil,
    cell: CellBounds,
    pad_ratio: Decimal,
    glyph_color: &str,
    aspect_fixed: bool,
) -> (r: String)
    ensures
        r@ == stencil_svg(stencil@, (cell.x@, cell.y@, cell.w@, cell.h@), pad_ratio@, glyph_color@, aspect_fixed),
{
    let t = Transform::new(stencil, cell, pad_ratio, aspect_fixed);
    let mut g = String::new();
    push_str(&mut g, glyph_color);
    let mut e = Emitter {
        out: String::new(),
        path: String::new(),
        state: Paint { fill: copy_text(&g), stroke: copy_text(&g), width: Decimal::from_int(1), dashed: false, font: g },
        stack: Vec::new(),
    };
    let ghost init = e.view();
    assert(init.stack =~= Seq::<PaintV>::empty());
    assert(init.out =~= Seq::<char>::empty());
    assert(init.path =~= Seq::<char>::empty());
    let ghost cmds = stencil@.commands;
    let ghost tv = t.view();
    let mut i: usize = 0;
    while i < stencil.commands.len()
        invariant
            0 <= i <= stencil.commands@.len(),
            cmds == stencil@.commands,
            tv == t.view(),
            e.view() == emit_all(cmds.take(i as int), tv, init),
        decreases stencil.commands@.len() - i,
    {
        e.emit(&stencil.commands[i], &t);
        proof {
            assert(cmds.take(i + 1).drop_last() =~= cmds.take(i as int));
        }
        i = i + 1;
    }
    assert(cmds.take(cmds.len() as int) =~= cmds);
    let mut r = String::new();
    push_str(&mut r, "<g>");
    push_str(&mut r, e.out.as_str());
    push_str(&mut r, "</g>");
    r
}

// ------------------------------------------------------------------
// Laws.

/// The commands that push or pop the graphics state.
pub open spec fn is_stack_cmd(c: CmdV) -> bool {
    c is Save || c is Restore
}

proof fn lemma_emit_all_concat(a: Seq<CmdV>, b: Seq<CmdV>, t: TransformV, e: EmitV)
    ensures
        emit_all(a + b, t, e) == emit_all(b, t, emit_all(a, t, e)),
    decreases b.len(),
{
    if b.len() == 0 {
        assert(a + b =~= a);
    } else {
        assert((a + b).drop_last() =~= a + b.drop_last());
        assert((a + b).last() == b.last());
        lemma_emit_all_concat(a, b.drop_last(), t, e);
    }
}

#[verifier::spinoff_prover]
#[verifier::rlimit(60)]
proof fn lemma_emit_stack(c: CmdV, t: TransformV, e: EmitV)
    ensures
        !is_stack_cmd(c) ==> emit(c, t, e).stack == e.stack,
        c is Save ==> emit(c, t, e) == (EmitV { stack: e.stack.push(e.state), ..e }),
        c is Restore && e.stack.len() > 0 ==> emit(c, t, e) == (EmitV {
            state: e.stack.last(),
            stack: e.stack.drop_last(),
            ..e
        }),
        c is Restore && e.stack.len() == 0 ==> emit(c, t, e) == e,
{
    reveal(emit);
    match c {
        CmdV::Save => {},
        CmdV::Restore => {},
        CmdV::Fill => {},
        CmdV::Stroke => {},
        CmdV::FillStroke => {},
        _ => {},
    }
}

proof fn lemma_stack_untouched(cs: Seq<CmdV>, t: TransformV, e: EmitV)
    requires
        forall|i: int| 0 <= i < cs.len() ==> !is_stack_cmd(#[trigger] cs[i]),
    ensures
        emit_all(cs, t, e).stack == e.stack,
    decreases cs.len(),
{
    if cs.len() > 0 {
        lemma_stack_untouched(cs.drop_last(), t, e);
        assert(!is_stack_cmd(cs[cs.len() - 1]));
        lemma_emit_stack(cs.last(), t, emit_all(cs.drop_last(), t, e));
    }
}

/// `<save/>` and `<restore/>` scope style changes: whatever commands
/// between them (none of them saving or restoring) change, the graphics
/// state and the saved states afterwards are those before the `<save/>`.
pub proof fn law_save_restore_scopes_state(cs: Seq<CmdV>, t: TransformV, e: EmitV)
    requires
        forall|i: int| 0 <= i < cs.len() ==> !is_stack_cmd(#[trigger] cs[i]),
    ensures
        emit_all(seq![CmdV::Save] + cs + seq![CmdV::Restore], t, e).state == e.state,
        emit_all(seq![CmdV::Save] + cs + seq![CmdV::Restore], t, e).stack == e.stack,
{
    let s = seq![CmdV::Save];
    let r = seq![CmdV::Restore];
    lemma_emit_all_concat(s + cs, r, t, e);
    lemma_emit_all_concat(s, cs, t, e);
    assert(s.drop_last() =~= Seq::<CmdV>::empty());
    assert(emit_all(s.drop_last(), t, e) == e);
    assert(s.last() == CmdV::Save);
    let e1 = emit_all(s, t, e);
    assert(e1 == emit(CmdV::Save, t, e));
    lemma_emit_stack(CmdV::Save, t, e);
    assert(e1.stack == e.stack.push(e.state));
    lemma_stack_untouched(cs, t, e1);
    let e2 = emit_all(cs, t, e1);
    assert(r.drop_last() =~= Seq::<CmdV>::empty());
    assert(emit_all(r.drop_last(), t, e2) == e2);
    assert(r.last() == CmdV::Restore);
    assert(emit_all(r, t, e2) == emit(CmdV::Restore, t, e2));
    lemma_emit_stack(CmdV::Restore, t, e2);
    assert(e2.stack.drop_last() =~= e.stack);
}

/// A point of the stencil as path text: its x and y mapped onto the tile,
/// each followed by a space.
pub open spec fn point_text(t: TransformV, x: int, y: int) -> Seq<char> {
    fmt_dec(dadd(dadd(t.cx, t.px), dmul(x, t.sx))) + " "@ + fmt_dec(dadd(dadd(t.cy, t.py), dmul(y, t.sy))) + " "@
}

/// A `<curve>` appends a cubic Bézier segment to the path: `C`, then the
/// first control point `(x1, y1)`, the second `(x2, y2)` and the end point
/// `(x3, y3)`, in that order, each mapped onto the tile exactly as a
/// `<line>` to that point maps it; nothing else changes.
pub proof fn law_curve_points_in_order(x1: int, y1: int, x2: int, y2: int, x3: int, y3: int, t: TransformV, e: EmitV)
    ensures
        emit(CmdV::Curve(x1, y1, x2, y2, x3, y3), t, e).path == e.path + "C "@ + point_text(t, x1, y1) + point_text(
            t,
            x2,
            y2,
        ) + point_text(t, x3, y3),
        emit(CmdV::Line(x1, y1), t, e).path == e.path + "L "@ + point_text(t, x1, y1),
        emit(CmdV::Move(x3, y3), t, e).path == e.path + "M "@ + point_text(t, x3, y3),
        emit(CmdV::Curve(x1, y1, x2, y2, x3, y3), t, e).out == e.out,
        emit(CmdV::Curve(x1, y1, x2, y2, x3, y3), t, e).state == e.state,
        emit(CmdV::Curve(x1, y1, x2, y2, x3, y3), t, e).stack == e.stack,
{
    lemma_emit_curve(x1, y1, x2, y2, x3, y3, t, e);
    lemma_emit_line(x1, y1, t, e);
    lemma_emit_move(x3, y3, t, e);
}

#[verifier::spinoff_prover]
proof fn lemma_emit_curve(x1: int, y1: int, x2: int, y2: int, x3: int, y3: int, t: TransformV, e: EmitV)
    ensures
        emit(CmdV::Curve(x1, y1, x2, y2, x3, y3), t, e) == (EmitV {
            path: e.path + "C "@ + point_text(t, x1, y1) + point_text(t, x2, y2) + point_text(t, x3, y3),
            ..e
        }),
{
    let p1 = point_text(t, x1, y1);
    let p2 = point_text(t, x2, y2);
    let p3 = point_text(t, x3, y3);
    let a1 = fmt_dec(tx(t, x1));
    let b1 = fmt_dec(ty(t, y1));
    let a2 = fmt_dec(tx(t, x2));
    let b2 = fmt_dec(ty(t, y2));
    let a3 = fmt_dec(tx(t, x3));
    let b3 = fmt_dec(ty(t, y3));
    let sp = " "@;
    let body = e.path + "C "@ + a1 + sp + b1 + sp + a2 + sp + b2 + sp + a3 + sp + b3 + sp;
    assert(emit(CmdV::Curve(x1, y1, x2, y2, x3, y3), t, e).path == body) by {
        reveal(emit);
    }
    assert(emit(CmdV::Curve(x1, y1, x2, y2, x3, y3), t, e) == EmitV { path: body, ..e }) by {
        reveal(emit);
    }
    assert(p1 == a1 + sp + b1 + sp);
    assert(p2 == a2 + sp + b2 + sp);
    assert(p3 == a3 + sp + b3 + sp);
    assert(body =~= e.path + "C "@ + p1 + p2 + p3);
}

/// A `<quad>` appends a quadratic Bézier segment: `Q`, the control point
/// `(x1, y1)`, then the end point `(x2, y2)`, each mapped onto the tile as
/// a `<line>` to it maps it; nothing else changes.
pub proof fn law_quad_points_in_order(x1: int, y1: int, x2: int, y2: int, t: TransformV, e: EmitV)
    ensures
        emit(CmdV::Quad(x1, y1, x2, y2), t, e) == (EmitV {
            path: e.path + "Q "@ + point_text(t, x1, y1) + point_text(t, x2, y2),
            ..e
        }),
{
    let a1 = fmt_dec(tx(t, x1));
    let b1 = fmt_dec(ty(t, y1));
    let a2 = fmt_dec(tx(t, x2));
    let b2 = fmt_dec(ty(t, y2));
    let sp = " "@;
    let body = e.path + "Q "@ + a1 + sp + b1 + sp + a2 + sp + b2 + sp;
    assert(emit(CmdV::Quad(x1, y1, x2, y2), t, e) == EmitV { path: body, ..e }) by {
        reveal(emit);
    }
    assert(body =~= e.path + "Q "@ + point_text(t, x1, y1) + point_text(t, x2, y2));
}

proof fn lemma_emit_line(x: int, y: int, t: TransformV, e: EmitV)
    ensures
        emit(CmdV::Line(x, y), t, e).path == e.path + "L "@ + point_text(t, x, y),
{
    assert(emit(CmdV::Line(x, y), t, e).path == e.path + "L "@ + fmt_dec(tx(t, x)) + " "@ + fmt_dec(ty(t, y)) + " "@)
        by {
        reveal(emit);
    }
    assert(e.path + "L "@ + fmt_dec(tx(t, x)) + " "@ + fmt_dec(ty(t, y)) + " "@ =~= e.path + "L "@ + point_text(t, x, y));
}

proof fn lemma_emit_move(x: int, y: int, t: TransformV, e: EmitV)
    ensures
        emit(CmdV::Move(x, y), t, e).path == e.path + "M "@ + point_text(t, x, y),
{
    assert(emit(CmdV::Move(x, y), t, e).path == e.path + "M "@ + fmt_dec(tx(t, x)) + " "@ + fmt_dec(ty(t, y)) + " "@)
        by {
        reveal(emit);
    }
    assert(e.path + "M "@ + fmt_dec(tx(t, x)) + " "@ + fmt_dec(ty(t, y)) + " "@ =~= e.path + "M "@ + point_text(t, x, y));
}

/// A `<restore/>` with nothing saved changes nothing.
pub proof fn law_unmatched_restore_is_a_no_op(t: TransformV, e: EmitV)
    requires
        e.stack.len() == 0,
    ensures
        emit(CmdV::Restore, t, e) == e,
{
    lemma_emit_stack(CmdV::Restore, t, e);
}

/// With a fixed aspect ratio the glyph is scaled by the same factor on
/// both axes.
pub proof fn law_fixed_aspect_scales_uniformly(sw: int, sh: int, x: int, y: int, w: int, h: int, pad: int)
    ensures
        transform(sw, sh, x, y, w, h, pad, true).sx == transform(sw, sh, x, y, w, h, pad, true).sy,
{
}

/// With a fixed aspect ratio the glyph is centred across the tile: the
/// gap left of it and the gap right of it differ by at most one millionth
/// (the rounding of halving). Tile sizes up to a billion units and paddings
/// up to half the tile keep every step exact.
pub proof fn law_fixed_aspect_centres_the_glyph(sw: int, sh: int, x: int, y: int, w: int, h: int, pad: int)
    requires
        0 < sw,
        0 <= w <= 1_000_000_000_000_000,
        0 <= h <= 1_000_000_000_000_000,
        0 <= pad <= 500_000,
    ensures
        ({
            let t = transform(sw, sh, x, y, w, h, pad, true);
            let left = t.px;
            let right = w - t.px - dmul(sw, t.sx);
            -1 <= left - right <= 1
        }),
{
    assert(0 <= w * pad && w * pad <= w * 500_000) by (nonlinear_arith)
        requires
            0 <= w,
            0 <= pad <= 500_000,
    ;
    assert(0 <= h * pad && h * pad <= h * 500_000) by (nonlinear_arith)
        requires
            0 <= h,
            0 <= pad <= 500_000,
    ;
    let pad_x = dmul(w, pad);
    let pad_y = dmul(h, pad);
    assert(tdiv(w * pad, 1_000_000) == (w * pad) / 1_000_000);
    assert(tdiv(h * pad, 1_000_000) == (h * pad) / 1_000_000);
    assert(0 <= pad_x <= w / 2);
    assert(0 <= pad_y <= h / 2);
    let draw_w = dsub(w, dadd(pad_x, pad_x));
    let draw_h = dsub(h, dadd(pad_y, pad_y));
    assert(draw_w == w - 2 * pad_x && 0 <= draw_w <= w);
    assert(draw_h == h - 2 * pad_y && 0 <= draw_h <= h);
    let sx = ddiv(draw_w, sw);
    assert(0 <= draw_w * 1_000_000) by (nonlinear_arith)
        requires
            0 <= draw_w,
    ;
    assert(tdiv(draw_w * 1_000_000, sw) >= 0);
    let sy = if sh > 0 {
        ddiv(draw_h, sh)
    } else {
        units(1)
    };
    if sh > 0 {
        assert(0 <= draw_h * 1_000_000) by (nonlinear_arith)
            requires
                0 <= draw_h,
        ;
        assert(tdiv(draw_h * 1_000_000, sh) >= 0);
    }
    let s = dmin(sx, sy);
    assert(0 <= s <= LIMIT);
    assert(0 <= sw * s) by (nonlinear_arith)
        requires
            0 < sw,
            0 <= s,
    ;
    let gw = dmul(sw, s);
    assert(0 <= gw <= LIMIT);
    let d = dsub(draw_w, gw);
    assert(d == draw_w - gw);
    let e = tdiv(d, 2);
    if d >= 0 {
        assert(e == d / 2);
    } else {
        assert(e == -((-d) / 2));
    }
    assert(-1 <= 2 * e - d <= 1);
    let t = transform(sw, sh, x, y, w, h, pad, true);
    assert(t.sx == s);
    assert(t.px == pad_x + e);
}

} // verus!
