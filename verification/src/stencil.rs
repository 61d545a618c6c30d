//! Stencil libraries: the `<shape>` entries of one mxStencil XML file,
//! keyed by drawio's lookup names.
//!
//! A library file wraps its shapes in `<shapes name="mxgraph.<lib>[.<sub>]">`
//! elements. A stencil's key is its normalised name, prefixed with the
//! wrapper's category (the wrapper name after the library prefix) when
//! there is one: `<shapes name="mxgraph.gcp.compute">` holding
//! `<shape name="App Engine">` gives `compute.app_engine` under the prefix
//! `mxgraph.gcp`. Normalising trims the text, lower-cases ASCII letters
//! and turns spaces and dashes into underscores.

use vstd::prelude::*;
use crate::decimal::Decimal;
use crate::error::RenderError;
use crate::model::{attrs_view, num_attr, num_or_zero};
use crate::stencil_svg::{Cmd, CmdV, Stencil, StencilV};
use crate::text::{chars_of, find_char, first_index, is_ws, push_char, push_range, push_str, starts_with, str_eq, trim, trim_end, trim_start, trimmed};
use crate::xml::{Tag, XmlEvent, XmlEventV, XmlFailure, XmlSource, tag_attrs, tag_attrs_at, tag_name, tag_name_at, xml_event_at, xml_next, xml_reader};

verus! {

/// One character of a normalised key.
pub open spec fn norm_char(c: char) -> char {
    if c == ' ' || c == '-' {
        '_'
    } else if 'A' <= c && c <= 'Z' {
        ((c as u32) + 32) as char
    } else {
        c
    }
}

/// `path.trim().to_ascii_lowercase()` with spaces and dashes turned into
/// underscores.
pub open spec fn normalise(path: Seq<char>) -> Seq<char> {
    trim(path).map_values(|c: char| norm_char(c))
}

/// A key that normalising leaves unchanged.
pub open spec fn is_normal(k: Seq<char>) -> bool {
    normalise(k) == k
}

proof fn lemma_norm_char(c: char)
    ensures
        norm_char(norm_char(c)) == norm_char(c),
        !is_ws(c) ==> !is_ws(norm_char(c)),
        norm_char('.') == '.',
{
    if 'A' <= c && c <= 'Z' {
        let d = ((c as u32) + 32) as char;
        assert(d as u32 == (c as u32) + 32);
        assert('a' <= d && d <= 'z');
    }
}

proof fn lemma_trim_start_shape(s: Seq<char>)
    ensures
        trim_start(s).len() == 0 || !is_ws(trim_start(s)[0]),
    decreases s.len(),
{
    if s.len() > 0 && is_ws(s[0]) {
        lemma_trim_start_shape(s.drop_first());
    }
}

proof fn lemma_trim_end_shape(s: Seq<char>)
    ensures
        trim_end(s).len() <= s.len(),
        trim_end(s) == s.take(trim_end(s).len() as int),
        trim_end(s).len() == 0 || !is_ws(trim_end(s).last()),
    decreases s.len(),
{
    if s.len() > 0 && is_ws(s.last()) {
        lemma_trim_end_shape(s.drop_last());
        let t = trim_end(s.drop_last());
        assert(s.drop_last().take(t.len() as int) =~= s.take(t.len() as int));
    } else {
        assert(s.take(s.len() as int) =~= s);
    }
}

/// The trimmed text is empty or starts and ends with a character that is
/// not whitespace.
proof fn lemma_trim_shape(s: Seq<char>)
    ensures
        trim(s).len() == 0 || (!is_ws(trim(s)[0]) && !is_ws(trim(s).last())),
{
    lemma_trim_start_shape(s);
    lemma_trim_end_shape(trim_start(s));
}

/// Text that is empty or neither starts nor ends with whitespace is its own
/// trimmed form.
proof fn lemma_trim_fixed(s: Seq<char>)
    requires
        s.len() == 0 || (!is_ws(s[0]) && !is_ws(s.last())),
    ensures
        trim(s) == s,
{
    assert(trim_start(s) == s);
}

/// Normalising twice is normalising once.
pub proof fn lemma_normalise_is_normal(s: Seq<char>)
    ensures
        is_normal(normalise(s)),
{
    let t = trim(s);
    let n = normalise(s);
    lemma_trim_shape(s);
    if n.len() > 0 {
        lemma_norm_char(t[0]);
        lemma_norm_char(t.last());
        assert(n[0] == norm_char(t[0]));
        assert(n.last() == norm_char(t.last()));
    }
    lemma_trim_fixed(n);
    assert forall|i: int| 0 <= i < n.len() implies norm_char(#[trigger] n[i]) == n[i] by {
        lemma_norm_char(t[i]);
    }
    assert(n.map_values(|c: char| norm_char(c)) =~= n);
}

/// A key made of a normal category, a `.` and a normalised name is normal.
proof fn lemma_key_is_normal(category: Seq<char>, name: Seq<char>)
    requires
        is_normal(category),
    ensures
        is_normal(stencil_key(category, name)),
{
    lemma_normalise_is_normal(name);
    if category.len() > 0 {
        let n = normalise(name);
        let k = category + "."@ + n;
        reveal_strlit(".");
        lemma_trim_shape(category);
        lemma_trim_shape(name);
        assert(trim(category).len() == category.len());
        let tc = trim(category);
        assert(category[0] == norm_char(tc[0]));
        lemma_norm_char(tc[0]);
        assert(k[0] == category[0]);
        if n.len() > 0 {
            let tn = trim(name);
            assert(n.last() == norm_char(tn.last()));
            lemma_norm_char(tn.last());
            assert(k.last() == n.last());
        } else {
            assert(k.last() == '.');
        }
        lemma_trim_fixed(k);
        lemma_norm_char('.');
        assert forall|i: int| 0 <= i < k.len() implies norm_char(#[trigger] k[i]) == k[i] by {
            if i < category.len() {
                assert(k[i] == category[i]);
                assert(category.map_values(|c: char| norm_char(c))[i] == category[i]);
            } else if i == category.len() {
                assert(k[i] == '.');
            } else {
                assert(k[i] == n[i - category.len() - 1]);
                assert(n.map_values(|c: char| norm_char(c))[i - category.len() - 1] == n[i - category.len() - 1]);
            }
        }
        assert(k.map_values(|c: char| norm_char(c)) =~= k);
    }
}

/// The normalised lower-case form of one character.
pub fn norm_char_exec(c: char) -> (r: char)
    ensures
        r == norm_char(c),
{
    if c == ' ' || c == '-' {
        '_'
    } else if 'A' <= c && c <= 'Z' {
        let b: u8 = c as u8;
        (b + 32) as char
    } else {
        c
    }
}


/// Append the normalised form of `path` to `out`.
pub fn normalise_lookup_path(path: &str) -> (r: String)
    ensures
        r@ == normalise(path@),
{
    let t = trimmed(path);
    let v = chars_of(t.as_str());
    let mut r = String::new();
    let mut i: usize = 0;
    while i < v.len()
        invariant
            v@ == trim(path@),
            0 <= i <= v@.len(),
            r@ == v@.take(i as int).map_values(|c: char| norm_char(c)),
        decreases v@.len() - i,
    {
        push_char(&mut r, norm_char_exec(v[i]));
        assert(v@.take(i + 1).map_values(|c: char| norm_char(c)) =~= v@.take(i as int).map_values(
            |c: char| norm_char(c),
        ).push(norm_char(v@[i as int])));
        i = i + 1;
    }
    assert(v@.take(v@.len() as int) =~= v@);
    r
}

/// The category a `<shapes name=...>` wrapper gives its stencils: the
/// normalised rest of the name after the library prefix and one `.`; empty
/// when the name does not start with the prefix.
pub open spec fn category_of(shapes_name: Seq<char>, prefix: Seq<char>) -> Seq<char> {
    if prefix.len() <= shapes_name.len() && shapes_name.subrange(0, prefix.len() as int) == prefix {
        let rest = shapes_name.subrange(prefix.len() as int, shapes_name.len() as int);
        let rest = if rest.len() > 0 && rest[0] == '.' {
            rest.drop_first()
        } else {
            rest
        };
        normalise(rest)
    } else {
        Seq::empty()
    }
}

/// The key a stencil named `name` gets under `category`.
pub open spec fn stencil_key(category: Seq<char>, name: Seq<char>) -> Seq<char> {
    if category.len() == 0 {
        normalise(name)
    } else {
        category + "."@ + normalise(name)
    }
}

pub fn category_suffix(shapes_name: &str, library_prefix: &str) -> (r: String)
    ensures
        r@ == category_of(shapes_name@, library_prefix@),
{
    if !starts_with(shapes_name, library_prefix) {
        return String::new();
    }
    let v = chars_of(shapes_name);
    let p = chars_of(library_prefix);
    let mut from = p.len();
    if from < v.len() && v[from] == '.' {
        from = from + 1;
    }
    let mut rest = String::new();
    push_range(&mut rest, &v, from, v.len());
    proof {
        let full = v@.subrange(p@.len() as int, v@.len() as int);
        if p@.len() < v@.len() && v@[p@.len() as int] == '.' {
            assert(full.drop_first() =~= v@.subrange(from as int, v@.len() as int));
        }
        assert(rest@ =~= v@.subrange(from as int, v@.len() as int));
    }
    normalise_lookup_path(rest.as_str())
}

// ------------------------------------------------------------------
// Attribute values.

/// The value of the last attribute called `key`.
pub open spec fn attr_of(a: Seq<(Seq<char>, Seq<char>)>, key: Seq<char>) -> Option<Seq<char>>
    decreases a.len(),
{
    if a.len() == 0 {
        None
    } else if a.last().0 == key {
        Some(a.last().1)
    } else {
        attr_of(a.drop_last(), key)
    }
}

/// The value of the first attribute called `key`.
pub open spec fn first_attr_of(a: Seq<(Seq<char>, Seq<char>)>, key: Seq<char>) -> Option<Seq<char>>
    decreases a.len(),
{
    if a.len() == 0 {
        None
    } else if a[0].0 == key {
        Some(a[0].1)
    } else {
        first_attr_of(a.drop_first(), key)
    }
}

/// A number attribute; absent or unreadable counts as zero.
pub open spec fn num_of(a: Seq<(Seq<char>, Seq<char>)>, key: Seq<char>) -> int {
    match attr_of(a, key) {
        Some(v) => num_or_zero(v),
        None => 0,
    }
}

/// A `0`/`1` flag: only the text `1` is true.
pub open spec fn flag_of(a: Seq<(Seq<char>, Seq<char>)>, key: Seq<char>) -> bool {
    attr_of(a, key) == Some("1"@)
}

/// A text attribute, or `default` when absent.
pub open spec fn text_of(a: Seq<(Seq<char>, Seq<char>)>, key: Seq<char>, default: Seq<char>) -> Seq<char> {
    match attr_of(a, key) {
        Some(v) => v,
        None => default,
    }
}

fn attr_last<'a>(attrs: &'a Vec<(String, String)>, key: &str) -> (r: Option<&'a String>)
    ensures
        match r {
            Some(v) => attr_of(attrs_view(attrs@), key@) == Some(v@),
            None => attr_of(attrs_view(attrs@), key@) == None::<Seq<char>>,
        },
{
    let mut i = attrs.len();
    assert(attrs_view(attrs@).take(i as int) =~= attrs_view(attrs@));
    while i > 0
        invariant
            i <= attrs@.len(),
            attr_of(attrs_view(attrs@), key@) == attr_of(attrs_view(attrs@).take(i as int), key@),
        decreases i,
    {
        proof {
            let t = attrs_view(attrs@).take(i as int);
            assert(t.drop_last() =~= attrs_view(attrs@).take(i - 1));
            assert(t.last() == (attrs@[i - 1].0@, attrs@[i - 1].1@));
        }
        if str_eq(attrs[i - 1].0.as_str(), key) {
            return Some(&attrs[i - 1].1);
        }
        i = i - 1;
    }
    None
}

fn attr_first<'a>(attrs: &'a Vec<(String, String)>, key: &str) -> (r: Option<&'a String>)
    ensures
        match r {
            Some(v) => first_attr_of(attrs_view(attrs@), key@) == Some(v@),
            None => first_attr_of(attrs_view(attrs@), key@) == None::<Seq<char>>,
        },
{
    let mut i: usize = 0;
    assert(attrs_view(attrs@).skip(0) =~= attrs_view(attrs@));
    while i < attrs.len()
        invariant
            i <= attrs@.len(),
            first_attr_of(attrs_view(attrs@), key@) == first_attr_of(attrs_view(attrs@).skip(i as int), key@),
        decreases attrs@.len() - i,
    {
        proof {
            let t = attrs_view(attrs@).skip(i as int);
            assert(t.drop_first() =~= attrs_view(attrs@).skip(i + 1));
            assert(t[0] == (attrs@[i as int].0@, attrs@[i as int].1@));
        }
        if str_eq(attrs[i].0.as_str(), key) {
            return Some(&attrs[i].1);
        }
        i = i + 1;
    }
    None
}

fn num_value(attrs: &Vec<(String, String)>, key: &str) -> (r: Decimal)
    ensures
        r@ == num_of(attrs_view(attrs@), key@),
{
    match attr_last(attrs, key) {
        Some(v) => num_attr(v),
        None => Decimal::zero(),
    }
}

fn flag_value(attrs: &Vec<(String, String)>, key: &str) -> (r: bool)
    ensures
        r == flag_of(attrs_view(attrs@), key@),
{
    match attr_last(attrs, key) {
        Some(v) => str_eq(v.as_str(), "1"),
        None => false,
    }
}

fn text_value(attrs: &Vec<(String, String)>, key: &str, default: &str) -> (r: String)
    ensures
        r@ == text_of(attrs_view(attrs@), key@, default@),
{
    let mut r = String::new();
    match attr_last(attrs, key) {
        Some(v) => push_str(&mut r, v.as_str()),
        None => push_str(&mut r, default),
    }
    r
}


// ------------------------------------------------------------------
// Drawing commands.

/// The tags read as drawing commands (`<path>` aside).
pub open spec fn is_cmd_name(n: Seq<char>) -> bool {
    ||| n == "move"@ ||| n == "line"@ ||| n == "curve"@ ||| n == "quad"@ ||| n == "arc"@
    ||| n == "close"@ ||| n == "fill"@ ||| n == "stroke"@ ||| n == "fillstroke"@
    ||| n == "ellipse"@ ||| n == "rect"@ ||| n == "roundrect"@ ||| n == "save"@
    ||| n == "restore"@ ||| n == "strokecolor"@ ||| n == "fillcolor"@ ||| n == "fontcolor"@
    ||| n == "strokewidth"@ ||| n == "dashed"@ ||| n == "text"@
}

/// The command a tag called `n` with attributes `a` stands for. Colours
/// default to `none`, text to empty, alignment to `left`/`top`.
pub open spec fn cmd_of(n: Seq<char>, a: Seq<(Seq<char>, Seq<char>)>) -> CmdV {
    if n == "move"@ {
        CmdV::Move(num_of(a, "x"@), num_of(a, "y"@))
    } else if n == "line"@ {
        CmdV::Line(num_of(a, "x"@), num_of(a, "y"@))
    } else if n == "curve"@ {
        CmdV::Curve(
            num_of(a, "x1"@),
            num_of(a, "y1"@),
            num_of(a, "x2"@),
            num_of(a, "y2"@),
            num_of(a, "x3"@),
            num_of(a, "y3"@),
        )
    } else if n == "quad"@ {
        CmdV::Quad(num_of(a, "x1"@), num_of(a, "y1"@), num_of(a, "x2"@), num_of(a, "y2"@))
    } else if n == "arc"@ {
        CmdV::Arc(
            num_of(a, "rx"@),
            num_of(a, "ry"@),
            num_of(a, "x-axis-rotation"@),
            flag_of(a, "large-arc-flag"@),
            flag_of(a, "sweep-flag"@),
            num_of(a, "x"@),
            num_of(a, "y"@),
        )
    } else if n == "close"@ {
        CmdV::Close
    } else if n == "save"@ {
        CmdV::Save
    } else if n == "restore"@ {
        CmdV::Restore
    } else if n == "fill"@ {
        CmdV::Fill
    } else if n == "stroke"@ {
        CmdV::Stroke
    } else if n == "fillstroke"@ {
        CmdV::FillStroke
    } else if n == "strokecolor"@ {
        CmdV::SetStrokeColor(text_of(a, "color"@, "none"@))
    } else if n == "fillcolor"@ {
        CmdV::SetFillColor(text_of(a, "color"@, "none"@))
    } else if n == "fontcolor"@ {
        CmdV::SetFontColor(text_of(a, "color"@, "none"@))
    } else if n == "strokewidth"@ {
        CmdV::SetStrokeWidth(num_of(a, "width"@), flag_of(a, "fixed"@))
    } else if n == "dashed"@ {
        CmdV::SetDashed(flag_of(a, "dashed"@))
    } else if n == "text"@ {
        CmdV::Text(
            num_of(a, "x"@),
            num_of(a, "y"@),
            text_of(a, "str"@, ""@),
            text_of(a, "align"@, "left"@),
            text_of(a, "valign"@, "top"@),
        )
    } else if n == "ellipse"@ {
        CmdV::Ellipse(num_of(a, "x"@), num_of(a, "y"@), num_of(a, "w"@), num_of(a, "h"@))
    } else if n == "rect"@ {
        CmdV::Rect(num_of(a, "x"@), num_of(a, "y"@), num_of(a, "w"@), num_of(a, "h"@))
    } else {
        CmdV::RoundRect(
            num_of(a, "x"@),
            num_of(a, "y"@),
            num_of(a, "w"@),
            num_of(a, "h"@),
            num_of(a, "arcsize"@),
        )
    }
}

pub fn is_cmd_tag(n: &str) -> (r: bool)
    ensures
        r == is_cmd_name(n@),
{
    str_eq(n, "move") || str_eq(n, "line") || str_eq(n, "curve") || str_eq(n, "quad") || str_eq(n, "arc")
        || str_eq(n, "close") || str_eq(n, "fill") || str_eq(n, "stroke") || str_eq(n, "fillstroke")
        || str_eq(n, "ellipse") || str_eq(n, "rect") || str_eq(n, "roundrect") || str_eq(n, "save")
        || str_eq(n, "restore") || str_eq(n, "strokecolor") || str_eq(n, "fillcolor")
        || str_eq(n, "fontcolor") || str_eq(n, "strokewidth") || str_eq(n, "dashed") || str_eq(n, "text")
}

fn path_cmd(n: &str, attrs: &Vec<(String, String)>) -> (r: Option<Cmd>)
    ensures
        match r {
            Some(c) => c@ == cmd_of(n@, attrs_view(attrs@)),
            None => !(n@ == "move"@ || n@ == "line"@ || n@ == "curve"@ || n@ == "quad"@ || n@ == "arc"@),
        },
{
    if str_eq(n, "move") {
        Some(Cmd::Move(num_value(attrs, "x"), num_value(attrs, "y")))
    } else if str_eq(n, "line") {
        Some(Cmd::Line(num_value(attrs, "x"), num_value(attrs, "y")))
    } else if str_eq(n, "curve") {
        Some(Cmd::Curve {
            x1: num_value(attrs, "x1"),
            y1: num_value(attrs, "y1"),
            x2: num_value(attrs, "x2"),
            y2: num_value(attrs, "y2"),
            x3: num_value(attrs, "x3"),
            y3: num_value(attrs, "y3"),
        })
    } else if str_eq(n, "quad") {
        Some(Cmd::Quad {
            x1: num_value(attrs, "x1"),
            y1: num_value(attrs, "y1"),
            x2: num_value(attrs, "x2"),
            y2: num_value(attrs, "y2"),
        })
    } else if str_eq(n, "arc") {
        Some(Cmd::Arc {
            rx: num_value(attrs, "rx"),
            ry: num_value(attrs, "ry"),
            x_axis_rotation: num_value(attrs, "x-axis-rotation"),
            large_arc_flag: flag_value(attrs, "large-arc-flag"),
            sweep_flag: flag_value(attrs, "sweep-flag"),
            x: num_value(attrs, "x"),
            y: num_value(attrs, "y"),
        })
    } else {
        None
    }
}

fn state_cmd(n: &str, attrs: &Vec<(String, String)>) -> (r: Option<Cmd>)
    requires
        !(n@ == "move"@ || n@ == "line"@ || n@ == "curve"@ || n@ == "quad"@ || n@ == "arc"@),
    ensures
        match r {
            Some(c) => c@ == cmd_of(n@, attrs_view(attrs@)),
            None => !(n@ == "close"@ || n@ == "save"@ || n@ == "restore"@ || n@ == "fill"@ || n@ == "stroke"@
                || n@ == "fillstroke"@ || n@ == "strokecolor"@ || n@ == "fillcolor"@ || n@ == "fontcolor"@
                || n@ == "strokewidth"@ || n@ == "dashed"@),
        },
{
    if str_eq(n, "close") {
        Some(Cmd::Close)
    } else if str_eq(n, "save") {
        Some(Cmd::Save)
    } else if str_eq(n, "restore") {
        Some(Cmd::Restore)
    } else if str_eq(n, "fill") {
        Some(Cmd::Fill)
    } else if str_eq(n, "stroke") {
        Some(Cmd::Stroke)
    } else if str_eq(n, "fillstroke") {
        Some(Cmd::FillStroke)
    } else if str_eq(n, "strokecolor") {
        Some(Cmd::SetStrokeColor(text_value(attrs, "color", "none")))
    } else if str_eq(n, "fillcolor") {
        Some(Cmd::SetFillColor(text_value(attrs, "color", "none")))
    } else if str_eq(n, "fontcolor") {
        Some(Cmd::SetFontColor(text_value(attrs, "color", "none")))
    } else if str_eq(n, "strokewidth") {
        Some(Cmd::SetStrokeWidth { width: num_value(attrs, "width"), fixed: flag_value(attrs, "fixed") })
    } else if str_eq(n, "dashed") {
        Some(Cmd::SetDashed(flag_value(attrs, "dashed")))
    } else {
        None
    }
}

fn shape_cmd(n: &str, attrs: &Vec<(String, String)>) -> (r: Cmd)
    requires
        is_cmd_name(n@),
        !(n@ == "move"@ || n@ == "line"@ || n@ == "curve"@ || n@ == "quad"@ || n@ == "arc"@),
        !(n@ == "close"@ || n@ == "save"@ || n@ == "restore"@ || n@ == "fill"@ || n@ == "stroke"@
            || n@ == "fillstroke"@ || n@ == "strokecolor"@ || n@ == "fillcolor"@ || n@ == "fontcolor"@
            || n@ == "strokewidth"@ || n@ == "dashed"@),
    ensures
        r@ == cmd_of(n@, attrs_view(attrs@)),
{
    if str_eq(n, "text") {
        Cmd::Text {
            x: num_value(attrs, "x"),
            y: num_value(attrs, "y"),
            text: text_value(attrs, "str", ""),
            align: text_value(attrs, "align", "left"),
            valign: text_value(attrs, "valign", "top"),
        }
    } else if str_eq(n, "ellipse") {
        Cmd::Ellipse { x: num_value(attrs, "x"), y: num_value(attrs, "y"), w: num_value(attrs, "w"), h: num_value(attrs, "h") }
    } else if str_eq(n, "rect") {
        Cmd::Rect { x: num_value(attrs, "x"), y: num_value(attrs, "y"), w: num_value(attrs, "w"), h: num_value(attrs, "h") }
    } else {
        Cmd::RoundRect {
            x: num_value(attrs, "x"),
            y: num_value(attrs, "y"),
            w: num_value(attrs, "w"),
            h: num_value(attrs, "h"),
            arc: num_value(attrs, "arcsize"),
        }
    }
}

/// The command for a drawing tag `n` with attributes `attrs`.
pub fn build_cmd(n: &str, attrs: &Vec<(String, String)>) -> (r: Cmd)
    requires
        is_cmd_name(n@),
    ensures
        r@ == cmd_of(n@, attrs_view(attrs@)),
{
    match path_cmd(n, attrs) {
        Some(c) => c,
        None => match state_cmd(n, attrs) {
            Some(c) => c,
            None => shape_cmd(n, attrs),
        },
    }
}


// ------------------------------------------------------------------
// The library.

/// Entries as a map; a later entry for a key replaces an earlier one.
pub open spec fn lib_map(es: Seq<(Seq<char>, StencilV)>) -> Map<Seq<char>, StencilV>
    decreases es.len(),
{
    if es.len() == 0 {
        Map::empty()
    } else {
        lib_map(es.drop_last()).insert(es.last().0, es.last().1)
    }
}

pub open spec fn keys_distinct(es: Seq<(Seq<char>, StencilV)>) -> bool {
    forall|i: int, j: int| 0 <= i < j < es.len() ==> #[trigger] es[i].0 != #[trigger] es[j].0
}

proof fn lemma_lib_dom(es: Seq<(Seq<char>, StencilV)>, k: Seq<char>)
    ensures
        lib_map(es).contains_key(k) <==> exists|i: int| 0 <= i < es.len() && #[trigger] es[i].0 == k,
    decreases es.len(),
{
    if es.len() > 0 {
        let d = es.drop_last();
        lemma_lib_dom(d, k);
        if lib_map(d).contains_key(k) {
            let i = choose|i: int| 0 <= i < d.len() && #[trigger] d[i].0 == k;
            assert(es[i].0 == k);
        }
        if exists|i: int| 0 <= i < es.len() && #[trigger] es[i].0 == k {
            let i = choose|i: int| 0 <= i < es.len() && #[trigger] es[i].0 == k;
            if i < es.len() - 1 {
                assert(d[i].0 == k);
            }
        }
    }
}

proof fn lemma_lib_at(es: Seq<(Seq<char>, StencilV)>, i: int)
    requires
        keys_distinct(es),
        0 <= i < es.len(),
    ensures
        lib_map(es).contains_key(es[i].0),
        lib_map(es)[es[i].0] == es[i].1,
    decreases es.len(),
{
    let d = es.drop_last();
    if i < es.len() - 1 {
        assert(keys_distinct(d)) by {
            assert forall|a: int, b: int| 0 <= a < b < d.len() implies #[trigger] d[a].0 != #[trigger] d[b].0 by {
                assert(d[a] == es[a] && d[b] == es[b]);
            }
        }
        lemma_lib_at(d, i);
        assert(d[i] == es[i]);
        assert(es[i].0 != es.last().0);
    }
}

proof fn lemma_lib_len(es: Seq<(Seq<char>, StencilV)>)
    requires
        keys_distinct(es),
    ensures
        lib_map(es).dom().finite(),
        lib_map(es).dom().len() == es.len(),
    decreases es.len(),
{
    if es.len() > 0 {
        let d = es.drop_last();
        assert(keys_distinct(d)) by {
            assert forall|a: int, b: int| 0 <= a < b < d.len() implies #[trigger] d[a].0 != #[trigger] d[b].0 by {
                assert(d[a] == es[a] && d[b] == es[b]);
            }
        }
        lemma_lib_len(d);
        lemma_lib_dom(d, es.last().0);
        if lib_map(d).contains_key(es.last().0) {
            let i = choose|i: int| 0 <= i < d.len() && #[trigger] d[i].0 == es.last().0;
            assert(es[i].0 == es[es.len() - 1].0);
        }
    }
}

/// The stencil a lookup path finds: the normalised path itself if it is a
/// key, else the first key among the suffixes after each `.`, from the
/// longest.
pub open spec fn find_suffix(m: Map<Seq<char>, StencilV>, s: Seq<char>) -> Option<StencilV>
    decreases s.len(),
{
    if m.contains_key(s) {
        Some(m[s])
    } else {
        match first_index(s, '.') {
            Some(i) => if 0 <= i < s.len() {
                find_suffix(m, s.subrange(i + 1, s.len() as int))
            } else {
                None
            },
            None => None,
        }
    }
}

/// What `lookup(path)` finds in a library with contents `m`.
pub open spec fn lookup_in(m: Map<Seq<char>, StencilV>, path: Seq<char>) -> Option<StencilV> {
    find_suffix(m, normalise(path))
}

/// The stencils of one library, by key.
pub struct StencilLibrary {
    entries: Vec<(String, Stencil)>,
}

impl StencilLibrary {
    pub closed spec fn entries_v(&self) -> Seq<(Seq<char>, StencilV)> {
        self.entries@.map_values(|e: (String, Stencil)| (e.0@, e.1@))
    }

    #[verifier::type_invariant]
    spec fn wf(&self) -> bool {
        keys_distinct(self.entries_v())
    }
}

impl View for StencilLibrary {
    type V = Map<Seq<char>, StencilV>;

    closed spec fn view(&self) -> Map<Seq<char>, StencilV> {
        lib_map(self.entries_v())
    }
}

impl StencilLibrary {
    /// An empty library.
    pub fn new() -> (r: StencilLibrary)
        ensures
            r@ == Map::<Seq<char>, StencilV>::empty(),
    {
        let r = StencilLibrary { entries: Vec::new() };
        assert(r.entries_v() =~= Seq::<(Seq<char>, StencilV)>::empty());
        r
    }

    /// The position of the entry keyed `v[from..]`, if any.
    fn find_key(&self, v: &Vec<char>, from: usize) -> (r: Option<usize>)
        requires
            from <= v@.len(),
        ensures
            match r {
                Some(i) => i < self.entries_v().len() && self.entries_v()[i as int].0 == v@.subrange(
                    from as int,
                    v@.len() as int,
                ),
                None => !self@.contains_key(v@.subrange(from as int, v@.len() as int)),
            },
    {
        let ghost key = v@.subrange(from as int, v@.len() as int);
        let mut j: usize = 0;
        while j < self.entries.len()
            invariant
                from <= v@.len(),
                key == v@.subrange(from as int, v@.len() as int),
                j <= self.entries_v().len(),
                self.entries_v().len() == self.entries@.len(),
                forall|k: int| 0 <= k < j ==> #[trigger] self.entries_v()[k].0 != key,
            decreases self.entries@.len() - j,
        {
            if crate::text::range_eq(v.as_slice(), from, v.len(), self.entries[j].0.as_str()) {
                return Some(j);
            }
            j = j + 1;
        }
        proof {
            lemma_lib_dom(self.entries_v(), key);
        }
        None
    }

    /// Add `stencil` under `key`, replacing any stencil already there.
    pub fn insert(&mut self, key: String, stencil: Stencil)
        ensures
            final(self)@ == old(self)@.insert(key@, stencil@),
    {
        proof {
            use_type_invariant(&*self);
        }
        let v = chars_of(key.as_str());
        assert(v@.subrange(0, v@.len() as int) =~= key@);
        let ghost es = self.entries_v();
        let ghost e = (key@, stencil@);
        let found = self.find_key(&v, 0);
        let mut items: Vec<(String, Stencil)> = Vec::new();
        std::mem::swap(&mut items, &mut self.entries);
        assert(items@.map_values(|e: (String, Stencil)| (e.0@, e.1@)) == es);
        match found {
            Some(i) => {
                let ghost ns = es.update(i as int, e);
                items.set(i, (key, stencil));
                assert(items@.map_values(|e: (String, Stencil)| (e.0@, e.1@)) =~= ns);
                proof {
                    assert forall|a: int, b: int| 0 <= a < b < ns.len() implies #[trigger] ns[a].0 != #[trigger] ns[b].0 by {
                        assert(ns[a].0 == es[a].0 && ns[b].0 == es[b].0);
                    }
                    assert forall|k: Seq<char>| #[trigger] lib_map(ns).contains_key(k) == es_insert_dom(es, e, k) by {
                        lemma_lib_dom(ns, k);
                        lemma_lib_dom(es, k);
                        if exists|x: int| 0 <= x < ns.len() && #[trigger] ns[x].0 == k {
                            let x = choose|x: int| 0 <= x < ns.len() && #[trigger] ns[x].0 == k;
                            if x != i {
                                assert(es[x].0 == k);
                            }
                        }
                        if exists|x: int| 0 <= x < es.len() && #[trigger] es[x].0 == k {
                            let x = choose|x: int| 0 <= x < es.len() && #[trigger] es[x].0 == k;
                            assert(ns[x].0 == k);
                        }
                    }
                    assert forall|k: Seq<char>| #[trigger] lib_map(ns).contains_key(k) implies lib_map(ns)[k]
                        == lib_map(es).insert(e.0, e.1)[k] by {
                        lemma_lib_dom(ns, k);
                        let x = choose|x: int| 0 <= x < ns.len() && #[trigger] ns[x].0 == k;
                        lemma_lib_at(ns, x);
                        if x != i {
                            lemma_lib_at(es, x);
                        }
                    }
                    assert(lib_map(ns) =~= lib_map(es).insert(e.0, e.1));
                }
                self.entries = items;
            },
            None => {
                items.push((key, stencil));
                assert(items@.map_values(|e: (String, Stencil)| (e.0@, e.1@)) =~= es.push(e));
                assert(es.push(e).drop_last() =~= es);
                proof {
                    let ns = es.push(e);
                    lemma_lib_dom(es, e.0);
                    assert forall|a: int, b: int| 0 <= a < b < ns.len() implies #[trigger] ns[a].0 != #[trigger] ns[b].0 by {
                        if b == ns.len() - 1 {
                            assert(ns[a] == es[a]);
                        } else {
                            assert(ns[a] == es[a] && ns[b] == es[b]);
                        }
                    }
                }
                self.entries = items;
            },
        }
    }

    /// Number of stencils loaded.
    pub fn len(&self) -> (r: usize)
        ensures
            r == self@.dom().len(),
    {
        proof {
            use_type_invariant(self);
            lemma_lib_len(self.entries_v());
        }
        self.entries.len()
    }

    /// Whether the library is empty.
    pub fn is_empty(&self) -> (r: bool)
        ensures
            r == (self@.dom().len() == 0),
    {
        self.len() == 0
    }

    /// Look a stencil up by a dotted path relative to the library prefix;
    /// leading segments are dropped one at a time until a key matches, so
    /// `mxgraph.aws4.lambda` finds `lambda`.
    pub fn lookup(&self, path: &str) -> (r: Option<&Stencil>)
        ensures
            match r {
                Some(s) => lookup_in(self@, path@) == Some(s@),
                None => lookup_in(self@, path@) == None::<StencilV>,
            },
    {
        proof {
            use_type_invariant(self);
        }
        let n = normalise_lookup_path(path);
        let v = chars_of(n.as_str());
        let mut from: usize = 0;
        assert(v@.subrange(0, v@.len() as int) =~= v@);
        loop
            invariant
                from <= v@.len(),
                keys_distinct(self.entries_v()),
                lookup_in(self@, path@) == find_suffix(self@, v@.subrange(from as int, v@.len() as int)),
            decreases v@.len() - from,
        {
            let ghost s = v@.subrange(from as int, v@.len() as int);
            match self.find_key(&v, from) {
                Some(i) => {
                    proof {
                        lemma_lib_at(self.entries_v(), i as int);
                    }
                    return Some(&self.entries[i].1);
                },
                None => {},
            }
            match find_char(v.as_slice(), from, v.len(), '.') {
                Some(j) => {
                    assert(s.subrange(j - from + 1, s.len() as int) =~= v@.subrange(j + 1, v@.len() as int));
                    from = j + 1;
                },
                None => {
                    return None;
                },
            }
        }
    }
}

pub open spec fn es_insert_dom(es: Seq<(Seq<char>, StencilV)>, e: (Seq<char>, StencilV), k: Seq<char>) -> bool {
    lib_map(es).insert(e.0, e.1).contains_key(k)
}


// ------------------------------------------------------------------
// Loading a library file.

/// Loading state: the library so far, the `<shape>` being read, whether
/// its `<foreground>` is open, and the current `<shapes>` category.
pub struct LoadV {
    pub lib: Map<Seq<char>, StencilV>,
    pub current: Option<StencilV>,
    pub in_fg: bool,
    pub category: Seq<char>,
}

/// A fresh stencil from a `<shape>` tag's `name`, `w` and `h`.
pub open spec fn shape_of(a: Seq<(Seq<char>, Seq<char>)>) -> StencilV {
    StencilV { name: text_of(a, "name"@, ""@), w: num_of(a, "w"@), h: num_of(a, "h"@), commands: Seq::empty() }
}

/// `c` appended to the current stencil, inside a foreground only.
pub open spec fn with_cmd(s: LoadV, c: CmdV) -> LoadV {
    match s.current {
        Some(st) => if s.in_fg {
            LoadV { current: Some(StencilV { commands: st.commands.push(c), ..st }), ..s }
        } else {
            s
        },
        None => s,
    }
}

/// `<image>` inside a foreground cannot be drawn and stops the load.
pub open spec fn rejects(s: LoadV, name: Seq<char>) -> bool {
    name == "image"@ && s.in_fg
}

/// The effect of an opening (or self-closing) tag.
pub open spec fn load_open(s: LoadV, prefix: Seq<char>, name: Seq<char>, a: Seq<(Seq<char>, Seq<char>)>) -> LoadV {
    if name == "shapes"@ {
        LoadV {
            category: match first_attr_of(a, "name"@) {
                Some(v) => category_of(v, prefix),
                None => Seq::empty(),
            },
            ..s
        }
    } else if name == "shape"@ {
        LoadV { current: Some(shape_of(a)), ..s }
    } else if name == "foreground"@ {
        LoadV { in_fg: true, ..s }
    } else if name == "path"@ {
        with_cmd(s, CmdV::PathBegin)
    } else if is_cmd_name(name) {
        with_cmd(s, cmd_of(name, a))
    } else {
        s
    }
}

/// The effect of a closing tag: `</shape>` files the current stencil
/// under its key.
pub open spec fn load_close(s: LoadV, name: Seq<char>) -> LoadV {
    if name == "shape"@ {
        LoadV {
            lib: match s.current {
                Some(c) => s.lib.insert(stencil_key(s.category, c.name), c),
                None => s.lib,
            },
            current: None,
            in_fg: false,
            ..s
        }
    } else if name == "shapes"@ {
        LoadV { category: Seq::empty(), ..s }
    } else if name == "foreground"@ {
        LoadV { in_fg: false, ..s }
    } else {
        s
    }
}

/// The loader state before any tag is read.
pub open spec fn load_start() -> LoadV {
    LoadV { lib: Map::empty(), current: None, in_fg: false, category: Seq::empty() }
}

/// Whether a tag's attributes are read.
pub open spec fn load_reads_attrs(s: LoadV, name: Seq<char>) -> bool {
    name == "shapes"@ || name == "shape"@ || (is_cmd_name(name) && s.in_fg && s.current is Some)
}

pub open spec fn is_unsupported(r: Result<(), RenderError>, what: Seq<char>) -> bool {
    match r {
        Err(RenderError::UnsupportedStencilCmd(m)) => m@ == what,
        _ => false,
    }
}

pub open spec fn opt_stencil(s: Option<Stencil>) -> Option<StencilV> {
    match s {
        Some(st) => Some(st@),
        None => None,
    }
}

/// A stencil library being loaded.
pub struct StencilLoader {
    pub library: StencilLibrary,
    pub current: Option<Stencil>,
    pub in_foreground: bool,
    pub category: String,
}

impl StencilLoader {
    pub open spec fn state(&self) -> LoadV {
        LoadV {
            lib: self.library@,
            current: opt_stencil(self.current),
            in_fg: self.in_foreground,
            category: self.category@,
        }
    }

    pub fn new() -> (r: StencilLoader)
        ensures
            r.state() == (LoadV {
                lib: Map::empty(),
                current: None,
                in_fg: false,
                category: Seq::empty(),
            }),
    {
        StencilLoader { library: StencilLibrary::new(), current: None, in_foreground: false, category: String::new() }
    }

    /// Whether a tag called `name` has its attributes read.
    pub fn wants_attrs(&self, name: &str) -> (r: bool)
        ensures
            r == load_reads_attrs(self.state(), name@),
    {
        str_eq(name, "shapes") || str_eq(name, "shape") || (is_cmd_tag(name) && self.in_foreground
            && self.current.is_some())
    }

    fn push_cmd(&mut self, c: Cmd)
        ensures
            final(self).state() == with_cmd(old(self).state(), c@),
    {
        if self.in_foreground {
            if let Some(mut st) = self.current.take() {
                let ghost before = st@;
                st.commands.push(c);
                assert(st@.commands =~= before.commands.push(c@));
                self.current = Some(st);
            }
        }
    }

    /// Apply an opening (or self-closing) tag with its attributes.
    pub fn open_tag(&mut self, prefix: &str, name: &str, attrs: &Vec<(String, String)>) -> (r: Result<(), RenderError>)
        ensures
            rejects(old(self).state(), name@) ==> is_unsupported(r, "image"@) && final(self).state() == old(
                self,
            ).state(),
            !rejects(old(self).state(), name@) ==> r is Ok && final(self).state() == load_open(
                old(self).state(),
                prefix@,
                name@,
                attrs_view(attrs@),
            ),
    {
        proof {
            reveal_strlit("image");
            reveal_strlit("shapes");
            reveal_strlit("shape");
            reveal_strlit("foreground");
            reveal_strlit("path");
            assert("image"@[0] != "shapes"@[0]);
            assert("image"@[0] != "shape"@[0]);
            assert("image"@[0] != "foreground"@[0]);
            assert("image"@[0] != "path"@[0]);
        }
        if str_eq(name, "shapes") {
            self.category = match attr_first(attrs, "name") {
                Some(v) => category_suffix(v.as_str(), prefix),
                None => String::new(),
            };
        } else if str_eq(name, "shape") {
            let st = Stencil {
                name: text_value(attrs, "name", ""),
                w: num_value(attrs, "w"),
                h: num_value(attrs, "h"),
                commands: Vec::new(),
            };
            assert(st@.commands =~= Seq::<CmdV>::empty());
            self.current = Some(st);
        } else if str_eq(name, "foreground") {
            self.in_foreground = true;
        } else if str_eq(name, "path") {
            self.push_cmd(Cmd::PathBegin);
        } else if str_eq(name, "image") {
            if self.in_foreground {
                let mut m = String::new();
                push_str(&mut m, "image");
                return Err(RenderError::UnsupportedStencilCmd(m));
            }
        } else if is_cmd_tag(name) {
            let c = build_cmd(name, attrs);
            self.push_cmd(c);
        }
        Ok(())
    }

    /// Apply a closing tag.
    pub fn close_tag(&mut self, name: &str)
        ensures
            final(self).state() == load_close(old(self).state(), name@),
    {
        if str_eq(name, "shape") {
            if let Some(st) = self.current.take() {
                let key = if self.category.as_str().is_empty() {
                    normalise_lookup_path(st.name.as_str())
                } else {
                    let mut k = String::new();
                    push_str(&mut k, self.category.as_str());
                    push_str(&mut k, ".");
                    let n = normalise_lookup_path(st.name.as_str());
                    push_str(&mut k, n.as_str());
                    k
                };
                self.library.insert(key, st);
            }
            self.in_foreground = false;
        } else if str_eq(name, "shapes") {
            self.category = String::new();
        } else if str_eq(name, "foreground") {
            self.in_foreground = false;
        }
    }
}


/// Every key of the library is normal.
pub open spec fn keys_normal(m: Map<Seq<char>, StencilV>) -> bool {
    forall|k: Seq<char>| m.contains_key(k) ==> #[trigger] is_normal(k)
}

/// Loading keeps every key, and the category keys are built from, normal.
pub open spec fn load_ok(s: LoadV) -> bool {
    keys_normal(s.lib) && is_normal(s.category)
}

proof fn lemma_empty_is_normal()
    ensures
        is_normal(Seq::<char>::empty()),
{
    assert(trim(Seq::<char>::empty()) =~= Seq::<char>::empty());
    assert(normalise(Seq::<char>::empty()) =~= Seq::<char>::empty());
}

proof fn lemma_open_keeps_ok(s: LoadV, prefix: Seq<char>, name: Seq<char>, a: Seq<(Seq<char>, Seq<char>)>)
    requires
        load_ok(s),
    ensures
        load_ok(load_open(s, prefix, name, a)),
{
    if name == "shapes"@ {
        match first_attr_of(a, "name"@) {
            Some(v) => {
                if category_of(v, prefix).len() == 0 {
                    lemma_empty_is_normal();
                    assert(category_of(v, prefix) =~= Seq::<char>::empty());
                } else {
                    let rest = v.subrange(prefix.len() as int, v.len() as int);
                    lemma_normalise_is_normal(rest);
                    lemma_normalise_is_normal(rest.drop_first());
                }
            },
            None => lemma_empty_is_normal(),
        }
    }
}

proof fn lemma_close_keeps_ok(s: LoadV, name: Seq<char>)
    requires
        load_ok(s),
    ensures
        load_ok(load_close(s, name)),
{
    lemma_empty_is_normal();
    if name == "shape"@ {
        if let Some(c) = s.current {
            lemma_key_is_normal(s.category, c.name);
            let m = s.lib.insert(stencil_key(s.category, c.name), c);
            assert forall|k: Seq<char>| m.contains_key(k) implies #[trigger] is_normal(k) by {
                if k != stencil_key(s.category, c.name) {
                    assert(s.lib.contains_key(k));
                }
            }
        }
    }
}

/// A stencil filed under a normal key is found by looking that key up.
/// Every key of a library loaded by [`StencilLibrary::from_xml`] is
/// normal, so each loaded stencil resolves by its own key.
pub proof fn law_normal_keys_resolve(m: Map<Seq<char>, StencilV>, k: Seq<char>)
    requires
        m.contains_key(k),
        is_normal(k),
    ensures
        lookup_in(m, k) == Some(m[k]),
{
}

/// How loading a stencil document can fail.
pub enum LoadFail {
    /// The XML does not parse (with the message reported).
    Xml(Seq<char>),
    /// A foreground holds an `<image>`.
    Image,
}

/// The end of loading a stencil document: the loader state reached, or a
/// failure.
pub enum LoadEnd {
    Loaded(LoadV),
    LoadFailed(LoadFail),
}

/// Whether the error `e` reports the failure `f`.
pub open spec fn load_reports(e: RenderError, f: LoadFail) -> bool {
    match f {
        LoadFail::Xml(m) => e matches RenderError::Xml(em) && em@ == m,
        LoadFail::Image => e matches RenderError::UnsupportedStencilCmd(w) && w@ == "image"@,
    }
}

/// The attributes that an opening tag (the `k`-th event of `text`) is
/// applied with: its own where they are read, none otherwise.
pub open spec fn load_tag_attrs(s: LoadV, text: Seq<char>, k: nat) -> Result<Seq<(Seq<char>, Seq<char>)>, Seq<char>> {
    if load_reads_attrs(s, tag_name_at(text, k)) {
        tag_attrs_at(text, k)
    } else {
        Ok(Seq::empty())
    }
}

/// What the opening tag that is the `k`-th event of `text` does to the
/// loader: its attributes fail to read, an `<image>` inside a foreground
/// is refused, or the tag is applied.
pub open spec fn load_tag(s: LoadV, prefix: Seq<char>, text: Seq<char>, k: nat) -> Result<LoadV, LoadFail> {
    let name = tag_name_at(text, k);
    match load_tag_attrs(s, text, k) {
        Err(m) => Err(LoadFail::Xml(m)),
        Ok(a) => if rejects(s, name) {
            Err(LoadFail::Image)
        } else {
            Ok(load_open(s, prefix, name, a))
        },
    }
}

/// Loading the events of `text` from the `k`-th on, with at most `fuel`
/// more reads, from loader state `s`, under `prefix`.
pub open spec fn load_from(text: Seq<char>, k: nat, fuel: nat, s: LoadV, prefix: Seq<char>) -> LoadEnd
    decreases fuel,
{
    if fuel == 0 {
        LoadEnd::LoadFailed(LoadFail::Xml("stencil parse: no end of document"@))
    } else {
        let f = (fuel - 1) as nat;
        match xml_event_at(text, k) {
            XmlEventV::Fail(_, msg) => LoadEnd::LoadFailed(LoadFail::Xml("stencil parse: "@ + msg)),
            XmlEventV::Eof => LoadEnd::Loaded(s),
            XmlEventV::Start | XmlEventV::Empty => match load_tag(s, prefix, text, k) {
                Err(e) => LoadEnd::LoadFailed(e),
                Ok(t) => load_from(text, k + 1, f, t, prefix),
            },
            XmlEventV::End(name) => load_from(text, k + 1, f, load_close(s, name), prefix),
            _ => load_from(text, k + 1, f, s, prefix),
        }
    }
}

/// Apply the opening tag `e` to the loader.
fn open_event(ld: &mut StencilLoader, e: &Tag, src: &XmlSource, prefix: &str) -> (r: Result<(), RenderError>)
    requires
        load_ok(old(ld).state()),
    ensures
        load_ok(final(ld).state()),
        match load_tag(old(ld).state(), prefix@, e.text(), e.at()) {
            Ok(t) => r is Ok && final(ld).state() == t,
            Err(f) => r matches Err(err) && load_reports(err, f),
        },
{
    let name = tag_name(e);
    let attrs = if ld.wants_attrs(name.as_str()) {
        match tag_attrs(e, src) {
            Ok(a) => a,
            Err(m) => return Err(RenderError::Xml(m)),
        }
    } else {
        Vec::new()
    };
    proof {
        assert(attrs_view(attrs@) =~= match load_tag_attrs(old(ld).state(), e.text(), e.at()) {
            Ok(a) => a,
            Err(_) => Seq::empty(),
        });
        lemma_open_keeps_ok(ld.state(), prefix@, name@, attrs_view(attrs@));
        reveal_strlit("image");
    }
    ld.open_tag(prefix, name.as_str(), &attrs)
}

/// The error a parse failure of a stencil file is reported as.
fn stencil_xml_error(f: XmlFailure) -> (r: RenderError)
    ensures
        r matches RenderError::Xml(m) && m@ == "stencil parse: "@ + f.message@,
{
    let mut m = String::new();
    push_str(&mut m, "stencil parse: ");
    push_str(&mut m, f.message.as_str());
    RenderError::Xml(m)
}

impl StencilLibrary {
    /// Load every `<shape>` of a stencil XML document. `<shapes name=...>`
    /// wrappers scope their stencils under the category after
    /// `library_prefix`. An `<image>` inside a foreground is refused with
    /// `UnsupportedStencilCmd("image")`; XML that does not parse gives
    /// `Xml`. The result is the library that loading the document's events
    /// gives (see [`load_from`]).
    pub fn from_xml(xml: &str, library_prefix: &str) -> (r: Result<StencilLibrary, RenderError>)
        ensures
            match load_from(xml@, 0, xml@.len() + 1, load_start(), library_prefix@) {
                LoadEnd::Loaded(st) => r matches Ok(lib) && lib@ == st.lib,
                LoadEnd::LoadFailed(f) => r matches Err(e) && load_reports(e, f),
            },
            r matches Ok(lib) ==> keys_normal(lib@),
    {
        let ghost goal = load_from(xml@, 0, xml@.len() + 1, load_start(), library_prefix@);
        let mut src = xml_reader(xml);
        let mut ld = StencilLoader::new();
        // Every event but the end of the document consumes input, so a
        // document of `n` characters reaches its end within `n + 1` events.
        let budget: u128 = chars_of(xml).len() as u128;
        let mut steps: u128 = 0;
        proof {
            lemma_empty_is_normal();
        }
        while steps <= budget
            invariant
                budget == xml@.len(),
                steps <= budget + 1,
                src.text() == xml@,
                src.seen() == steps,
                load_ok(ld.state()),
                budget <= 0xffff_ffff_ffff_ffff,
                goal == load_from(xml@, 0, xml@.len() + 1, load_start(), library_prefix@),
                goal == load_from(xml@, steps as nat, (budget + 1 - steps) as nat, ld.state(), library_prefix@),
            decreases budget + 1 - steps,
        {
            let ev = xml_next(&mut src);
            steps = steps + 1;
            match ev {
                Err(f) => return Err(stencil_xml_error(f)),
                Ok(XmlEvent::Eof) => return Ok(ld.library),
                Ok(XmlEvent::Start(e)) => {
                    match open_event(&mut ld, &e, &src, library_prefix) {
                        Ok(()) => {},
                        Err(err) => return Err(err),
                    }
                },
                Ok(XmlEvent::Empty(e)) => {
                    match open_event(&mut ld, &e, &src, library_prefix) {
                        Ok(()) => {},
                        Err(err) => return Err(err),
                    }
                },
                Ok(XmlEvent::End(name)) => {
                    proof {
                        lemma_close_keeps_ok(ld.state(), name@);
                    }
                    ld.close_tag(name.as_str());
                },
                Ok(XmlEvent::Text(_)) => {},
                Ok(XmlEvent::Other) => {},
            }
        }
        let mut m = String::new();
        push_str(&mut m, "stencil parse: no end of document");
        Err(RenderError::Xml(m))
    }
}

} // verus!
