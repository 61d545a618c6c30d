//! drawio style strings are a semicolon-separated DSL such as
//! `sketch=0;shape=mxgraph.aws4.resourceIcon;fillColor=#ED7100;`.
//!
//! [`StyleMap::parse`] reads one into a key/value map; a later occurrence
//! of a key replaces an earlier one, and a bare entry such as `ellipse`
//! maps to the empty string.

use vstd::prelude::*;
use crate::decimal::{Decimal, SCALE, parse_dec};
use crate::overflow::{f32_overflow, overflows_f32};
use crate::text::{chars_of, find_char, first_index, is_ws, lemma_first_index_unique, lemma_trim_end_take, lemma_trim_start_skip, split_char, string_of_range, str_eq, trim, trim_bounds};

verus! {

/// The entry one `;`-separated piece contributes, if any.
pub open spec fn style_entry(part: Seq<char>) -> Option<(Seq<char>, Seq<char>)> {
    let t = trim(part);
    if t.len() == 0 {
        None
    } else {
        match first_index(t, '=') {
            Some(i) => Some((trim(t.take(i)), trim(t.skip(i + 1)))),
            None => Some((t, Seq::<char>::empty())),
        }
    }
}

/// The entries of the given pieces, in order.
pub open spec fn entries_of_parts(parts: Seq<Seq<char>>) -> Seq<(Seq<char>, Seq<char>)>
    decreases parts.len(),
{
    if parts.len() == 0 {
        Seq::empty()
    } else {
        let prev = entries_of_parts(parts.drop_last());
        match style_entry(parts.last()) {
            Some(e) => prev.push(e),
            None => prev,
        }
    }
}

/// The entries of a style string, in order of appearance.
pub open spec fn style_entries(s: Seq<char>) -> Seq<(Seq<char>, Seq<char>)> {
    entries_of_parts(split_char(s, ';'))
}

/// Key/value map of an entry list; later entries win.
pub open spec fn entries_map(es: Seq<(Seq<char>, Seq<char>)>) -> Map<Seq<char>, Seq<char>>
    decreases es.len(),
{
    if es.len() == 0 {
        Map::empty()
    } else {
        entries_map(es.drop_last()).insert(es.last().0, es.last().1)
    }
}

/// The map a style string denotes.
pub open spec fn style_map(s: Seq<char>) -> Map<Seq<char>, Seq<char>> {
    entries_map(style_entries(s))
}

/// Value of `key` in `m`, as an option.
pub open spec fn map_get(m: Map<Seq<char>, Seq<char>>, key: Seq<char>) -> Option<Seq<char>> {
    if m.contains_key(key) {
        Some(m[key])
    } else {
        None
    }
}

proof fn lemma_entries_map_skip_tail(es: Seq<(Seq<char>, Seq<char>)>, i: int, k: Seq<char>)
    requires
        0 <= i <= es.len(),
        forall|j: int| i <= j < es.len() ==> es[j].0 != k,
    ensures
        map_get(entries_map(es), k) == map_get(entries_map(es.take(i)), k),
    decreases es.len() - i,
{
    if i < es.len() {
        let t = es.drop_last();
        lemma_entries_map_skip_tail(t, i, k);
        assert(t.take(i) =~= es.take(i));
    } else {
        assert(es.take(i) =~= es);
    }
}

/// A parsed style string.
#[derive(Debug, Clone)]
pub struct StyleMap {
    entries: Vec<(String, String)>,
}

pub open spec fn entry_view(e: (String, String)) -> (Seq<char>, Seq<char>) {
    (e.0@, e.1@)
}

impl StyleMap {
    /// The entries, in order of appearance.
    pub closed spec fn entries(&self) -> Seq<(Seq<char>, Seq<char>)> {
        self.entries@.map_values(|e: (String, String)| entry_view(e))
    }
}

impl View for StyleMap {
    type V = Map<Seq<char>, Seq<char>>;

    open spec fn view(&self) -> Map<Seq<char>, Seq<char>> {
        entries_map(self.entries())
    }
}

proof fn lemma_split_step(s: Seq<char>, i: int, sep: char)
    requires
        0 <= i < s.len(),
    ensures
        split_char(s.take(i + 1), sep) == (if s[i] == sep {
            split_char(s.take(i), sep).push(Seq::<char>::empty())
        } else {
            let p = split_char(s.take(i), sep);
            p.update(p.len() - 1, p.last().push(s[i]))
        }),
{
    assert(s.take(i + 1).drop_last() =~= s.take(i));
}

impl StyleMap {
    /// The empty map.
    pub fn new() -> (r: StyleMap)
        ensures
            r.entries() == Seq::<(Seq<char>, Seq<char>)>::empty(),
            r@ == Map::<Seq<char>, Seq<char>>::empty(),
    {
        let r = StyleMap { entries: Vec::new() };
        assert(r.entries() =~= Seq::<(Seq<char>, Seq<char>)>::empty());
        r
    }

    /// Add the entry of the piece `v[a..b]`, if it has one.
    fn add_piece(&mut self, v: &[char], a: usize, b: usize)
        requires
            a <= b <= v@.len(),
        ensures
            final(self).entries() == match style_entry(v@.subrange(a as int, b as int)) {
                Some(e) => old(self).entries().push(e),
                None => old(self).entries(),
            },
    {
        let ghost p = v@.subrange(a as int, b as int);
        let (ta, tb) = trim_bounds(v, a, b);
        let ghost t = v@.subrange(ta as int, tb as int);
        if ta == tb {
            return;
        }
        match find_char(v, ta, tb, '=') {
            Some(e) => {
                let (ka, kb) = trim_bounds(v, ta, e);
                let (va, vb) = trim_bounds(v, e + 1, tb);
                let k = string_of_range(v, ka, kb);
                let val = string_of_range(v, va, vb);
                proof {
                    assert(t.take(e - ta) =~= v@.subrange(ta as int, e as int));
                    assert(t.skip(e - ta + 1) =~= v@.subrange(e + 1, tb as int));
                }
                self.entries.push((k, val));
            },
            None => {
                let k = string_of_range(v, ta, tb);
                self.entries.push((k, String::new()));
            },
        }
        assert(self.entries() =~= old(self).entries().push(entry_view(self.entries@.last())));
    }

    /// Parse a style string.
    pub fn parse(s: &str) -> (r: StyleMap)
        ensures
            r.entries() == style_entries(s@),
            r@ == style_map(s@),
    {
        let v = chars_of(s);
        let mut m = StyleMap::new();
        let mut start: usize = 0;
        let mut i: usize = 0;
        proof {
            assert(v@.take(0) =~= Seq::<char>::empty());
            assert(split_char(v@.take(0), ';').drop_last() =~= Seq::<Seq<char>>::empty());
            assert(v@.subrange(0, 0) =~= Seq::<char>::empty());
        }
        while i < v.len()
            invariant
                v@ == s@,
                0 <= start <= i <= v@.len(),
                split_char(v@.take(i as int), ';').len() >= 1,
                split_char(v@.take(i as int), ';').last() == v@.subrange(start as int, i as int),
                m.entries() == entries_of_parts(split_char(v@.take(i as int), ';').drop_last()),
            decreases v@.len() - i,
        {
            let ghost prev = split_char(v@.take(i as int), ';');
            proof {
                lemma_split_step(v@, i as int, ';');
            }
            if v[i] == ';' {
                m.add_piece(&v, start, i);
                start = i + 1;
                proof {
                    let cur = split_char(v@.take(i + 1), ';');
                    assert(cur.drop_last() =~= prev);
                    assert(prev =~= prev.drop_last().push(prev.last()));
                    assert(v@.subrange(start as int, i + 1) =~= Seq::<char>::empty());
                }
            } else {
                proof {
                    let cur = split_char(v@.take(i + 1), ';');
                    assert(cur.drop_last() =~= prev.drop_last());
                    assert(v@.subrange(start as int, i + 1) =~= v@.subrange(start as int, i as int).push(v@[i as int]));
                }
            }
            i = i + 1;
        }
        let ghost parts = split_char(v@.take(i as int), ';');
        m.add_piece(&v, start, i);
        proof {
            assert(v@.take(i as int) =~= v@);
            assert(parts =~= parts.drop_last().push(parts.last()));
        }
        m
    }

    /// Value stored under `key`.
    pub fn get(&self, key: &str) -> (r: Option<&str>)
        ensures
            match r {
                Some(x) => self@.contains_key(key@) && x@ == self@[key@],
                None => !self@.contains_key(key@),
            },
    {
        let ghost es = self.entries();
        let mut i = self.entries.len();
        while i > 0
            invariant
                i <= self.entries@.len(),
                es == self.entries(),
                es.len() == self.entries@.len(),
                forall|j: int| i <= j < es.len() ==> es[j].0 != key@,
            decreases i,
        {
            if str_eq(self.entries[i - 1].0.as_str(), key) {
                proof {
                    lemma_entries_map_skip_tail(es, i as int, key@);
                    assert(es.take(i as int).drop_last() =~= es.take(i - 1));
                    assert(es[i - 1] == entry_view(self.entries@[i - 1]));
                }
                return Some(self.entries[i - 1].1.as_str());
            }
            proof {
                assert(es[i - 1] == entry_view(self.entries@[i - 1]));
            }
            i = i - 1;
        }
        proof {
            lemma_entries_map_skip_tail(es, 0, key@);
            assert(es.take(0) =~= Seq::<(Seq<char>, Seq<char>)>::empty());
        }
        None
    }

    /// Value stored under `key`, or `default` when absent.
    pub fn get_or<'a>(&'a self, key: &str, default: &'a str) -> (r: &'a str)
        ensures
            r@ == (if self@.contains_key(key@) {
                self@[key@]
            } else {
                default@
            }),
    {
        match self.get(key) {
            Some(x) => x,
            None => default,
        }
    }
}

/// A normalised `[0, 1]` attachment coordinate read from text: the value
/// clamped to the unit interval, or `None` when absent, unreadable, or
/// too large in magnitude for a single-precision float (see
/// [`f32_overflow`]).
pub open spec fn unit_value(s: Option<Seq<char>>) -> Option<int> {
    match s {
        None => None,
        Some(t) => if f32_overflow(t) {
            None
        } else {
            match parse_dec(t) {
                None => None,
                Some(v) => Some(if v < 0 {
                    0
                } else if v > SCALE {
                    SCALE as int
                } else {
                    v
                }),
            }
        },
    }
}

/// Both members of a pair, when both are present.
pub open spec fn pair_of(x: Option<int>, y: Option<int>) -> Option<(int, int)> {
    match (x, y) {
        (Some(a), Some(b)) => Some((a, b)),
        _ => None,
    }
}

/// Per-edge connection-point overrides.
///
/// drawio lets an edge fix its source/target attachment point on the
/// cell's bounding box via `exitX/exitY` (source side) and `entryX/entryY`
/// (target side). A side counts as set only when both members of its pair
/// are present and readable; each value is clamped to `[0, 1]`.
#[derive(Debug, Clone, Copy, PartialEq, Eq)]
pub struct EdgeEndpoints {
    pub exit: Option<(Decimal, Decimal)>,
    pub entry: Option<(Decimal, Decimal)>,
}

pub open spec fn pair_view(p: Option<(Decimal, Decimal)>) -> Option<(int, int)> {
    match p {
        Some((x, y)) => Some((x@, y@)),
        None => None,
    }
}

/// Read one normalised coordinate.
fn parse_unit(s: Option<&str>) -> (r: Option<Decimal>)
    ensures
        match r {
            Some(d) => unit_value(
                match s {
                    Some(t) => Some(t@),
                    None => None,
                },
            ) == Some(d@),
            None => unit_value(
                match s {
                    Some(t) => Some(t@),
                    None => None,
                },
            ) == None::<int>,
        },
{
    let t = match s {
        Some(t) => t,
        None => return None,
    };
    let v = chars_of(t);
    assert(v@.subrange(0, v@.len() as int) =~= v@);
    if overflows_f32(&v, 0, v.len()) {
        return None;
    }
    match Decimal::parse_range(&v, 0, v.len()) {
        None => None,
        Some(d) => {
            let zero = Decimal::zero();
            let one = Decimal::from_int(1);
            if d.lt(&zero) {
                Some(zero)
            } else if one.lt(&d) {
                Some(one)
            } else {
                Some(d)
            }
        },
    }
}

/// The overrides `style` declares for one edge.
pub open spec fn endpoints_of(m: Map<Seq<char>, Seq<char>>) -> (Option<(int, int)>, Option<(int, int)>) {
    (
        pair_of(
            unit_value(map_get(m, "exitX"@)),
            unit_value(map_get(m, "exitY"@)),
        ),
        pair_of(
            unit_value(map_get(m, "entryX"@)),
            unit_value(map_get(m, "entryY"@)),
        ),
    )
}

fn pair(x: Option<Decimal>, y: Option<Decimal>) -> (r: Option<(Decimal, Decimal)>)
    ensures
        pair_view(r) == pair_of(
            match x {
                Some(a) => Some(a@),
                None => None,
            },
            match y {
                Some(b) => Some(b@),
                None => None,
            },
        ),
{
    match (x, y) {
        (Some(a), Some(b)) => Some((a, b)),
        _ => None,
    }
}

impl EdgeEndpoints {
    /// Read the four optional style keys from `style` and pair them up.
    pub fn from_style(style: &StyleMap) -> (r: EdgeEndpoints)
        ensures
            (pair_view(r.exit), pair_view(r.entry)) == endpoints_of(style@),
    {
        let ex = style.get("exitX");
        let ey = style.get("exitY");
        let nx = style.get("entryX");
        let ny = style.get("entryY");
        let exit_x = parse_unit(ex);
        let exit_y = parse_unit(ey);
        let entry_x = parse_unit(nx);
        let entry_y = parse_unit(ny);
        let r = EdgeEndpoints { exit: pair(exit_x, exit_y), entry: pair(entry_x, entry_y) };
        proof {
            assert(map_get(style@, "exitX"@) == match ex { Some(t) => Some(t@), None => None::<Seq<char>> });
            assert(map_get(style@, "exitY"@) == match ey { Some(t) => Some(t@), None => None::<Seq<char>> });
            assert(map_get(style@, "entryX"@) == match nx { Some(t) => Some(t@), None => None::<Seq<char>> });
            assert(map_get(style@, "entryY"@) == match ny { Some(t) => Some(t@), None => None::<Seq<char>> });
        }
        r
    }
}

/// A pinned attachment read from a style always lies on the cell's box:
/// both coordinates of an `exitX/exitY` or `entryX/entryY` pair are within
/// `[0, 1]`.
pub proof fn law_pinned_attachments_are_in_unit_range(m: Map<Seq<char>, Seq<char>>)
    ensures
        endpoints_of(m).0 matches Some(p) ==> 0 <= p.0 <= SCALE && 0 <= p.1 <= SCALE,
        endpoints_of(m).1 matches Some(p) ==> 0 <= p.0 <= SCALE && 0 <= p.1 <= SCALE,
{
}

proof fn lemma_split_without_sep(p: Seq<char>, sep: char)
    requires
        forall|i: int| 0 <= i < p.len() ==> p[i] != sep,
    ensures
        split_char(p, sep) == seq![p],
    decreases p.len(),
{
    if p.len() > 0 {
        lemma_split_without_sep(p.drop_last(), sep);
        assert(p.drop_last().push(p.last()) =~= p);
        assert(seq![p.drop_last()].update(0, p.drop_last().push(p.last())) =~= seq![p]);
    } else {
        assert(p =~= Seq::<char>::empty());
    }
}

/// A trimmed text (non-blank at both ends, or empty) trims to itself.
proof fn lemma_trim_trimmed(t: Seq<char>)
    requires
        t.len() == 0 || (!is_ws(t[0]) && !is_ws(t.last())),
    ensures
        trim(t) == t,
{
    lemma_trim_start_skip(t, 0);
    assert(t.subrange(0, t.len() as int) =~= t);
    lemma_trim_end_take(t, t.len() as int);
}

/// A style made of one `key=value;` segment, with a key that is not blank,
/// holds no `=` or `;` and has no surrounding whitespace, and a value that
/// holds no `;` and has no surrounding whitespace, maps exactly that key
/// to that value.
pub proof fn law_single_segment(k: Seq<char>, v: Seq<char>)
    requires
        k.len() > 0,
        !is_ws(k[0]) && !is_ws(k.last()),
        forall|i: int| 0 <= i < k.len() ==> k[i] != '=' && k[i] != ';',
        v.len() == 0 || (!is_ws(v[0]) && !is_ws(v.last())),
        forall|i: int| 0 <= i < v.len() ==> v[i] != ';',
    ensures
        style_map(k + "="@ + v + ";"@) == map![k => v],
{
    reveal_strlit("=");
    reveal_strlit(";");
    let p = k + "="@ + v;
    assert(k + "="@ + v + ";"@ =~= p.push(';'));
    assert forall|i: int| 0 <= i < p.len() implies p[i] != ';' by {
        if i < k.len() {
        } else if i == k.len() {
        } else {
            assert(p[i] == v[i - k.len() - 1]);
        }
    }
    lemma_split_without_sep(p, ';');
    assert(p.push(';').last() == ';');
    assert(p.push(';').drop_last() =~= p);
    let parts = split_char(p.push(';'), ';');
    assert(parts =~= seq![p, Seq::<char>::empty()]);
    assert(p.len() > 0 && !is_ws(p[0]));
    assert(!is_ws(p.last())) by {
        if v.len() == 0 {
            assert(p.last() == '=');
        } else {
            assert(p.last() == v.last());
        }
    }
    lemma_trim_trimmed(p);
    lemma_first_index_unique(p, '=', k.len() as int);
    assert(p.take(k.len() as int) =~= k);
    assert(p.skip(k.len() as int + 1) =~= v);
    lemma_trim_trimmed(k);
    lemma_trim_trimmed(v);
    lemma_trim_trimmed(Seq::<char>::empty());
    assert(style_entry(p) == Some((k, v)));
    assert(style_entry(Seq::<char>::empty()) == None::<(Seq<char>, Seq<char>)>);
    assert(parts.drop_last() =~= seq![p]);
    assert(parts.last() == Seq::<char>::empty());
    assert(seq![p].drop_last() =~= Seq::<Seq<char>>::empty());
    assert(seq![p].last() == p);
    assert(entries_of_parts(Seq::<Seq<char>>::empty()) == Seq::<(Seq<char>, Seq<char>)>::empty());
    assert(entries_of_parts(seq![p]) =~= seq![(k, v)]);
    assert(entries_of_parts(parts) =~= seq![(k, v)]);
    assert(seq![(k, v)].drop_last() =~= Seq::<(Seq<char>, Seq<char>)>::empty());
    assert(seq![(k, v)].last() == (k, v));
    assert(entries_map(Seq::<(Seq<char>, Seq<char>)>::empty()) == Map::<Seq<char>, Seq<char>>::empty());
    assert(entries_map(seq![(k, v)]) =~= map![k => v]);
}

// ---------------------------------------------------------------------
// Connection points
// ---------------------------------------------------------------------

/// The list inside `[...]` of a `points=` value, trimmed; `None` when the
/// trimmed value is not bracketed.
pub open spec fn points_inner(value: Seq<char>) -> Option<Seq<char>> {
    let t = trim(value);
    if t.len() >= 2 && t[0] == '[' && t.last() == ']' {
        Some(trim(t.subrange(1, t.len() - 1)))
    } else {
        None
    }
}

/// The `(x, y)` of one `[x,y]` or `[x,y,perimeter]` entry: the first two
/// comma-separated fields, trimmed, both numbers.
pub open spec fn point_of(body: Seq<char>) -> Option<(int, int)> {
    match first_index(body, ',') {
        None => None,
        Some(i) => {
            let rest = body.skip(i + 1);
            let second = match first_index(rest, ',') {
                Some(j) => rest.take(j),
                None => rest,
            };
            match (parse_dec(trim(body.take(i))), parse_dec(trim(second))) {
                (Some(x), Some(y)) => Some((x, y)),
                _ => None,
            }
        },
    }
}

/// Scanning state after `n` characters of the list: bracket depth, where
/// the open top-level entry starts, and the points read so far.
pub struct PointScan {
    pub depth: int,
    pub start: Option<int>,
    pub points: Seq<(int, int)>,
}

pub open spec fn point_scan(inner: Seq<char>, n: int) -> PointScan
    decreases n,
{
    if n <= 0 {
        PointScan { depth: 0, start: None, points: Seq::empty() }
    } else {
        let p = point_scan(inner, n - 1);
        let c = inner[n - 1];
        if c == '[' {
            PointScan {
                depth: p.depth + 1,
                start: if p.depth == 0 {
                    Some(n)
                } else {
                    p.start
                },
                ..p
            }
        } else if c == ']' {
            if p.depth - 1 == 0 {
                match p.start {
                    Some(st) => PointScan {
                        depth: 0,
                        start: None,
                        points: match point_of(inner.subrange(st, n - 1)) {
                            Some(pt) => p.points.push(pt),
                            None => p.points,
                        },
                    },
                    None => PointScan { depth: 0, ..p },
                }
            } else {
                PointScan { depth: p.depth - 1, ..p }
            }
        } else {
            p
        }
    }
}

/// The points of a `points=[[x,y,perim],...]` value; empty when the value
/// is not a bracketed list. Entries whose first two fields are not both
/// numbers are left out.
pub open spec fn points_of(value: Seq<char>) -> Seq<(int, int)> {
    match points_inner(value) {
        Some(inner) => point_scan(inner, inner.len() as int).points,
        None => Seq::empty(),
    }
}

fn parse_one_point(v: &[char], a: usize, b: usize) -> (r: Option<(Decimal, Decimal)>)
    requires
        a <= b <= v@.len(),
    ensures
        match r {
            Some(p) => point_of(v@.subrange(a as int, b as int)) == Some((p.0@, p.1@)),
            None => point_of(v@.subrange(a as int, b as int)) == None::<(int, int)>,
        },
{
    let ghost body = v@.subrange(a as int, b as int);
    let i = match find_char(v, a, b, ',') {
        Some(i) => i,
        None => return None,
    };
    let ghost rest = body.skip(i - a + 1);
    assert(rest =~= v@.subrange(i + 1, b as int));
    let end = match find_char(v, i + 1, b, ',') {
        Some(j) => j,
        None => b,
    };
    proof {
        assert(body.take(i - a) =~= v@.subrange(a as int, i as int));
        if end < b {
            assert(rest.take(end - i - 1) =~= v@.subrange(i + 1, end as int));
        } else {
            assert(rest =~= v@.subrange(i + 1, end as int));
        }
    }
    let (xa, xb) = trim_bounds(v, a, i);
    let (ya, yb) = trim_bounds(v, i + 1, end);
    match (Decimal::parse_range(v, xa, xb), Decimal::parse_range(v, ya, yb)) {
        (Some(x), Some(y)) => Some((x, y)),
        _ => None,
    }
}

/// Parse a drawio `points=[[x,y,perim],...]` value into its `(x, y)`
/// constraint points. Tolerates whitespace and the shorter `[x,y]` form;
/// malformed input gives an empty list.
pub fn parse_points(value: &str) -> (r: Vec<(Decimal, Decimal)>)
    ensures
        r@.map_values(|p: (Decimal, Decimal)| (p.0@, p.1@)) == points_of(value@),
{
    let all = chars_of(value);
    let (ta, tb) = trim_bounds(&all, 0, all.len());
    assert(all@.subrange(0, all@.len() as int) =~= value@);
    let ghost t = trim(value@);
    if tb - ta < 2 || all[ta] != '[' || all[tb - 1] != ']' {
        let r: Vec<(Decimal, Decimal)> = Vec::new();
        assert(r@.map_values(|p: (Decimal, Decimal)| (p.0@, p.1@)) =~= points_of(value@));
        return r;
    }
    let (ia, ib) = trim_bounds(&all, ta + 1, tb - 1);
    assert(t.subrange(1, t.len() - 1) =~= all@.subrange(ta + 1, tb - 1));
    let ghost inner = all@.subrange(ia as int, ib as int);
    let mut out: Vec<(Decimal, Decimal)> = Vec::new();
    let mut depth: i128 = 0;
    let mut start: Option<usize> = None;
    let mut k: usize = ia;
    while k < ib
        invariant
            ia <= k <= ib <= all@.len(),
            inner == all@.subrange(ia as int, ib as int),
            points_inner(value@) == Some(inner),
            -(k as int) <= depth <= k as int,
            depth == point_scan(inner, k - ia).depth,
            match start {
                Some(st) => ia <= st <= k && point_scan(inner, k - ia).start == Some(st - ia),
                None => point_scan(inner, k - ia).start == None::<int>,
            },
            out@.map_values(|p: (Decimal, Decimal)| (p.0@, p.1@)) == point_scan(inner, k - ia).points,
        decreases ib - k,
    {
        let ghost before = out@.map_values(|p: (Decimal, Decimal)| (p.0@, p.1@));
        let c = all[k];
        assert(inner[k - ia] == c);
        if c == '[' {
            if depth == 0 {
                start = Some(k + 1);
            }
            depth = depth + 1;
        } else if c == ']' {
            depth = depth - 1;
            if depth == 0 {
                if let Some(st) = start {
                    assert(inner.subrange(st - ia, k - ia) =~= all@.subrange(st as int, k as int));
                    if let Some(pt) = parse_one_point(&all, st, k) {
                        out.push(pt);
                        assert(out@.map_values(|p: (Decimal, Decimal)| (p.0@, p.1@)) =~= before.push(
                            (pt.0@, pt.1@),
                        ));
                    }
                }
                start = None;
            }
        }
        k = k + 1;
    }
    out
}

} // verus!
