//! Building a diagram from the declarative authoring schema: a named
//! document of groups, nodes and edges (see the schema's field tables).
//! Reading the JSON text into a [`Document`] is left to the caller; this
//! module validates the document and drives the author library.

use vstd::prelude::*;
use crate::author::{DEFAULT_AWS_TILE, Diagram, Node, NodeRef, NodeV, EdgeV, diagram_xml, pin_view};
use crate::decimal::{Decimal, dmax, dmin, nat_digits, units};
use crate::kinds::{factory_node, kind_node, node_kinds, node_kinds_spec};
use crate::text::{chars_of, push_char, push_str, str_eq};

verus! {

// ------------------------------------------------------------------
// Edit distance and suggestions.

pub open spec fn min3(a: nat, b: nat, c: nat) -> nat {
    let m = if a <= b {
        a
    } else {
        b
    };
    if m <= c {
        m
    } else {
        c
    }
}

/// The Levenshtein distance between `a` and `b`: the fewest single
/// character insertions, deletions and substitutions turning one into the
/// other.
pub open spec fn lev(a: Seq<char>, b: Seq<char>) -> nat
    decreases a.len() + b.len(),
{
    if a.len() == 0 {
        b.len()
    } else if b.len() == 0 {
        a.len()
    } else {
        let cost: nat = if a.last() == b.last() {
            0
        } else {
            1
        };
        min3(lev(a.drop_last(), b) + 1, lev(a, b.drop_last()) + 1, lev(a.drop_last(), b.drop_last()) + cost)
    }
}

proof fn lemma_lev_bound(a: Seq<char>, b: Seq<char>)
    ensures
        lev(a, b) <= (if a.len() <= b.len() {
            b.len()
        } else {
            a.len()
        }),
    decreases a.len() + b.len(),
{
    if a.len() > 0 && b.len() > 0 {
        lemma_lev_bound(a.drop_last(), b.drop_last());
    }
}

/// The Levenshtein distance between two strings (two-row dynamic
/// programming).
pub fn levenshtein(a: &str, b: &str) -> (r: usize)
    ensures
        r == lev(a@, b@),
{
    let x = chars_of(a);
    let y = chars_of(b);
    if x.len() == 0 {
        return y.len();
    }
    if y.len() == 0 {
        return x.len();
    }
    let n = y.len();
    let mut prev: Vec<u128> = Vec::new();
    prev.push(0);
    let mut j: usize = 0;
    assert(y@.take(0) =~= Seq::<char>::empty());
    while j < n
        invariant
            n == y@.len(),
            j <= n,
            prev@.len() == j + 1,
            forall|k: int| 0 <= k <= j ==> prev@[k] == k,
        decreases n - j,
    {
        prev.push((j + 1) as u128);
        j = j + 1;
    }
    assert forall|k: int| 0 <= k <= n implies prev@[k] == lev(x@.take(0), #[trigger] y@.take(k)) by {
        assert(x@.take(0) =~= Seq::<char>::empty());
    }
    let mut curr: Vec<u128> = prev.clone();
    let mut i: usize = 0;
    while i < x.len()
        invariant
            n == y@.len(),
            n > 0,
            i <= x@.len(),
            prev@.len() == n + 1,
            curr@.len() == n + 1,
            forall|k: int| 0 <= k <= n ==> prev@[k] == lev(x@.take(i as int), #[trigger] y@.take(k)),
        decreases x@.len() - i,
    {
        let ghost xa = x@.take(i + 1);
        assert(xa.drop_last() =~= x@.take(i as int));
        assert(xa.last() == x@[i as int]);
        assert(y@.take(0) =~= Seq::<char>::empty());
        curr.set(0, (i + 1) as u128);
        let mut k: usize = 0;
        while k < n
            invariant
                n == y@.len(),
                i < x@.len(),
                xa == x@.take(i + 1),
                xa.drop_last() == x@.take(i as int),
                xa.last() == x@[i as int],
                k <= n,
                prev@.len() == n + 1,
                curr@.len() == n + 1,
                forall|m: int| 0 <= m <= n ==> prev@[m] == lev(x@.take(i as int), #[trigger] y@.take(m)),
                forall|m: int| 0 <= m <= k ==> curr@[m] == lev(xa, #[trigger] y@.take(m)),
            decreases n - k,
        {
            let ghost yb = y@.take(k + 1);
            assert(yb.drop_last() =~= y@.take(k as int));
            assert(yb.last() == y@[k as int]);
            proof {
                lemma_lev_bound(xa, y@.take(k as int));
                lemma_lev_bound(x@.take(i as int), yb);
                lemma_lev_bound(x@.take(i as int), y@.take(k as int));
            }
            let cost: u128 = if x[i] == y[k] {
                0
            } else {
                1
            };
            let ins = curr[k] + 1;
            let del = prev[k + 1] + 1;
            let sub = prev[k] + cost;
            let m1 = if ins <= del {
                ins
            } else {
                del
            };
            let v = if m1 <= sub {
                m1
            } else {
                sub
            };
            curr.set(k + 1, v);
            assert(curr@[k + 1] == lev(xa, yb));
            k = k + 1;
        }
        std::mem::swap(&mut prev, &mut curr);
        i = i + 1;
    }
    assert(x@.take(x@.len() as int) =~= x@);
    assert(y@.take(n as int) =~= y@);
    proof {
        lemma_lev_bound(x@, y@);
    }
    prev[n] as usize
}

/// The entries of `known` at distance `d` from `input`, in order.
pub open spec fn at_distance(input: Seq<char>, known: Seq<Seq<char>>, d: nat) -> Seq<Seq<char>>
    decreases known.len(),
{
    if known.len() == 0 {
        Seq::empty()
    } else {
        let rest = at_distance(input, known.drop_last(), d);
        if lev(input, known.last()) == d {
            rest.push(known.last())
        } else {
            rest
        }
    }
}

/// The closest entries of `known`: those within distance 3 of `input`,
/// nearest first (ties in `known`'s order), at most three.
pub open spec fn suggestions(input: Seq<char>, known: Seq<Seq<char>>) -> Seq<Seq<char>> {
    let all = at_distance(input, known, 0) + at_distance(input, known, 1) + at_distance(input, known, 2)
        + at_distance(input, known, 3);
    if all.len() <= 3 {
        all
    } else {
        all.take(3)
    }
}

pub open spec fn strs_view(v: Seq<&'static str>) -> Seq<Seq<char>> {
    v.map_values(|s: &'static str| s@)
}

/// Up to three entries of `known` closest to `input` by edit distance, no
/// further than 3 away, nearest first.
pub fn suggest(input: &str, known: &Vec<&'static str>) -> (r: Vec<&'static str>)
    ensures
        strs_view(r@) == suggestions(input@, strs_view(known@)),
{
    let ghost kv = strs_view(known@);
    let mut dist: Vec<usize> = Vec::new();
    let mut i: usize = 0;
    while i < known.len()
        invariant
            i <= known@.len(),
            kv == strs_view(known@),
            dist@.len() == i,
            forall|k: int| 0 <= k < i ==> dist@[k] == lev(input@, #[trigger] kv[k]),
        decreases known@.len() - i,
    {
        dist.push(levenshtein(input, known[i]));
        i = i + 1;
    }
    let mut all: Vec<&'static str> = Vec::new();
    let mut d: usize = 0;
    let ghost mut done: Seq<Seq<char>> = Seq::empty();
    while d < 4
        invariant
            d <= 4,
            kv == strs_view(known@),
            dist@.len() == known@.len(),
            forall|k: int| 0 <= k < known@.len() ==> dist@[k] == lev(input@, #[trigger] kv[k]),
            strs_view(all@) == done,
            d == 0 ==> done == Seq::<Seq<char>>::empty(),
            d == 1 ==> done == at_distance(input@, kv, 0),
            d == 2 ==> done == at_distance(input@, kv, 0) + at_distance(input@, kv, 1),
            d == 3 ==> done == at_distance(input@, kv, 0) + at_distance(input@, kv, 1) + at_distance(input@, kv, 2),
            d == 4 ==> done == at_distance(input@, kv, 0) + at_distance(input@, kv, 1) + at_distance(input@, kv, 2)
                + at_distance(input@, kv, 3),
        decreases 4 - d,
    {
        let ghost before = done;
        let mut k: usize = 0;
        assert(kv.take(0) =~= Seq::<Seq<char>>::empty());
        while k < known.len()
            invariant
                d < 4,
                k <= known@.len(),
                kv == strs_view(known@),
                dist@.len() == known@.len(),
                forall|m: int| 0 <= m < known@.len() ==> dist@[m] == lev(input@, #[trigger] kv[m]),
                strs_view(all@) == before + at_distance(input@, kv.take(k as int), d as nat),
            decreases known@.len() - k,
        {
            let ghost t = kv.take(k + 1);
            assert(t.drop_last() =~= kv.take(k as int));
            assert(t.last() == kv[k as int]);
            let ghost prev_all = strs_view(all@);
            if dist[k] == d {
                all.push(known[k]);
                assert(strs_view(all@) =~= prev_all.push(kv[k as int]));
                assert(at_distance(input@, t, d as nat) == at_distance(input@, kv.take(k as int), d as nat).push(
                    kv[k as int],
                ));
                assert(strs_view(all@) =~= before + at_distance(input@, t, d as nat));
            } else {
                assert(at_distance(input@, t, d as nat) == at_distance(input@, kv.take(k as int), d as nat));
            }
            k = k + 1;
        }
        assert(kv.take(known@.len() as int) =~= kv);
        proof {
            done = before + at_distance(input@, kv, d as nat);
        }
        d = d + 1;
    }
    let mut r: Vec<&'static str> = Vec::new();
    let mut m: usize = 0;
    while m < all.len() && m < 3
        invariant
            m <= all@.len(),
            m <= 3,
            strs_view(r@) == strs_view(all@).take(m as int),
        decreases all@.len() - m,
    {
        let ghost prev_r = strs_view(r@);
        r.push(all[m]);
        assert(strs_view(r@) =~= prev_r.push(strs_view(all@)[m as int]));
        assert(strs_view(all@).take(m + 1) =~= strs_view(all@).take(m as int).push(strs_view(all@)[m as int]));
        m = m + 1;
    }
    assert(strs_view(all@).len() == all@.len());
    if all.len() <= 3 {
        assert(strs_view(all@).take(all@.len() as int) =~= strs_view(all@));
    }
    r
}

/// A string is at distance zero from itself, and only from itself.
pub proof fn law_distance_zero_iff_equal(a: Seq<char>, b: Seq<char>)
    ensures
        lev(a, b) == 0 <==> a == b,
    decreases a.len() + b.len(),
{
    if a.len() > 0 && b.len() > 0 {
        law_distance_zero_iff_equal(a.drop_last(), b.drop_last());
        if a == b {
            assert(a.drop_last() == b.drop_last());
        }
        if lev(a, b) == 0 {
            assert(a.last() == b.last());
            assert(a =~= a.drop_last().push(a.last()));
            assert(b =~= b.drop_last().push(b.last()));
        }
    } else if a.len() == 0 && b.len() == 0 {
        assert(a =~= b);
    }
}

proof fn lemma_at_distance(input: Seq<char>, known: Seq<Seq<char>>, d: nat)
    ensures
        forall|j: int| 0 <= j < at_distance(input, known, d).len() ==> lev(input, #[trigger] at_distance(input, known, d)[j]) == d
            && known.contains(at_distance(input, known, d)[j]),
        known.contains(input) && lev(input, input) == d ==> at_distance(input, known, d).len() > 0,
    decreases known.len(),
{
    if known.len() > 0 {
        let k = known.drop_last();
        lemma_at_distance(input, k, d);
        let r = at_distance(input, k, d);
        assert forall|j: int| 0 <= j < at_distance(input, known, d).len() implies lev(input, #[trigger] at_distance(input, known, d)[j]) == d
            && known.contains(at_distance(input, known, d)[j]) by {
            if j < r.len() {
                let x = r[j];
                let w = choose|w: int| 0 <= w < k.len() && k[w] == x;
                assert(known[w] == x);
            } else {
                assert(known[known.len() - 1] == known.last());
            }
        }
        if known.contains(input) && lev(input, input) == d {
            let w = choose|w: int| 0 <= w < known.len() && known[w] == input;
            if w < known.len() - 1 {
                assert(k[w] == input);
            }
        }
    }
}

/// Every suggestion is a known entry within distance 3 of the input.
pub proof fn law_suggestions_are_close_known_entries(input: Seq<char>, known: Seq<Seq<char>>)
    ensures
        suggestions(input, known).len() <= 3,
        forall|j: int| 0 <= j < suggestions(input, known).len() ==> lev(input, #[trigger] suggestions(input, known)[j]) <= 3
            && known.contains(suggestions(input, known)[j]),
{
    lemma_at_distance(input, known, 0);
    lemma_at_distance(input, known, 1);
    lemma_at_distance(input, known, 2);
    lemma_at_distance(input, known, 3);
    let b0 = at_distance(input, known, 0);
    let b1 = at_distance(input, known, 1);
    let b2 = at_distance(input, known, 2);
    let b3 = at_distance(input, known, 3);
    let all = b0 + b1 + b2 + b3;
    assert forall|j: int| 0 <= j < all.len() implies lev(input, #[trigger] all[j]) <= 3 && known.contains(all[j]) by {
        if j < b0.len() {
            assert(all[j] == b0[j]);
        } else if j < b0.len() + b1.len() {
            assert(all[j] == b1[j - b0.len()]);
        } else if j < b0.len() + b1.len() + b2.len() {
            assert(all[j] == b2[j - b0.len() - b1.len()]);
        } else {
            assert(all[j] == b3[j - b0.len() - b1.len() - b2.len()]);
        }
    }
}

/// A known entry typed exactly is the first suggestion.
pub proof fn law_exact_match_is_suggested_first(input: Seq<char>, known: Seq<Seq<char>>)
    requires
        known.contains(input),
    ensures
        suggestions(input, known).len() > 0,
        suggestions(input, known)[0] == input,
{
    law_distance_zero_iff_equal(input, input);
    lemma_at_distance(input, known, 0);
    let b0 = at_distance(input, known, 0);
    let all = b0 + at_distance(input, known, 1) + at_distance(input, known, 2) + at_distance(input, known, 3);
    assert(all[0] == b0[0]);
    assert(lev(input, b0[0]) == 0);
    law_distance_zero_iff_equal(input, b0[0]);
}

// ------------------------------------------------------------------
// The document.

/// A node of the document.
pub struct NodeSpec {
    pub id: String,
    /// `raw`, or `<library>.<key>`.
    pub kind: String,
    pub label: String,
    pub x: Decimal,
    pub y: Decimal,
    /// Defaults to the factory's size (78 for `raw`).
    pub width: Option<Decimal>,
    pub height: Option<Decimal>,
    /// The drawio style of a `raw` node; ignored otherwise.
    pub style: Option<String>,
}

/// A group container of the document.
pub struct GroupSpec {
    pub id: String,
    /// One of `aws.account`, `aws.vpc`, `aws.cloud`, `generic`.
    pub kind: String,
    pub label: String,
    pub x: Decimal,
    pub y: Decimal,
    pub width: Decimal,
    pub height: Decimal,
}

/// An edge of the document, between node ids.
pub struct EdgeSpec {
    pub source: String,
    pub target: String,
    pub exit_x: Option<Decimal>,
    pub exit_y: Option<Decimal>,
    pub entry_x: Option<Decimal>,
    pub entry_y: Option<Decimal>,
}

/// A named diagram with groups, nodes and edges.
pub struct Document {
    pub name: String,
    pub groups: Vec<GroupSpec>,
    pub nodes: Vec<NodeSpec>,
    pub edges: Vec<EdgeSpec>,
}

/// Why a document does not describe a diagram.
#[derive(Debug)]
pub enum AuthorError {
    /// A node kind that is neither `raw` nor a factory, with the closest
    /// known kinds.
    UnknownNodeKind { kind: String, suggestions: Vec<&'static str> },
    /// A group kind that is not known, with the closest known kinds.
    UnknownGroupKind { kind: String, suggestions: Vec<&'static str> },
    /// A `raw` node without a (non-empty) `style`.
    RawNodeMissingStyle { id: String },
    /// An edge naming an id that no node declares.
    EdgeUnknownEndpoint { source: String, target: String, missing: String },
    /// Two nodes or groups share an id.
    DuplicateId(String),
}

pub struct NodeSpecV {
    pub id: Seq<char>,
    pub kind: Seq<char>,
    pub label: Seq<char>,
    pub x: int,
    pub y: int,
    pub width: Option<int>,
    pub height: Option<int>,
    pub style: Option<Seq<char>>,
}

pub enum AuthorErrorV {
    UnknownNodeKind(Seq<char>, Seq<Seq<char>>),
    UnknownGroupKind(Seq<char>, Seq<Seq<char>>),
    RawNodeMissingStyle(Seq<char>),
    EdgeUnknownEndpoint(Seq<char>, Seq<char>, Seq<char>),
    DuplicateId(Seq<char>),
}

pub open spec fn opt_dec(d: Option<Decimal>) -> Option<int> {
    match d {
        Some(v) => Some(v@),
        None => None,
    }
}

impl View for NodeSpec {
    type V = NodeSpecV;

    open spec fn view(&self) -> NodeSpecV {
        NodeSpecV {
            id: self.id@,
            kind: self.kind@,
            label: self.label@,
            x: self.x@,
            y: self.y@,
            width: opt_dec(self.width),
            height: opt_dec(self.height),
            style: match self.style {
                Some(s) => Some(s@),
                None => None,
            },
        }
    }
}

impl View for AuthorError {
    type V = AuthorErrorV;

    open spec fn view(&self) -> AuthorErrorV {
        match self {
            AuthorError::UnknownNodeKind { kind, suggestions } => AuthorErrorV::UnknownNodeKind(
                kind@,
                strs_view(suggestions@),
            ),
            AuthorError::UnknownGroupKind { kind, suggestions } => AuthorErrorV::UnknownGroupKind(
                kind@,
                strs_view(suggestions@),
            ),
            AuthorError::RawNodeMissingStyle { id } => AuthorErrorV::RawNodeMissingStyle(id@),
            AuthorError::EdgeUnknownEndpoint { source, target, missing } => AuthorErrorV::EdgeUnknownEndpoint(
                source@,
                target@,
                missing@,
            ),
            AuthorError::DuplicateId(id) => AuthorErrorV::DuplicateId(id@),
        }
    }
}

/// The group kinds the schema accepts.
pub open spec fn group_kinds_spec() -> Seq<Seq<char>> {
    seq!["aws.account"@, "aws.vpc"@, "aws.cloud"@, "generic"@]
}

/// The group kinds the schema accepts.
pub fn group_kinds() -> (r: Vec<&'static str>)
    ensures
        strs_view(r@) == group_kinds_spec(),
{
    let r = vec!["aws.account", "aws.vpc", "aws.cloud", "generic"];
    assert(strs_view(r@) =~= group_kinds_spec());
    r
}

pub open spec fn or_else(v: Option<int>, d: int) -> int {
    match v {
        Some(x) => x,
        None => d,
    }
}

/// The node a node spec describes, or why it describes none: a `raw` node
/// takes its style verbatim and a 78 by 78 default size; any other kind is
/// a factory's node moved to `(x, y)` and resized where a size is given.
pub open spec fn node_of(n: NodeSpecV) -> Result<NodeV, AuthorErrorV> {
    if n.kind == "raw"@ {
        match n.style {
            Some(st) => if st.len() > 0 {
                Ok(
                    NodeV {
                        id: n.id,
                        label: n.label,
                        x: n.x,
                        y: n.y,
                        w: or_else(n.width, units(78)),
                        h: or_else(n.height, units(78)),
                        style: st,
                    },
                )
            } else {
                Err(AuthorErrorV::RawNodeMissingStyle(n.id))
            },
            None => Err(AuthorErrorV::RawNodeMissingStyle(n.id)),
        }
    } else {
        match kind_node(n.kind, n.id, n.label) {
            Some(b) => Ok(NodeV { x: n.x, y: n.y, w: or_else(n.width, b.w), h: or_else(n.height, b.h), ..b }),
            None => Err(AuthorErrorV::UnknownNodeKind(n.kind, suggestions(n.kind, node_kinds_spec()))),
        }
    }
}

/// The built node's width and height, or none when it is refused.
pub open spec fn built_size(n: NodeSpecV) -> Option<(int, int)> {
    match node_of(n) {
        Ok(v) => Some((v.w, v.h)),
        Err(_) => None,
    }
}

/// A node of a catalogue kind sits where the schema puts it and keeps
/// the factory's id, label and style; its width and height are the
/// schema's when given and the factory's otherwise. Giving only a height
/// (or only a width) changes that one dimension.
pub proof fn law_node_size_overrides(n: NodeSpecV)
    requires
        n.kind != "raw"@,
        kind_node(n.kind, n.id, n.label) is Some,
    ensures
        ({
            let b = kind_node(n.kind, n.id, n.label).unwrap();
            let w = match n.width {
                Some(w) => w,
                None => b.w,
            };
            let h = match n.height {
                Some(h) => h,
                None => b.h,
            };
            &&& node_of(n) matches Ok(v) && v.id == b.id && v.label == b.label && v.style == b.style && v.x == n.x
                && v.y == n.y && v.w == w && v.h == h
            &&& built_size(NodeSpecV { height: None, ..n }) == Some((w, b.h))
            &&& built_size(NodeSpecV { width: None, ..n }) == Some((b.w, h))
        }),
{
}

/// A `raw` node with a style is that style at the schema's place, 78 by 78
/// unless the schema gives a width or height.
pub proof fn law_raw_node_size(n: NodeSpecV)
    requires
        n.kind == "raw"@,
        n.style matches Some(st) && st.len() > 0,
    ensures
        node_of(n) matches Ok(v) && v.style == n.style->0 && v.x == n.x && v.y == n.y && v.w == (match n.width {
            Some(w) => w,
            None => 78_000_000,
        }) && v.h == (match n.height {
            Some(h) => h,
            None => 78_000_000,
        }),
{
}

/// Build the node a node spec describes.
pub fn build_node(n: &NodeSpec) -> (r: Result<Node, AuthorError>)
    ensures
        match r {
            Ok(node) => node_of(n@) == Ok::<NodeV, AuthorErrorV>(node@),
            Err(e) => node_of(n@) == Err::<NodeV, AuthorErrorV>(e@),
        },
{
    if str_eq(n.kind.as_str(), "raw") {
        let style = match &n.style {
            Some(s) => s,
            None => return Err(AuthorError::RawNodeMissingStyle { id: n.id.clone() }),
        };
        if style.as_str().is_empty() {
            return Err(AuthorError::RawNodeMissingStyle { id: n.id.clone() });
        }
        let w = match n.width {
            Some(w) => w,
            None => Decimal::from_int(DEFAULT_AWS_TILE),
        };
        let h = match n.height {
            Some(h) => h,
            None => Decimal::from_int(DEFAULT_AWS_TILE),
        };
        return Ok(Node::raw(n.id.clone(), n.x, n.y, w, h, n.label.clone(), style.clone()));
    }
    match factory_node(n.kind.as_str(), n.id.as_str(), n.label.as_str()) {
        Some(node) => {
            let mut node = node;
            node.x = n.x;
            node.y = n.y;
            if let Some(w) = n.width {
                node.w = w;
            }
            if let Some(h) = n.height {
                node.h = h;
            }
            Ok(node)
        },
        None => {
            let known = node_kinds();
            Err(AuthorError::UnknownNodeKind { kind: n.kind.clone(), suggestions: suggest(n.kind.as_str(), &known) })
        },
    }
}

pub struct GroupSpecV {
    pub id: Seq<char>,
    pub kind: Seq<char>,
    pub label: Seq<char>,
    pub x: int,
    pub y: int,
    pub w: int,
    pub h: int,
}

pub open spec fn groups_view(gs: Seq<GroupSpec>) -> Seq<GroupSpecV> {
    gs.map_values(
        |g: GroupSpec|
            GroupSpecV { id: g.id@, kind: g.kind@, label: g.label@, x: g.x@, y: g.y@, w: g.width@, h: g.height@ },
    )
}

/// The drawio style of a group container of a known kind.
pub open spec fn group_style(kind: Seq<char>) -> Seq<char> {
    if kind == "aws.account"@ {
        "shape=mxgraph.aws4.group;grIcon=mxgraph.aws4.group_account;strokeColor=#CD2264;fontColor=#CD2264;dashed=1;fillColor=none;"@
    } else if kind == "aws.vpc"@ {
        "shape=mxgraph.aws4.group;grIcon=mxgraph.aws4.group_vpc2;strokeColor=#8C4FFF;fontColor=#AAB7B8;dashed=0;fillColor=none;"@
    } else if kind == "aws.cloud"@ {
        "shape=mxgraph.aws4.group;grIcon=mxgraph.aws4.group_aws_cloud_alt;strokeColor=#232F3E;fontColor=#232F3E;dashed=0;fillColor=none;"@
    } else {
        "shape=mxgraph.aws4.group;strokeColor=#5A6C86;fontColor=#5A6C86;dashed=1;fillColor=none;"@
    }
}

/// The container cell a group is drawn as.
pub open spec fn group_node(g: GroupSpecV) -> NodeV {
    NodeV { id: g.id, label: g.label, x: g.x, y: g.y, w: g.w, h: g.h, style: group_style(g.kind) }
}

pub open spec fn nodes_view(ns: Seq<NodeSpec>) -> Seq<NodeSpecV> {
    ns.map_values(|n: NodeSpec| n@)
}

/// A coordinate clamped to `[0, 1]` (in millionths).
pub open spec fn unit_clamp(v: int) -> int {
    dmin(dmax(v, 0), 1_000_000)
}

/// A pinned point: both coordinates clamped to `[0, 1]`, when both are
/// given.
pub open spec fn pin_of(x: Option<Decimal>, y: Option<Decimal>) -> Option<(int, int)> {
    match (x, y) {
        (Some(a), Some(b)) => Some((unit_clamp(a@), unit_clamp(b@))),
        _ => None,
    }
}

/// An edge of a document: source, target, pinned exit and entry.
pub type EdgeSpecV = (Seq<char>, Seq<char>, Option<(int, int)>, Option<(int, int)>);

/// Source, target and pinned points of each edge.
pub open spec fn edges_view(es: Seq<EdgeSpec>) -> Seq<EdgeSpecV> {
    es.map_values(|e: EdgeSpec| (e.source@, e.target@, pin_of(e.exit_x, e.exit_y), pin_of(e.entry_x, e.entry_y)))
}

/// The groups in order, each with an id not seen before and a known kind;
/// the ids seen afterwards, or the first failure.
pub open spec fn check_groups(gs: Seq<GroupSpecV>, seen: Seq<Seq<char>>) -> Result<Seq<Seq<char>>, AuthorErrorV>
    decreases gs.len(),
{
    if gs.len() == 0 {
        Ok(seen)
    } else {
        let g = gs[0];
        if seen.contains(g.id) {
            Err(AuthorErrorV::DuplicateId(g.id))
        } else if !group_kinds_spec().contains(g.kind) {
            Err(AuthorErrorV::UnknownGroupKind(g.kind, suggestions(g.kind, group_kinds_spec())))
        } else {
            check_groups(gs.drop_first(), seen.push(g.id))
        }
    }
}

/// The nodes in order, each with an id not seen before: the nodes they
/// describe, or the first failure.
pub open spec fn build_nodes(ns: Seq<NodeSpecV>, seen: Seq<Seq<char>>) -> Result<Seq<NodeV>, AuthorErrorV>
    decreases ns.len(),
{
    if ns.len() == 0 {
        Ok(Seq::empty())
    } else {
        let n = ns[0];
        if seen.contains(n.id) {
            Err(AuthorErrorV::DuplicateId(n.id))
        } else {
            match node_of(n) {
                Err(e) => Err(e),
                Ok(v) => match build_nodes(ns.drop_first(), seen.push(n.id)) {
                    Ok(rest) => Ok(seq![v] + rest),
                    Err(e) => Err(e),
                },
            }
        }
    }
}

/// The first edge naming an id outside `ids` (its source checked first),
/// if any.
pub open spec fn check_edges(es: Seq<EdgeSpecV>, ids: Seq<Seq<char>>) -> Option<AuthorErrorV>
    decreases es.len(),
{
    if es.len() == 0 {
        None
    } else {
        let (src, tgt, _, _) = es[0];
        if !ids.contains(src) {
            Some(AuthorErrorV::EdgeUnknownEndpoint(src, tgt, src))
        } else if !ids.contains(tgt) {
            Some(AuthorErrorV::EdgeUnknownEndpoint(src, tgt, tgt))
        } else {
            check_edges(es.drop_first(), ids)
        }
    }
}

/// Edges numbered `e1`, `e2`, ... in order.
pub open spec fn numbered(es: Seq<EdgeSpecV>) -> Seq<EdgeV> {
    Seq::new(es.len(), |i: int| (seq!['e'] + nat_digits((i + 1) as nat), es[i].0, es[i].1, es[i].2, es[i].3))
}

/// The diagram a document describes, as its `.drawio` text, or the first
/// failure: groups are checked first, then nodes, then edges. Group
/// containers come first, so they are drawn behind the nodes.
pub open spec fn document_xml(
    name: Seq<char>,
    gs: Seq<GroupSpecV>,
    ns: Seq<NodeSpecV>,
    es: Seq<EdgeSpecV>,
) -> Result<Seq<char>, AuthorErrorV> {
    match check_groups(gs, Seq::empty()) {
        Err(e) => Err(e),
        Ok(seen) => match build_nodes(ns, seen) {
            Err(e) => Err(e),
            Ok(nodes) => match check_edges(es, ns.map_values(|n: NodeSpecV| n.id)) {
                Some(e) => Err(e),
                None => Ok(diagram_xml(name, gs.map_values(|g: GroupSpecV| group_node(g)) + nodes, numbered(es))),
            },
        },
    }
}

fn contains_id(ids: &Vec<String>, id: &str) -> (r: bool)
    ensures
        r == ids_view(ids@).contains(id@),
{
    let ghost v = ids_view(ids@);
    let mut i: usize = 0;
    while i < ids.len()
        invariant
            i <= ids@.len(),
            v == ids_view(ids@),
            forall|k: int| 0 <= k < i ==> v[k] != id@,
        decreases ids@.len() - i,
    {
        if str_eq(ids[i].as_str(), id) {
            assert(v[i as int] == id@);
            return true;
        }
        i = i + 1;
    }
    false
}

pub open spec fn ids_view(ids: Seq<String>) -> Seq<Seq<char>> {
    ids.map_values(|s: String| s@)
}

fn check_group_list(groups: &Vec<GroupSpec>, seen: &mut Vec<String>) -> (r: Result<(), AuthorError>)
    requires
        ids_view(old(seen)@) == Seq::<Seq<char>>::empty(),
    ensures
        match r {
            Ok(()) => check_groups(groups_view(groups@), Seq::empty()) == Ok::<Seq<Seq<char>>, AuthorErrorV>(
                ids_view(final(seen)@),
            ),
            Err(e) => check_groups(groups_view(groups@), Seq::empty()) == Err::<Seq<Seq<char>>, AuthorErrorV>(e@),
        },
{
    let ghost gs = groups_view(groups@);
    let known = group_kinds();
    let mut i: usize = 0;
    assert(gs.skip(0) =~= gs);
    while i < groups.len()
        invariant
            i <= groups@.len(),
            gs == groups_view(groups@),
            strs_view(known@) == group_kinds_spec(),
            check_groups(gs, Seq::empty()) == check_groups(gs.skip(i as int), ids_view(seen@)),
        decreases groups@.len() - i,
    {
        let g = &groups[i];
        let ghost t = gs.skip(i as int);
        assert(t[0] == gs[i as int]);
        assert(t.drop_first() =~= gs.skip(i + 1));
        if contains_id(seen, g.id.as_str()) {
            return Err(AuthorError::DuplicateId(g.id.clone()));
        }
        if !contains_id_str(&known, g.kind.as_str()) {
            return Err(AuthorError::UnknownGroupKind { kind: g.kind.clone(), suggestions: suggest(g.kind.as_str(), &known) });
        }
        let ghost before = ids_view(seen@);
        seen.push(g.id.clone());
        assert(ids_view(seen@) =~= before.push(g.id@));
        i = i + 1;
    }
    assert(gs.skip(gs.len() as int) =~= Seq::<GroupSpecV>::empty());
    Ok(())
}

fn contains_id_str(items: &Vec<&'static str>, s: &str) -> (r: bool)
    ensures
        r == strs_view(items@).contains(s@),
{
    let ghost v = strs_view(items@);
    let mut i: usize = 0;
    while i < items.len()
        invariant
            i <= items@.len(),
            v == strs_view(items@),
            forall|k: int| 0 <= k < i ==> v[k] != s@,
        decreases items@.len() - i,
    {
        if str_eq(items[i], s) {
            assert(v[i as int] == s@);
            return true;
        }
        i = i + 1;
    }
    false
}

fn add_nodes(d: &mut Diagram, nodes: &Vec<NodeSpec>, seen: &mut Vec<String>) -> (r: Result<(), AuthorError>)
    ensures
        final(d).name_v() == old(d).name_v(),
        final(d).edges_v() == old(d).edges_v(),
        final(d).next_edge_v() == old(d).next_edge_v(),
        match r {
            Ok(()) => build_nodes(nodes_view(nodes@), ids_view(old(seen)@)) == Ok::<Seq<NodeV>, AuthorErrorV>(
                final(d).nodes_v().skip(old(d).nodes_v().len() as int),
            ) && final(d).nodes_v() == old(d).nodes_v() + final(d).nodes_v().skip(old(d).nodes_v().len() as int),
            Err(e) => build_nodes(nodes_view(nodes@), ids_view(old(seen)@)) == Err::<Seq<NodeV>, AuthorErrorV>(e@),
        },
{
    let ghost ns = nodes_view(nodes@);
    let ghost seen0 = ids_view(seen@);
    let ghost base = d.nodes_v();
    let ghost mut done: Seq<NodeV> = Seq::empty();
    let mut i: usize = 0;
    assert(ns.skip(0) =~= ns);
    assert(base + Seq::<NodeV>::empty() =~= base);
    while i < nodes.len()
        invariant
            i <= nodes@.len(),
            ns == nodes_view(nodes@),
            seen0 == ids_view(old(seen)@),
            base == old(d).nodes_v(),
            d.nodes_v() == base + done,
            d.name_v() == old(d).name_v(),
            d.edges_v() == old(d).edges_v(),
            d.next_edge_v() == old(d).next_edge_v(),
            build_nodes(ns, seen0) == match build_nodes(ns.skip(i as int), ids_view(seen@)) {
                Ok(rest) => Ok(done + rest),
                Err(e) => Err(e),
            },
        decreases nodes@.len() - i,
    {
        let n = &nodes[i];
        let ghost t = ns.skip(i as int);
        assert(t[0] == nodes@[i as int]@);
        assert(t.drop_first() =~= ns.skip(i + 1));
        if contains_id(seen, n.id.as_str()) {
            return Err(AuthorError::DuplicateId(n.id.clone()));
        }
        let node = match build_node(n) {
            Ok(node) => node,
            Err(e) => return Err(e),
        };
        let ghost before = ids_view(seen@);
        seen.push(n.id.clone());
        assert(ids_view(seen@) =~= before.push(n.id@));
        let ghost v = node@;
        d.add_node(node);
        proof {
            match build_nodes(ns.skip(i + 1), ids_view(seen@)) {
                Ok(rest) => {
                    assert(done + (seq![v] + rest) =~= done.push(v) + rest);
                },
                Err(e) => {},
            }
            assert(d.nodes_v() =~= base + done.push(v));
            done = done.push(v);
        }
        i = i + 1;
    }
    assert(ns.skip(ns.len() as int) =~= Seq::<NodeSpecV>::empty());
    assert(done + Seq::<NodeV>::empty() =~= done);
    assert(d.nodes_v().skip(base.len() as int) =~= done);
    Ok(())
}

/// Add the container cell of each group, in order.
fn add_groups(d: &mut Diagram, groups: &Vec<GroupSpec>)
    ensures
        final(d).name_v() == old(d).name_v(),
        final(d).edges_v() == old(d).edges_v(),
        final(d).next_edge_v() == old(d).next_edge_v(),
        final(d).nodes_v() == old(d).nodes_v() + groups_view(groups@).map_values(|g: GroupSpecV| group_node(g)),
{
    let ghost gs = groups_view(groups@).map_values(|g: GroupSpecV| group_node(g));
    let mut i: usize = 0;
    assert(old(d).nodes_v() + gs.take(0) =~= old(d).nodes_v());
    while i < groups.len()
        invariant
            i <= groups@.len(),
            gs == groups_view(groups@).map_values(|g: GroupSpecV| group_node(g)),
            d.nodes_v() == old(d).nodes_v() + gs.take(i as int),
            d.name_v() == old(d).name_v(),
            d.edges_v() == old(d).edges_v(),
            d.next_edge_v() == old(d).next_edge_v(),
        decreases groups@.len() - i,
    {
        let g = &groups[i];
        let style = group_style_text(g.kind.as_str());
        let node = Node::raw(g.id.clone(), g.x, g.y, g.width, g.height, g.label.clone(), style);
        d.add_node(node);
        assert(gs.take(i + 1) =~= gs.take(i as int).push(gs[i as int]));
        assert(d.nodes_v() =~= old(d).nodes_v() + gs.take(i + 1));
        i = i + 1;
    }
    assert(gs.take(groups@.len() as int) =~= gs);
}

/// The drawio style of a group container (see [`group_style`]).
fn group_style_text(kind: &str) -> (r: String)
    ensures
        r@ == group_style(kind@),
{
    let mut s = String::new();
    if str_eq(kind, "aws.account") {
        push_str(&mut s, "shape=mxgraph.aws4.group;grIcon=mxgraph.aws4.group_account;strokeColor=#CD2264;fontColor=#CD2264;dashed=1;fillColor=none;");
    } else if str_eq(kind, "aws.vpc") {
        push_str(&mut s, "shape=mxgraph.aws4.group;grIcon=mxgraph.aws4.group_vpc2;strokeColor=#8C4FFF;fontColor=#AAB7B8;dashed=0;fillColor=none;");
    } else if str_eq(kind, "aws.cloud") {
        push_str(&mut s, "shape=mxgraph.aws4.group;grIcon=mxgraph.aws4.group_aws_cloud_alt;strokeColor=#232F3E;fontColor=#232F3E;dashed=0;fillColor=none;");
    } else {
        push_str(&mut s, "shape=mxgraph.aws4.group;strokeColor=#5A6C86;fontColor=#5A6C86;dashed=1;fillColor=none;");
    }
    s
}

/// A pinned point from two optional coordinates, each clamped to
/// `[0, 1]` (see [`pin_of`]).
fn pin(x: Option<Decimal>, y: Option<Decimal>) -> (r: Option<(Decimal, Decimal)>)
    ensures
        pin_view(r) == pin_of(x, y),
{
    match (x, y) {
        (Some(a), Some(b)) => {
            let zero = Decimal::zero();
            let one = Decimal::from_int(1);
            Some((a.max(zero).min(one), b.max(zero).min(one)))
        },
        _ => None,
    }
}

fn add_edges(d: &mut Diagram, edges: &Vec<EdgeSpec>, ids: &Vec<String>) -> (r: Result<(), AuthorError>)
    requires
        old(d).edges_v() == Seq::<EdgeV>::empty(),
        old(d).next_edge_v() == 1,
        edges@.len() < usize::MAX,
    ensures
        final(d).name_v() == old(d).name_v(),
        final(d).nodes_v() == old(d).nodes_v(),
        match r {
            Ok(()) => check_edges(edges_view(edges@), ids_view(ids@)) == None::<AuthorErrorV>
                && final(d).edges_v() == numbered(edges_view(edges@)),
            Err(e) => check_edges(edges_view(edges@), ids_view(ids@)) == Some(e@),
        },
{
    let ghost es = edges_view(edges@);
    let ghost iv = ids_view(ids@);
    let mut j: usize = 0;
    assert(es.skip(0) =~= es);
    assert(numbered(es.take(0)) =~= Seq::<EdgeV>::empty());
    while j < edges.len()
        invariant
            j <= edges@.len(),
            edges@.len() < usize::MAX,
            es == edges_view(edges@),
            iv == ids_view(ids@),
            d.name_v() == old(d).name_v(),
            d.nodes_v() == old(d).nodes_v(),
            d.next_edge_v() == j + 1,
            d.edges_v() == numbered(es.take(j as int)),
            check_edges(es, iv) == check_edges(es.skip(j as int), iv),
        decreases edges@.len() - j,
    {
        let e = &edges[j];
        let ghost t = es.skip(j as int);
        assert(t[0] == (e.source@, e.target@, pin_of(e.exit_x, e.exit_y), pin_of(e.entry_x, e.entry_y)));
        assert(t.drop_first() =~= es.skip(j + 1));
        if !contains_id(ids, e.source.as_str()) {
            return Err(
                AuthorError::EdgeUnknownEndpoint {
                    source: e.source.clone(),
                    target: e.target.clone(),
                    missing: e.source.clone(),
                },
            );
        }
        if !contains_id(ids, e.target.as_str()) {
            return Err(
                AuthorError::EdgeUnknownEndpoint {
                    source: e.source.clone(),
                    target: e.target.clone(),
                    missing: e.target.clone(),
                },
            );
        }
        let src = NodeRef { id: e.source.clone() };
        let tgt = NodeRef { id: e.target.clone() };
        d.connect_pinned(&src, &tgt, pin(e.exit_x, e.exit_y), pin(e.entry_x, e.entry_y));
        assert(numbered(es.take(j + 1)) =~= numbered(es.take(j as int)).push(
            (
                seq!['e'] + nat_digits((j + 1) as nat),
                e.source@,
                e.target@,
                pin_of(e.exit_x, e.exit_y),
                pin_of(e.entry_x, e.entry_y),
            ),
        ));
        j = j + 1;
    }
    assert(es.take(es.len() as int) =~= es);
    assert(es.skip(es.len() as int) =~= Seq::<EdgeSpecV>::empty());
    Ok(())
}

/// Build the `.drawio` text of the diagram a document describes. Every
/// group and node id must be new and every kind known; every edge must
/// name node ids. Groups are drawn as container cells behind the nodes;
/// an edge's exit and entry points are pinned where both coordinates are
/// given, clamped to `[0, 1]`.
pub fn build_xml_from_doc(doc: &Document) -> (r: Result<String, AuthorError>)
    requires
        doc.edges@.len() < usize::MAX,
    ensures
        match r {
            Ok(x) => document_xml(
                doc.name@,
                groups_view(doc.groups@),
                nodes_view(doc.nodes@),
                edges_view(doc.edges@),
            ) == Ok::<Seq<char>, AuthorErrorV>(x@),
            Err(e) => document_xml(
                doc.name@,
                groups_view(doc.groups@),
                nodes_view(doc.nodes@),
                edges_view(doc.edges@),
            ) == Err::<Seq<char>, AuthorErrorV>(e@),
        },
{
    let mut seen: Vec<String> = Vec::new();
    assert(ids_view(seen@) =~= Seq::<Seq<char>>::empty());
    check_group_list(&doc.groups, &mut seen)?;
    let mut d = Diagram::new(doc.name.clone());
    add_groups(&mut d, &doc.groups);
    let ghost seen_groups = ids_view(seen@);
    add_nodes(&mut d, &doc.nodes, &mut seen)?;
    let mut ids: Vec<String> = Vec::new();
    let mut k: usize = 0;
    while k < doc.nodes.len()
        invariant
            k <= doc.nodes@.len(),
            ids_view(ids@) == nodes_view(doc.nodes@).take(k as int).map_values(|n: NodeSpecV| n.id),
        decreases doc.nodes@.len() - k,
    {
        let ghost before = ids_view(ids@);
        ids.push(doc.nodes[k].id.clone());
        assert(ids_view(ids@) =~= before.push(doc.nodes@[k as int].id@));
        assert(nodes_view(doc.nodes@).take(k + 1).map_values(|n: NodeSpecV| n.id) =~= before.push(
            doc.nodes@[k as int].id@,
        ));
        k = k + 1;
    }
    assert(nodes_view(doc.nodes@).take(doc.nodes@.len() as int) =~= nodes_view(doc.nodes@));
    add_edges(&mut d, &doc.edges, &ids)?;
    Ok(d.to_xml())
}

// ------------------------------------------------------------------
// Messages.

/// The `Debug` form of a string (`<str as Debug>::fmt`): the text in
/// double quotes, with the escapes std writes.
pub uninterp spec fn debug_str(s: Seq<char>) -> Seq<char>;

/// `s` as string `Debug` output writes it, quotes included
/// (`format!("{:?}", s)`).
#[verifier::external_body]
fn debug_quoted(s: &str) -> (r: String)
    ensures
        r@ == debug_str(s@),
{
    format!("{:?}", s)
}

/// `s` in double quotes, escaped as string `Debug` output does.
pub open spec fn quoted(s: Seq<char>) -> Seq<char> {
    debug_str(s)
}

/// The items, each in double quotes, separated by `, `.
pub open spec fn join_quoted(items: Seq<Seq<char>>) -> Seq<char>
    decreases items.len(),
{
    if items.len() == 0 {
        Seq::empty()
    } else if items.len() == 1 {
        "\""@ + items[0] + "\""@
    } else {
        join_quoted(items.drop_last()) + ", \""@ + items.last() + "\""@
    }
}

/// The hint after an unknown kind: the suggestions, or every known kind
/// when there are none.
pub open spec fn kind_hint(suggestions: Seq<Seq<char>>, known: Seq<Seq<char>>) -> Seq<char> {
    if suggestions.len() == 0 {
        ". Known kinds: "@ + join_quoted(known)
    } else {
        " \u{2014} did you mean "@ + join_quoted(suggestions) + "?"@
    }
}

/// The message an error is reported with.
pub open spec fn message_of(e: AuthorErrorV) -> Seq<char> {
    match e {
        AuthorErrorV::UnknownNodeKind(kind, s) => "unknown node kind "@ + quoted(kind) + kind_hint(s, node_kinds_spec()),
        AuthorErrorV::UnknownGroupKind(kind, s) => "unknown group kind "@ + quoted(kind) + kind_hint(
            s,
            group_kinds_spec(),
        ),
        AuthorErrorV::RawNodeMissingStyle(id) => "node "@ + quoted(id) + " has kind=\"raw\" but no \"style\" field"@,
        AuthorErrorV::EdgeUnknownEndpoint(src, tgt, missing) => "edge "@ + quoted(src) + " -> "@ + quoted(tgt)
            + " references unknown id "@ + quoted(missing),
        AuthorErrorV::DuplicateId(id) => "duplicate id "@ + quoted(id),
    }
}

fn push_quoted(out: &mut String, s: &str)
    ensures
        final(out)@ == old(out)@ + quoted(s@),
{
    let q = debug_quoted(s);
    push_str(out, q.as_str());
}

fn push_join_quoted(out: &mut String, items: &Vec<&'static str>)
    ensures
        final(out)@ == old(out)@ + join_quoted(strs_view(items@)),
{
    let ghost v = strs_view(items@);
    let mut i: usize = 0;
    assert(v.take(0) =~= Seq::<Seq<char>>::empty());
    while i < items.len()
        invariant
            v == strs_view(items@),
            i <= items@.len(),
            out@ == old(out)@ + join_quoted(v.take(i as int)),
        decreases items@.len() - i,
    {
        let ghost t = v.take(i + 1);
        assert(t.drop_last() =~= v.take(i as int));
        assert(t.last() == items@[i as int]@);
        if i > 0 {
            push_str(out, ", \"");
        } else {
            push_str(out, "\"");
        }
        push_str(out, items[i]);
        push_str(out, "\"");
        if i == 0 {
            assert(t.len() == 1 && t[0] == items@[0]@);
            assert(out@ =~= old(out)@ + join_quoted(t));
        } else {
            assert(out@ =~= old(out)@ + join_quoted(t));
        }
        i = i + 1;
    }
    assert(v.take(items@.len() as int) =~= v);
}

fn push_kind_hint(out: &mut String, suggestions: &Vec<&'static str>, known: &Vec<&'static str>)
    ensures
        final(out)@ == old(out)@ + kind_hint(strs_view(suggestions@), strs_view(known@)),
{
    if suggestions.len() == 0 {
        push_str(out, ". Known kinds: ");
        push_join_quoted(out, known);
    } else {
        push_str(out, " \u{2014} did you mean ");
        push_join_quoted(out, suggestions);
        push_str(out, "?");
    }
    assert(out@ =~= old(out)@ + kind_hint(strs_view(suggestions@), strs_view(known@)));
}

impl AuthorError {
    /// The message the error is reported with.
    pub fn message(&self) -> (r: String)
        ensures
            r@ == message_of(self@),
    {
        let mut out = String::new();
        match self {
            AuthorError::UnknownNodeKind { kind, suggestions } => {
                push_str(&mut out, "unknown node kind ");
                push_quoted(&mut out, kind.as_str());
                let known = node_kinds();
                push_kind_hint(&mut out, suggestions, &known);
            },
            AuthorError::UnknownGroupKind { kind, suggestions } => {
                push_str(&mut out, "unknown group kind ");
                push_quoted(&mut out, kind.as_str());
                let known = group_kinds();
                push_kind_hint(&mut out, suggestions, &known);
            },
            AuthorError::RawNodeMissingStyle { id } => {
                push_str(&mut out, "node ");
                push_quoted(&mut out, id.as_str());
                push_str(&mut out, " has kind=\"raw\" but no \"style\" field");
            },
            AuthorError::EdgeUnknownEndpoint { source, target, missing } => {
                push_str(&mut out, "edge ");
                push_quoted(&mut out, source.as_str());
                push_str(&mut out, " -> ");
                push_quoted(&mut out, target.as_str());
                push_str(&mut out, " references unknown id ");
                push_quoted(&mut out, missing.as_str());
            },
            AuthorError::DuplicateId(id) => {
                push_str(&mut out, "duplicate id ");
                push_quoted(&mut out, id.as_str());
            },
        }
        assert(out@ =~= message_of(self@));
        out
    }
}

} // verus!
