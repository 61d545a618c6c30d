//! Listings of the factory catalogue: a JSON array of
//! `{library, key, category}` objects, or text grouped by library and
//! category.

use vstd::prelude::*;
use crate::catalogue::{Entry, EntryV};
use crate::text::{chars_of, push_char, push_str};

verus! {

/// The lower-case hexadecimal digit of `d < 16`.
pub open spec fn hex_char(d: nat) -> char {
    if d < 10 {
        ((d + 48) as u32) as char
    } else {
        ((d + 87) as u32) as char
    }
}


/// `n` as four lower-case hexadecimal digits.
pub open spec fn hex4(n: nat) -> Seq<char> {
    seq![hex_char((n / 4096) % 16), hex_char((n / 256) % 16), hex_char((n / 16) % 16), hex_char(n % 16)]
}

/// One character inside a JSON string literal.
pub open spec fn json_char(c: char) -> Seq<char> {
    if c == '"' {
        "\\\""@
    } else if c == '\\' {
        "\\\\"@
    } else if c == '\n' {
        "\\n"@
    } else if c == '\r' {
        "\\r"@
    } else if c == '\t' {
        "\\t"@
    } else if (c as u32) < 0x20 {
        "\\u"@ + hex4((c as u32) as nat)
    } else {
        seq![c]
    }
}

/// `s` escaped for a JSON string literal, without the quotes.
pub open spec fn json_text(s: Seq<char>) -> Seq<char>
    decreases s.len(),
{
    if s.len() == 0 {
        Seq::empty()
    } else {
        json_text(s.drop_last()) + json_char(s.last())
    }
}

fn push_hex4(out: &mut String, n: u32)
    requires
        n < 0x20,
    ensures
        final(out)@ == old(out)@ + hex4(n as nat),
{
    push_str(out, "00");
    let hi = n / 16;
    let lo = n % 16;
    let h = ((hi + 48) as u8) as char;
    let l = if lo < 10 {
        ((lo + 48) as u8) as char
    } else {
        ((lo + 87) as u8) as char
    };
    push_char(out, h);
    push_char(out, l);
    proof {
        reveal_strlit("00");
        assert(hex_char(((n / 4096) % 16) as nat) == '0');
        assert(hex_char(((n / 256) % 16) as nat) == '0');
        assert(h == hex_char(((n / 16) % 16) as nat));
        assert(l == hex_char((n % 16) as nat));
    }
    assert(out@ =~= old(out)@ + hex4(n as nat));
}

/// Append `s` escaped for a JSON string literal.
pub fn push_json_text(out: &mut String, s: &str)
    ensures
        final(out)@ == old(out)@ + json_text(s@),
{
    let v = chars_of(s);
    let mut i: usize = 0;
    while i < v.len()
        invariant
            v@ == s@,
            i <= v@.len(),
            out@ == old(out)@ + json_text(v@.take(i as int)),
        decreases v@.len() - i,
    {
        let c = v[i];
        let ghost before = out@;
        if c == '"' {
            push_str(out, "\\\"");
        } else if c == '\\' {
            push_str(out, "\\\\");
        } else if c == '\n' {
            push_str(out, "\\n");
        } else if c == '\r' {
            push_str(out, "\\r");
        } else if c == '\t' {
            push_str(out, "\\t");
        } else if (c as u32) < 0x20 {
            push_str(out, "\\u");
            push_hex4(out, c as u32);
        } else {
            push_char(out, c);
        }
        assert(out@ == before + json_char(c));
        assert(v@.take(i + 1).drop_last() =~= v@.take(i as int));
        assert(v@.take(i + 1).last() == c);
        assert(out@ =~= old(out)@ + json_text(v@.take(i + 1)));
        i = i + 1;
    }
    assert(v@.take(v@.len() as int) =~= v@);
}

/// `s` escaped for a JSON string literal, without the quotes.
pub fn json_escape(s: &str) -> (r: String)
    ensures
        r@ == json_text(s@),
{
    let mut r = String::new();
    push_json_text(&mut r, s);
    r
}

/// One line of the JSON listing (without its trailing comma and newline).
pub open spec fn json_line(e: EntryV) -> Seq<char> {
    "  {\"library\":\""@ + json_text(e.0) + "\",\"key\":\""@ + json_text(e.1) + "\",\"category\":\""@
        + json_text(e.2) + "\"}"@
}

/// The lines of the JSON listing of `es`; every line but the last of the
/// whole listing (`n` entries) ends with a comma.
pub open spec fn json_lines(es: Seq<EntryV>, n: int) -> Seq<char>
    decreases es.len(),
{
    if es.len() == 0 {
        Seq::empty()
    } else {
        json_lines(es.drop_last(), n) + json_line(es.last()) + (if es.len() == n {
            ""@
        } else {
            ","@
        }) + "\n"@
    }
}

/// The JSON listing: one object per entry, in order.
pub open spec fn json_listing(es: Seq<EntryV>) -> Seq<char> {
    "[\n"@ + json_lines(es, es.len() as int) + "]\n"@
}

pub open spec fn entries_view(es: Seq<Entry>) -> Seq<EntryV> {
    es.map_values(|e: Entry| e@)
}

fn push_json_line(out: &mut String, e: Entry)
    ensures
        final(out)@ == old(out)@ + json_line(e@),
{
    push_str(out, "  {\"library\":\"");
    push_json_text(out, e.library);
    push_str(out, "\",\"key\":\"");
    push_json_text(out, e.key);
    push_str(out, "\",\"category\":\"");
    push_json_text(out, e.category);
    push_str(out, "\"}");
    assert(out@ =~= old(out)@ + json_line(e@));
}

/// The JSON listing of the entries.
pub fn listing_json(entries: &Vec<Entry>) -> (r: String)
    ensures
        r@ == json_listing(entries_view(entries@)),
{
    let ghost es = entries_view(entries@);
    let n = entries.len();
    let mut out = String::new();
    push_str(&mut out, "[\n");
    let ghost head = out@;
    let mut i: usize = 0;
    assert(es.take(0) =~= Seq::<EntryV>::empty());
    while i < n
        invariant
            n == entries@.len(),
            es == entries_view(entries@),
            i <= n,
            out@ == head + json_lines(es.take(i as int), n as int),
        decreases n - i,
    {
        let e = entries[i];
        push_json_line(&mut out, e);
        if i + 1 == n {
            push_str(&mut out, "");
        } else {
            push_str(&mut out, ",");
        }
        push_str(&mut out, "\n");
        let ghost t = es.take(i + 1);
        assert(t.drop_last() =~= es.take(i as int));
        assert(t.last() == e@);
        assert(out@ =~= head + json_lines(t, n as int));
        i = i + 1;
    }
    assert(es.take(n as int) =~= es);
    push_str(&mut out, "]\n");
    assert(out@ =~= json_listing(es));
    out
}

/// The text an entry adds to the grouped listing after `prev`: a library
/// heading (after a blank line, unless it is the first) when the library
/// changes, a category heading when the category or library changes, then
/// the entry's `library.key`.
pub open spec fn text_piece(prev: Option<EntryV>, e: EntryV) -> Seq<char> {
    let new_lib = match prev {
        Some(p) => p.0 != e.0,
        None => true,
    };
    let new_cat = match prev {
        Some(p) => new_lib || p.2 != e.2,
        None => true,
    };
    (if new_lib {
        (if prev is Some {
            "\n"@
        } else {
            ""@
        }) + e.0 + ":\n"@
    } else {
        ""@
    }) + (if new_cat {
        "  "@ + e.2 + ":\n"@
    } else {
        ""@
    }) + "    "@ + e.0 + "."@ + e.1 + "\n"@
}

/// The grouped text listing.
pub open spec fn text_listing(es: Seq<EntryV>) -> Seq<char>
    decreases es.len(),
{
    if es.len() == 0 {
        Seq::empty()
    } else {
        text_listing(es.drop_last()) + text_piece(
            if es.len() > 1 {
                Some(es[es.len() - 2])
            } else {
                None
            },
            es.last(),
        )
    }
}

#[verifier::spinoff_prover]
#[verifier::rlimit(60)]
fn push_text_piece(out: &mut String, prev: Option<Entry>, e: Entry)
    ensures
        final(out)@ == old(out)@ + text_piece(
            match prev {
                Some(p) => Some(p@),
                None => None,
            },
            e@,
        ),
{
    let new_lib = match prev {
        Some(p) => !crate::text::str_eq(p.library, e.library),
        None => true,
    };
    let new_cat = match prev {
        Some(p) => new_lib || !crate::text::str_eq(p.category, e.category),
        None => true,
    };
    if new_lib {
        if prev.is_some() {
            push_str(out, "\n");
        } else {
            push_str(out, "");
        }
        push_str(out, e.library);
        push_str(out, ":\n");
    } else {
        push_str(out, "");
    }
    if new_cat {
        push_str(out, "  ");
        push_str(out, e.category);
        push_str(out, ":\n");
    } else {
        push_str(out, "");
    }
    push_str(out, "    ");
    push_str(out, e.library);
    push_str(out, ".");
    push_str(out, e.key);
    push_str(out, "\n");
    let ghost pv = match prev {
        Some(p) => Some(p@),
        None => None::<EntryV>,
    };
    assert(out@ =~= old(out)@ + text_piece(pv, e@));
}

/// The listing grouped by library, then category.
pub fn listing_text(entries: &Vec<Entry>) -> (r: String)
    ensures
        r@ == text_listing(entries_view(entries@)),
{
    let ghost es = entries_view(entries@);
    let mut out = String::new();
    let mut i: usize = 0;
    assert(es.take(0) =~= Seq::<EntryV>::empty());
    while i < entries.len()
        invariant
            es == entries_view(entries@),
            i <= entries@.len(),
            out@ == text_listing(es.take(i as int)),
        decreases entries@.len() - i,
    {
        let prev = if i == 0 {
            None
        } else {
            Some(entries[i - 1])
        };
        push_text_piece(&mut out, prev, entries[i]);
        let ghost t = es.take(i + 1);
        assert(t.drop_last() =~= es.take(i as int));
        assert(t.last() == entries@[i as int]@);
        if i > 0 {
            assert(t[t.len() - 2] == entries@[i - 1]@);
        }
        i = i + 1;
    }
    assert(es.take(entries@.len() as int) =~= es);
    out
}

} // verus!
