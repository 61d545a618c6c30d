//! Numbers too large for a single-precision float.
//!
//! drawio reads attachment coordinates as `f32`; a number whose magnitude
//! rounds to infinity there is not a coordinate. This module decides that
//! from the text exactly: the magnitude reaches `2^128 - 2^103`, the
//! least value that rounds up to infinity.

use vstd::prelude::*;
use crate::decimal::{
    all_digits, char_digit, char_is_digit, digit_val, digits_value, exponent_value, find_mark, is_digit,
    is_first_mark, lemma_digits_value_nonneg, lemma_pow10_mono, lemma_pow10_pos, pow10, sign_len,
};
use crate::text::{find_char, first_index};

verus! {

/// The least magnitude that rounds to infinity as an `f32`:
/// `2^128 - 2^103`.
pub const F32_INFINITE_FROM: u128 = 340282356779733661637539395458142568448;

/// Cap on exponents while reading (beyond it every nonzero number is
/// infinite and every fraction vanishes).
pub const EXP_CAP: u128 = 1_267_650_600_228_229_401_496_703_205_376;

/// The digits of a plain mantissa `[+-]digits[.digits]` (whole part then
/// fraction) and the number of fraction digits, when it is one.
pub open spec fn mantissa_parts(m: Seq<char>) -> Option<(Seq<char>, nat)> {
    let body = m.skip(sign_len(m));
    let (whole, frac) = match first_index(body, '.') {
        Some(i) => (body.take(i), body.skip(i + 1)),
        None => (body, Seq::<char>::empty()),
    };
    if all_digits(whole) && all_digits(frac) && whole.len() + frac.len() > 0 {
        Some((whole + frac, frac.len()))
    } else {
        None
    }
}

/// The digits a number spells and the power of ten that scales them (the
/// exponent less the number of fraction digits), when `s` is a number
/// (see [`crate::decimal::parse_dec`]).
pub open spec fn number_parts(s: Seq<char>) -> Option<(Seq<char>, int)> {
    if exists|i: int| is_first_mark(s, i) {
        let i = choose|i: int| is_first_mark(s, i);
        match (mantissa_parts(s.take(i)), exponent_value(s.skip(i + 1))) {
            (Some((g, f)), Some(e)) => Some((g, e - f)),
            _ => None,
        }
    } else {
        match mantissa_parts(s) {
            Some((g, f)) => Some((g, -f)),
            None => None,
        }
    }
}

/// The whole part of `digits * 10^p`.
pub open spec fn scaled_floor(g: Seq<char>, p: int) -> nat {
    if p >= 0 {
        (digits_value(g) * pow10(p as nat)) as nat
    } else {
        (digits_value(g) / pow10((-p) as nat)) as nat
    }
}

/// Whether `s` is a number whose magnitude rounds to infinity as an `f32`.
pub open spec fn f32_overflow(s: Seq<char>) -> bool {
    match number_parts(s) {
        Some((g, p)) => scaled_floor(g, p) >= F32_INFINITE_FROM,
        None => false,
    }
}

// ---------------------------------------------------------------------
// Digit strings

pub open spec fn zeros(k: nat) -> Seq<char> {
    Seq::new(k, |i: int| '0')
}

proof fn lemma_dv_append(a: Seq<char>, b: Seq<char>)
    ensures
        digits_value(a + b) == digits_value(a) * pow10(b.len()) + digits_value(b),
    decreases b.len(),
{
    if b.len() == 0 {
        assert(a + b =~= a);
    } else {
        lemma_dv_append(a, b.drop_last());
        assert((a + b).drop_last() =~= a + b.drop_last());
        assert((a + b).last() == b.last());
        let x = digits_value(a);
        let q = pow10((b.len() - 1) as nat);
        let y = digits_value(b.drop_last());
        assert((x * q + y) * 10 == x * (10 * q) + y * 10) by (nonlinear_arith);
    }
}

proof fn lemma_dv_zeros(k: nat)
    ensures
        digits_value(zeros(k)) == 0,
    decreases k,
{
    if k > 0 {
        lemma_dv_zeros((k - 1) as nat);
        assert(zeros(k).drop_last() =~= zeros((k - 1) as nat));
    }
}

proof fn lemma_dv_bound(b: Seq<char>)
    requires
        all_digits(b),
    ensures
        0 <= digits_value(b) < pow10(b.len()),
    decreases b.len(),
{
    if b.len() > 0 {
        assert(all_digits(b.drop_last()));
        lemma_dv_bound(b.drop_last());
        assert(is_digit(b.last()));
        let y = digits_value(b.drop_last());
        let q = pow10((b.len() - 1) as nat);
        assert(y * 10 + 9 < 10 * q) by (nonlinear_arith)
            requires
                y < q,
        ;
    }
}

/// A digit string starting with a nonzero digit is worth at least
/// `10^(len - 1)`.
proof fn lemma_dv_lower(b: Seq<char>)
    requires
        all_digits(b),
        b.len() > 0,
        b[0] != '0',
    ensures
        digits_value(b) >= pow10((b.len() - 1) as nat),
    decreases b.len(),
{
    if b.len() == 1 {
        assert(b.drop_last() =~= Seq::<char>::empty());
        assert(is_digit(b[0]));
        assert(b.last() == b[0]);
        assert(pow10(0) == 1);
        assert(digits_value(b) == digits_value(b.drop_last()) * 10 + digit_val(b.last()));
    } else {
        assert(all_digits(b.drop_last()));
        assert(b.drop_last()[0] == b[0]);
        lemma_dv_lower(b.drop_last());
        assert(is_digit(b.last()));
        assert(pow10((b.len() - 1) as nat) == 10 * pow10((b.len() - 2) as nat));
        assert(digits_value(b) == digits_value(b.drop_last()) * 10 + digit_val(b.last()));
    }
}

/// `min(x, c)`.
pub open spec fn capped(x: int, c: int) -> int {
    if x > c { c } else { x }
}

/// The first `k` digits of `g` followed by as many zeros as needed.
pub open spec fn padded(g: Seq<char>, k: nat) -> Seq<char> {
    if k <= g.len() { g.take(k as int) } else { g + zeros((k - g.len()) as nat) }
}

proof fn lemma_padded_step(g: Seq<char>, k: nat)
    ensures
        padded(g, k + 1) == padded(g, k).push(if k < g.len() { g[k as int] } else { '0' }),
{
    if k < g.len() {
        assert(g.take(k as int + 1) =~= g.take(k as int).push(g[k as int]));
    } else if k == g.len() {
        assert(g.take(k as int) =~= g);
        assert(g + zeros(1) =~= g.push('0'));
    } else {
        assert(g + zeros((k + 1 - g.len()) as nat) =~= (g + zeros((k - g.len()) as nat)).push('0'));
    }
}

proof fn lemma_padded_digits(g: Seq<char>, k: nat)
    requires
        all_digits(g),
    ensures
        all_digits(padded(g, k)),
{
}

proof fn lemma_dv_grows(g: Seq<char>, k: nat, m: nat)
    requires
        all_digits(g),
        k <= m,
    ensures
        digits_value(padded(g, k)) <= digits_value(padded(g, m)),
    decreases m - k,
{
    if k < m {
        lemma_dv_grows(g, k, (m - 1) as nat);
        lemma_padded_step(g, (m - 1) as nat);
        let prev = padded(g, (m - 1) as nat);
        let cur = padded(g, m);
        assert(cur.drop_last() =~= prev);
        lemma_padded_digits(g, (m - 1) as nat);
        lemma_digits_value_nonneg(prev);
        lemma_padded_digits(g, m);
        assert(is_digit(cur.last()));
    }
}

/// The whole part of `digits * 10^p` is the value of the digits padded or
/// cut to `len + p` places.
proof fn lemma_floor_is_padded(g: Seq<char>, p: int)
    requires
        all_digits(g),
        g.len() + p >= 0,
    ensures
        scaled_floor(g, p) == digits_value(padded(g, (g.len() + p) as nat)),
{
    lemma_digits_value_nonneg(g);
    if p >= 0 {
        lemma_dv_append(g, zeros(p as nat));
        lemma_dv_zeros(p as nat);
        lemma_pow10_pos(p as nat);
        assert(zeros(p as nat).len() == p);
        let x = digits_value(g);
        let q = pow10(p as nat);
        assert(x * q >= 0) by (nonlinear_arith)
            requires
                x >= 0,
                q >= 1,
        ;
        if p == 0 {
            assert(g.take(g.len() as int) =~= g);
            assert(pow10(0) == 1);
            assert(padded(g, g.len()) == g);
        } else {
            assert(padded(g, (g.len() + p) as nat) == g + zeros(p as nat));
        }
    } else {
        let k = (g.len() + p) as nat;
        let a = g.take(k as int);
        let b = g.skip(k as int);
        assert(a + b =~= g);
        lemma_dv_append(a, b);
        assert(all_digits(b));
        lemma_dv_bound(b);
        assert(all_digits(a));
        lemma_digits_value_nonneg(a);
        let q = pow10(b.len());
        assert(b.len() == -p);
        let x = digits_value(a);
        let y = digits_value(b);
        assert((x * q + y) / q == x) by (nonlinear_arith)
            requires
                0 <= y < q,
                0 <= x,
        ;
        assert(padded(g, k) == a);
    }
}

// ---------------------------------------------------------------------
// Reading

/// Read the digits of `v[from..to]`, saturating at [`EXP_CAP`].
fn read_wide(v: &[char], from: usize, to: usize) -> (r: Option<u128>)
    requires
        from <= to <= v@.len(),
    ensures
        match r {
            Some(n) => all_digits(v@.subrange(from as int, to as int)) && n == capped(
                digits_value(v@.subrange(from as int, to as int)),
                EXP_CAP as int,
            ),
            None => !all_digits(v@.subrange(from as int, to as int)),
        },
{
    let mut acc: u128 = 0;
    let mut i = from;
    while i < to
        invariant
            from <= i <= to <= v@.len(),
            all_digits(v@.subrange(from as int, i as int)),
            acc == capped(digits_value(v@.subrange(from as int, i as int)), EXP_CAP as int),
        decreases to - i,
    {
        let c = v[i];
        if !char_is_digit(c) {
            assert(v@.subrange(from as int, to as int)[i - from] == c);
            return None;
        }
        let d = char_digit(c);
        let ghost prev = v@.subrange(from as int, i as int);
        let next = acc * 10 + d;
        acc = if next > EXP_CAP { EXP_CAP } else { next };
        i = i + 1;
        proof {
            let cur = v@.subrange(from as int, i as int);
            assert(cur.drop_last() =~= prev);
            assert(cur.last() == c);
            lemma_digits_value_nonneg(prev);
        }
    }
    Some(acc)
}

/// The whole part of `g * 10^p`, capped at [`F32_INFINITE_FROM`].
fn capped_floor(g: &Vec<char>, p: i128) -> (r: u128)
    requires
        all_digits(g@),
        g@.len() + p >= 1,
        p <= 64,
    ensures
        r == capped(scaled_floor(g@, p as int) as int, F32_INFINITE_FROM as int),
{
    let n = g.len();
    let total = (n as i128 + p) as u128;
    proof {
        lemma_floor_is_padded(g@, p as int);
    }
    let ghost gv = g@;
    let mut acc: u128 = 0;
    let mut k: u128 = 0;
    assert(padded(gv, 0) =~= Seq::<char>::empty());
    proof {
        lemma_padded_digits(gv, total as nat);
        lemma_digits_value_nonneg(padded(gv, total as nat));
    }
    while k < total
        invariant
            gv == g@,
            n == gv.len(),
            all_digits(gv),
            total == gv.len() + p,
            scaled_floor(gv, p as int) == digits_value(padded(gv, total as nat)),
            k <= total,
            acc == capped(digits_value(padded(gv, k as nat)), F32_INFINITE_FROM as int),
            acc <= F32_INFINITE_FROM,
        decreases total - k,
    {
        let c = if k < n as u128 { g[k as usize] } else { '0' };
        proof {
            lemma_padded_step(gv, k as nat);
            lemma_padded_digits(gv, (k + 1) as nat);
            let cur = padded(gv, (k + 1) as nat);
            assert(cur.drop_last() =~= padded(gv, k as nat));
            assert(cur.last() == c);
            assert(is_digit(c));
        }
        let d = char_digit(c);
        proof {
            let x = digits_value(padded(gv, k as nat));
            lemma_padded_digits(gv, k as nat);
            lemma_digits_value_nonneg(padded(gv, k as nat));
            let cap = F32_INFINITE_FROM as int;
            assert(capped(10 * capped(x, cap) + d, cap) == capped(10 * x + d, cap)) by (nonlinear_arith)
                requires
                    x >= 0,
                    d >= 0,
                    cap >= 0,
            ;
        }
        if acc > (F32_INFINITE_FROM - d) / 10 {
            assert(acc * 10 + d > F32_INFINITE_FROM) by (nonlinear_arith)
                requires
                    acc > (F32_INFINITE_FROM - d) / 10,
                    d < 10,
            ;
            acc = F32_INFINITE_FROM;
        } else {
            assert(acc * 10 + d <= F32_INFINITE_FROM) by (nonlinear_arith)
                requires
                    acc <= (F32_INFINITE_FROM - d) / 10,
                    d < 10,
            ;
            acc = acc * 10 + d;
        }
        k = k + 1;
        if acc == F32_INFINITE_FROM {
            proof {
                lemma_dv_grows(gv, k as nat, total as nat);
                lemma_padded_digits(gv, total as nat);
                lemma_digits_value_nonneg(padded(gv, total as nat));
            }
            return acc;
        }
    }
    acc
}

/// The digits and fraction length of the plain mantissa `v[from..to]`.
fn mantissa_digits(v: &[char], from: usize, to: usize) -> (r: Option<(Vec<char>, usize)>)
    requires
        from <= to <= v@.len(),
    ensures
        match r {
            Some((g, f)) => mantissa_parts(v@.subrange(from as int, to as int)) == Some((g@, f as nat)),
            None => mantissa_parts(v@.subrange(from as int, to as int)) is None,
        },
{
    let ghost m = v@.subrange(from as int, to as int);
    let mut start = from;
    if from < to && (v[from] == '-' || v[from] == '+') {
        start = from + 1;
    }
    assert(sign_len(m) == start - from);
    let ghost body = m.skip(sign_len(m));
    assert(body =~= v@.subrange(start as int, to as int));
    let dot = find_char(v, start, to, '.');
    let (wend, fstart) = match dot {
        Some(i) => (i, i + 1),
        None => (to, to),
    };
    proof {
        match dot {
            Some(i) => {
                assert(body.take(i - start) =~= v@.subrange(start as int, i as int));
                assert(body.skip(i - start + 1) =~= v@.subrange(i + 1, to as int));
            },
            None => {
                assert(v@.subrange(to as int, to as int) =~= Seq::<char>::empty());
            },
        }
    }
    if read_wide(v, start, wend).is_none() || read_wide(v, fstart, to).is_none() || (wend - start) + (to - fstart)
        == 0 {
        return None;
    }
    let mut g: Vec<char> = Vec::new();
    let mut i = start;
    while i < wend
        invariant
            start <= i <= wend <= to <= v@.len(),
            g@ == v@.subrange(start as int, i as int),
        decreases wend - i,
    {
        g.push(v[i]);
        assert(g@ =~= v@.subrange(start as int, i + 1));
        i = i + 1;
    }
    let mut j = fstart;
    while j < to
        invariant
            start <= wend <= fstart <= j <= to <= v@.len(),
            g@ == v@.subrange(start as int, wend as int) + v@.subrange(fstart as int, j as int),
        decreases to - j,
    {
        g.push(v[j]);
        assert(g@ =~= v@.subrange(start as int, wend as int) + v@.subrange(fstart as int, j + 1));
        j = j + 1;
    }
    Some((g, to - fstart))
}

/// Whether the exponent `v[from..to]` (`[+-]digits`) is one: whether it
/// is negative, and its magnitude capped at [`EXP_CAP`].
fn exponent_digits(v: &[char], from: usize, to: usize) -> (r: Option<(bool, u128)>)
    requires
        from <= to <= v@.len(),
    ensures
        match r {
            Some((neg, m)) => exponent_value(v@.subrange(from as int, to as int)) matches Some(e) && m == capped(
                if e < 0 { -e } else { e },
                EXP_CAP as int,
            ) && (e < 0 ==> neg) && (e > 0 ==> !neg),
            None => exponent_value(v@.subrange(from as int, to as int)) is None,
        },
{
    let ghost t = v@.subrange(from as int, to as int);
    let mut start = from;
    let mut neg = false;
    if from < to && (v[from] == '-' || v[from] == '+') {
        neg = v[from] == '-';
        start = from + 1;
    }
    assert(sign_len(t) == start - from);
    assert(t.skip(sign_len(t)) =~= v@.subrange(start as int, to as int));
    if start == to {
        return None;
    }
    match read_wide(v, start, to) {
        Some(m) => {
            proof {
                lemma_digits_value_nonneg(v@.subrange(start as int, to as int));
            }
            Some((neg, m))
        },
        None => None,
    }
}

proof fn lemma_parts_at_mark(s: Seq<char>, i: int)
    requires
        is_first_mark(s, i),
    ensures
        number_parts(s) == match (mantissa_parts(s.take(i)), exponent_value(s.skip(i + 1))) {
            (Some((g, f)), Some(e)) => Some((g, e - f)),
            _ => None::<(Seq<char>, int)>,
        },
{
    let k = choose|k: int| is_first_mark(s, k);
    assert(is_first_mark(s, k));
    if k < i {
        assert(!crate::decimal::is_mark(s[k]));
    } else if i < k {
        assert(!crate::decimal::is_mark(s[i]));
    }
}

proof fn lemma_parts_no_mark(s: Seq<char>)
    requires
        forall|j: int| 0 <= j < s.len() ==> !crate::decimal::is_mark(#[trigger] s[j]),
    ensures
        number_parts(s) == match mantissa_parts(s) {
            Some((g, f)) => Some((g, -f)),
            None => None::<(Seq<char>, int)>,
        },
{
    if exists|i: int| is_first_mark(s, i) {
        let i = choose|i: int| is_first_mark(s, i);
        assert(crate::decimal::is_mark(s[i]));
    }
}

/// Whether the whole part of `g * 10^e / 10^flen` reaches
/// [`F32_INFINITE_FROM`], given `e` as a sign and a capped magnitude.
fn floor_overflows(g: &Vec<char>, flen: usize, neg: bool, m: u128, Ghost(e): Ghost<int>) -> (r: bool)
    requires
        all_digits(g@),
        m == capped(if e < 0 { -e } else { e }, EXP_CAP as int),
        e < 0 ==> neg,
        e > 0 ==> !neg,
    ensures
        r == (scaled_floor(g@, e - flen) >= F32_INFINITE_FROM),
{
    let ghost p = e - flen;
    // Leading zeros change nothing.
    let mut z: usize = 0;
    while z < g.len() && g[z] == '0'
        invariant
            z <= g@.len(),
            forall|j: int| 0 <= j < z ==> g@[j] == '0',
        decreases g@.len() - z,
    {
        z = z + 1;
    }
    proof {
        assert(g@.take(z as int) =~= zeros(z as nat));
        assert(g@.take(z as int) + g@.skip(z as int) =~= g@);
        lemma_dv_append(g@.take(z as int), g@.skip(z as int));
        lemma_dv_zeros(z as nat);
    }
    let ghost gs = g@.skip(z as int);
    assert(digits_value(g@) == digits_value(gs));
    assert(all_digits(gs));
    if z == g.len() {
        proof {
            assert(gs =~= Seq::<char>::empty());
            assert(digits_value(g@) == 0);
            if p >= 0 {
                let q = pow10(p as nat);
                assert(0 * q == 0) by (nonlinear_arith);
            } else {
                lemma_pow10_pos((-p) as nat);
                let q = pow10((-p) as nat);
                assert(0int / q == 0) by (nonlinear_arith)
                    requires
                        q >= 1,
                ;
            }
        }
        return false;
    }
    let mut h: Vec<char> = Vec::new();
    let mut i = z;
    while i < g.len()
        invariant
            z <= i <= g@.len(),
            h@ == g@.subrange(z as int, i as int),
        decreases g@.len() - i,
    {
        h.push(g[i]);
        assert(h@ =~= g@.subrange(z as int, i + 1));
        i = i + 1;
    }
    assert(h@ =~= gs);
    let n = h.len();
    proof {
        lemma_dv_lower(gs);
        lemma_pow10_pos((n - 1) as nat);
        lemma_dv_bound(gs);
    }
    proof {
        reveal_pow10_39();
    }
    if m == EXP_CAP {
        if !neg {
            // A huge positive exponent: at least 10^39, past the bound.
            proof {
                assert(p >= 39);
                lemma_pow10_mono(39, p as nat);
                let x = digits_value(gs);
                let q = pow10(p as nat);
                assert(x * q >= q) by (nonlinear_arith)
                    requires
                        x >= 1,
                        q >= 1,
                ;
            }
            return true;
        } else {
            // A huge negative exponent: the whole part is zero.
            proof {
                assert(p < 0 && -p >= n);
                lemma_pow10_mono(n as nat, (-p) as nat);
                let x = digits_value(gs);
                let q = pow10((-p) as nat);
                assert(x / q == 0) by (nonlinear_arith)
                    requires
                        0 <= x < q,
                ;
            }
            return false;
        }
    }
    let ev: i128 = if neg { -(m as i128) } else { m as i128 };
    assert(ev == e);
    let pe: i128 = ev - flen as i128;
    assert(pe == p);
    if pe >= 39 {
        proof {
            lemma_pow10_mono(39, p as nat);
            let x = digits_value(gs);
            let q = pow10(p as nat);
            assert(x * q >= q) by (nonlinear_arith)
                requires
                    x >= 1,
                    q >= 1,
            ;
        }
        return true;
    }
    if n as i128 + pe <= 0 {
        proof {
            lemma_pow10_mono(n as nat, (-p) as nat);
            let x = digits_value(gs);
            let q = pow10((-p) as nat);
            assert(x / q == 0) by (nonlinear_arith)
                requires
                    0 <= x < q,
            ;
        }
        return false;
    }
    let r = capped_floor(&h, pe);
    r == F32_INFINITE_FROM
}

proof fn reveal_pow10_39()
    ensures
        pow10(39) == 1_000_000_000_000_000_000_000_000_000_000_000_000_000,
{
    reveal_with_fuel(pow10, 40);
}

/// Whether the number `v[from..to]` spells (see
/// [`crate::decimal::parse_dec`]) has a magnitude that rounds to infinity
/// as an `f32`; false when it is not a number.
pub fn overflows_f32(v: &[char], from: usize, to: usize) -> (r: bool)
    requires
        from <= to <= v@.len(),
    ensures
        r == f32_overflow(v@.subrange(from as int, to as int)),
{
    let ghost s = v@.subrange(from as int, to as int);
    match find_mark(v, from, to) {
        Some(i) => {
            proof {
                lemma_parts_at_mark(s, i - from);
                assert(s.take(i - from) =~= v@.subrange(from as int, i as int));
                assert(s.skip(i - from + 1) =~= v@.subrange(i + 1, to as int));
            }
            let (g, f) = match mantissa_digits(v, from, i) {
                Some(x) => x,
                None => return false,
            };
            let (neg, m) = match exponent_digits(v, i + 1, to) {
                Some(x) => x,
                None => return false,
            };
            let ghost e = exponent_value(v@.subrange(i + 1, to as int)).unwrap();
            proof {
                assert(all_digits(g@)) by {
                    assert(mantissa_parts(v@.subrange(from as int, i as int)) == Some((g@, f as nat)));
                    lemma_mantissa_digits(v@.subrange(from as int, i as int));
                }
            }
            floor_overflows(&g, f, neg, m, Ghost(e))
        },
        None => {
            proof {
                assert forall|j: int| 0 <= j < s.len() implies !crate::decimal::is_mark(#[trigger] s[j]) by {
                    assert(s[j] == v@[from + j]);
                }
                lemma_parts_no_mark(s);
            }
            let (g, f) = match mantissa_digits(v, from, to) {
                Some(x) => x,
                None => return false,
            };
            proof {
                lemma_mantissa_digits(s);
            }
            floor_overflows(&g, f, false, 0, Ghost(0))
        },
    }
}

proof fn lemma_mantissa_digits(m: Seq<char>)
    ensures
        mantissa_parts(m) matches Some((g, f)) ==> all_digits(g),
{
    let body = m.skip(sign_len(m));
    if let Some((g, f)) = mantissa_parts(m) {
        let (whole, frac) = match first_index(body, '.') {
            Some(i) => (body.take(i), body.skip(i + 1)),
            None => (body, Seq::<char>::empty()),
        };
        assert(g == whole + frac);
        assert forall|j: int| 0 <= j < g.len() implies is_digit(#[trigger] g[j]) by {
            if j < whole.len() {
                assert(g[j] == whole[j]);
            } else {
                assert(g[j] == frac[j - whole.len()]);
            }
        }
    }
}

} // verus!
