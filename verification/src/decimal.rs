//! Fixed-point decimal numbers for diagram geometry.
//!
//! Coordinates, sizes and stencil transforms are held as whole millionths
//! of a drawio user unit (six fractional digits). Results beyond
//! `±10^12` units saturate at that bound. Text input is read with the
//! decimal grammar drawio files use (`[+-]digits[.digits]`, optionally
//! with an exponent such as `1e0` or `2.5E-1`); printing
//! omits trailing zeros, so `78` prints as `78` and `39.5` as `39.5`.

use vstd::prelude::*;
use crate::text::{first_index, push_char};

verus! {

/// Millionths per unit.
pub const SCALE: i128 = 1_000_000;

/// Largest magnitude held, in millionths (`10^12` units).
pub const LIMIT: i128 = 1_000_000_000_000_000_000;

pub open spec fn clamp(x: int) -> int {
    if x > LIMIT {
        LIMIT as int
    } else if x < -LIMIT {
        -LIMIT
    } else {
        x
    }
}

/// Division rounding toward zero.
pub open spec fn tdiv(a: int, b: int) -> int {
    if (a >= 0) == (b > 0) {
        abs(a) / abs(b)
    } else {
        -(abs(a) / abs(b))
    }
}

pub open spec fn abs(a: int) -> int {
    if a < 0 {
        -a
    } else {
        a
    }
}

pub open spec fn dadd(a: int, b: int) -> int {
    clamp(a + b)
}

pub open spec fn dsub(a: int, b: int) -> int {
    clamp(a - b)
}

pub open spec fn dmul(a: int, b: int) -> int {
    clamp(tdiv(a * b, SCALE as int))
}

pub open spec fn ddiv(a: int, b: int) -> int {
    clamp(tdiv(a * SCALE, b))
}

pub open spec fn dmin(a: int, b: int) -> int {
    if a <= b {
        a
    } else {
        b
    }
}

pub open spec fn dmax(a: int, b: int) -> int {
    if a >= b {
        a
    } else {
        b
    }
}

/// Millionths for a whole number of units.
pub open spec fn units(n: int) -> int {
    clamp(n * SCALE)
}

/// A fixed-point decimal: a whole number of millionths of a unit.
#[derive(Clone, Copy, Debug, PartialEq, Eq)]
pub struct Decimal {
    micros: i128,
}

impl View for Decimal {
    type V = int;

    closed spec fn view(&self) -> int {
        self.micros as int
    }
}

impl Decimal {
    #[verifier::type_invariant]
    spec fn in_range(self) -> bool {
        -LIMIT <= self.micros <= LIMIT
    }

    /// Brings the range of the value into the proof context.
    pub fn bounds(&self)
        ensures
            -LIMIT <= self@ <= LIMIT,
    {
        proof {
            use_type_invariant(self);
        }
    }

    /// The value holding `m` millionths, saturated at the bounds.
    pub fn from_micros(m: i128) -> (r: Decimal)
        ensures
            r@ == clamp(m as int),
    {
        let v = if m > LIMIT {
            LIMIT
        } else if m < -LIMIT {
            -LIMIT
        } else {
            m
        };
        Decimal { micros: v }
    }

    /// The number of millionths.
    pub fn micros(&self) -> (r: i128)
        ensures
            r == self@,
            -LIMIT <= r <= LIMIT,
    {
        proof {
            use_type_invariant(self);
        }
        self.micros
    }

    /// The whole number `n`.
    pub fn from_int(n: i64) -> (r: Decimal)
        ensures
            r@ == units(n as int),
    {
        assert(-9223372036854775808 * 1000000 <= n * 1000000 <= 9223372036854775807 * 1000000)
            by (nonlinear_arith);
        Self::from_micros(n as i128 * SCALE)
    }

    pub fn zero() -> (r: Decimal)
        ensures
            r@ == 0,
    {
        Decimal { micros: 0 }
    }

    pub fn add(self, other: Decimal) -> (r: Decimal)
        ensures
            r@ == dadd(self@, other@),
    {
        proof {
            use_type_invariant(self);
            use_type_invariant(other);
        }
        Self::from_micros(self.micros + other.micros)
    }

    pub fn sub(self, other: Decimal) -> (r: Decimal)
        ensures
            r@ == dsub(self@, other@),
    {
        proof {
            use_type_invariant(self);
            use_type_invariant(other);
        }
        Self::from_micros(self.micros - other.micros)
    }

    pub fn neg(self) -> (r: Decimal)
        ensures
            r@ == -self@,
    {
        proof {
            use_type_invariant(self);
        }
        Decimal { micros: -self.micros }
    }

    pub fn abs(self) -> (r: Decimal)
        ensures
            r@ == abs(self@),
    {
        proof {
            use_type_invariant(self);
        }
        if self.micros < 0 {
            Decimal { micros: -self.micros }
        } else {
            self
        }
    }

    pub fn min(self, other: Decimal) -> (r: Decimal)
        ensures
            r@ == dmin(self@, other@),
    {
        if self.micros <= other.micros {
            self
        } else {
            other
        }
    }

    pub fn max(self, other: Decimal) -> (r: Decimal)
        ensures
            r@ == dmax(self@, other@),
    {
        if self.micros >= other.micros {
            self
        } else {
            other
        }
    }

    pub fn lt(&self, other: &Decimal) -> (r: bool)
        ensures
            r == (self@ < other@),
    {
        self.micros < other.micros
    }

    pub fn le(&self, other: &Decimal) -> (r: bool)
        ensures
            r == (self@ <= other@),
    {
        self.micros <= other.micros
    }

    pub fn eq(&self, other: &Decimal) -> (r: bool)
        ensures
            r == (self@ == other@),
    {
        self.micros == other.micros
    }

    pub fn is_zero(&self) -> (r: bool)
        ensures
            r == (self@ == 0),
    {
        self.micros == 0
    }

    pub fn is_positive(&self) -> (r: bool)
        ensures
            r == (self@ > 0),
    {
        self.micros > 0
    }

    /// Product, rounded toward zero to a whole millionth.
    pub fn mul(self, other: Decimal) -> (r: Decimal)
        ensures
            r@ == dmul(self@, other@),
    {
        proof {
            use_type_invariant(self);
            use_type_invariant(other);
        }
        let a = self.micros;
        let b = other.micros;
        let ua: u128 = if a < 0 { (-a) as u128 } else { a as u128 };
        let ub: u128 = if b < 0 { (-b) as u128 } else { b as u128 };
        assert(ua * ub <= 1_000_000_000_000_000_000_000_000_000_000_000_000) by (nonlinear_arith)
            requires
                ua <= 1_000_000_000_000_000_000,
                ub <= 1_000_000_000_000_000_000,
        ;
        let p = ua * ub;
        let q = p / (SCALE as u128);
        assert(q <= 1_000_000_000_000_000_000_000_000_000_000) by (nonlinear_arith)
            requires
                p <= 1_000_000_000_000_000_000_000_000_000_000_000_000,
                q == p / 1_000_000,
        ;
        proof {
            assert(abs(a * b) == ua * ub) by (nonlinear_arith)
                requires
                    ua == abs(a as int),
                    ub == abs(b as int),
            ;
        }
        let neg = (a < 0) != (b < 0) && q != 0;
        let v: i128 = if neg { -(q as i128) } else { q as i128 };
        proof {
            if a == 0 || b == 0 {
                assert(a * b == 0) by (nonlinear_arith)
                    requires
                        a == 0 || b == 0,
                ;
            } else if (a < 0) != (b < 0) {
                assert(a * b < 0) by (nonlinear_arith)
                    requires
                        (a < 0) != (b < 0),
                        a != 0,
                        b != 0,
                ;
            } else {
                assert(a * b > 0) by (nonlinear_arith)
                    requires
                        (a < 0) == (b < 0),
                        a != 0,
                        b != 0,
                ;
            }
        }
        Self::from_micros(v)
    }

    /// Quotient, rounded toward zero to a whole millionth.
    pub fn div(self, other: Decimal) -> (r: Decimal)
        requires
            other@ != 0,
        ensures
            r@ == ddiv(self@, other@),
    {
        proof {
            use_type_invariant(self);
            use_type_invariant(other);
        }
        let a = self.micros;
        let b = other.micros;
        let ua: u128 = if a < 0 { (-a) as u128 } else { a as u128 };
        let ub: u128 = if b < 0 { (-b) as u128 } else { b as u128 };
        assert(ua <= 1_000_000_000_000_000_000);
        let p = ua * 1_000_000u128;
        let q = p / ub;
        assert(q <= p) by (nonlinear_arith)
            requires
                ub >= 1,
                q == p / ub,
        ;
        let neg = (a < 0) != (b < 0) && q != 0;
        let v: i128 = if neg { -(q as i128) } else { q as i128 };
        Self::from_micros(v)
    }

    /// Half the value, rounded toward zero.
    pub fn half(self) -> (r: Decimal)
        ensures
            r@ == tdiv(self@, 2),
    {
        proof {
            use_type_invariant(self);
        }
        let a = self.micros;
        if a < 0 {
            Decimal { micros: -((-a) / 2) }
        } else {
            Decimal { micros: a / 2 }
        }
    }
}

// ---------------------------------------------------------------------
// Printing
// ---------------------------------------------------------------------

pub open spec fn digit_char(d: int) -> char {
    if d == 0 {
        '0'
    } else if d == 1 {
        '1'
    } else if d == 2 {
        '2'
    } else if d == 3 {
        '3'
    } else if d == 4 {
        '4'
    } else if d == 5 {
        '5'
    } else if d == 6 {
        '6'
    } else if d == 7 {
        '7'
    } else if d == 8 {
        '8'
    } else {
        '9'
    }
}

/// Decimal digits of `n`, most significant first, without leading zeros.
pub open spec fn nat_digits(n: nat) -> Seq<char>
    decreases n,
{
    if n < 10 {
        seq![digit_char(n as int)]
    } else {
        nat_digits(n / 10).push(digit_char((n % 10) as int))
    }
}

/// The last `k` decimal digits of `n`, zero-padded on the left.
pub open spec fn fixed_digits(n: nat, k: nat) -> Seq<char>
    decreases k,
{
    if k == 0 {
        Seq::empty()
    } else {
        fixed_digits(n / 10, (k - 1) as nat).push(digit_char((n % 10) as int))
    }
}

/// `s` without trailing `'0'` characters.
pub open spec fn strip_zeros(s: Seq<char>) -> Seq<char>
    decreases s.len(),
{
    if s.len() > 0 && s.last() == '0' {
        strip_zeros(s.drop_last())
    } else {
        s
    }
}

/// How a value of `v` millionths is printed.
pub open spec fn fmt_dec(v: int) -> Seq<char> {
    let m = abs(v);
    let sign = if v < 0 {
        seq!['-']
    } else {
        Seq::<char>::empty()
    };
    let whole = nat_digits((m / (SCALE as int)) as nat);
    let frac = m % (SCALE as int);
    if frac == 0 {
        sign + whole
    } else {
        sign + whole + seq!['.'] + strip_zeros(fixed_digits(frac as nat, 6))
    }
}

/// A whole number of units prints as its digits alone, with no fractional
/// part.
pub proof fn law_whole_numbers_print_without_fraction(n: nat)
    requires
        n <= 1_000_000_000_000,
    ensures
        fmt_dec(units(n as int)) == nat_digits(n),
{
    assert(n * 1_000_000 <= 1_000_000_000_000_000_000) by (nonlinear_arith)
        requires
            n <= 1_000_000_000_000,
    ;
    assert((n * 1_000_000) / 1_000_000 == n && (n * 1_000_000) % 1_000_000 == 0) by (nonlinear_arith);
    assert(Seq::<char>::empty() + nat_digits(n) =~= nat_digits(n));
}

pub fn digit(d: u128) -> (c: char)
    requires
        d < 10,
    ensures
        c == digit_char(d as int),
{
    if d == 0 {
        '0'
    } else if d == 1 {
        '1'
    } else if d == 2 {
        '2'
    } else if d == 3 {
        '3'
    } else if d == 4 {
        '4'
    } else if d == 5 {
        '5'
    } else if d == 6 {
        '6'
    } else if d == 7 {
        '7'
    } else if d == 8 {
        '8'
    } else {
        '9'
    }
}

/// Append the decimal digits of `n`.
pub fn push_nat(out: &mut String, n: u128)
    ensures
        final(out)@ == old(out)@ + nat_digits(n as nat),
    decreases n,
{
    if n < 10 {
        push_char(out, digit(n));
    } else {
        push_nat(out, n / 10);
        push_char(out, digit(n % 10));
        assert(old(out)@ + nat_digits(n as nat) =~= old(out)@ + nat_digits((n / 10) as nat) + seq![
            digit_char((n % 10) as int),
        ]);
    }
}

/// Append the last `k` digits of `n`, zero-padded.
fn push_fixed(out: &mut String, n: u128, k: u32)
    ensures
        final(out)@ == old(out)@ + fixed_digits(n as nat, k as nat),
    decreases k,
{
    if k > 0 {
        push_fixed(out, n / 10, k - 1);
        push_char(out, digit(n % 10));
        assert(old(out)@ + fixed_digits(n as nat, k as nat) =~= old(out)@ + fixed_digits(
            (n / 10) as nat,
            (k - 1) as nat,
        ) + seq![digit_char((n % 10) as int)]);
    } else {
        assert(old(out)@ + fixed_digits(n as nat, k as nat) =~= old(out)@);
    }
}

proof fn lemma_strip_step(n: nat, k: nat)
    requires
        k > 0,
    ensures
        n % 10 == 0 ==> strip_zeros(fixed_digits(n, k)) == strip_zeros(fixed_digits(n / 10, (k - 1) as nat)),
        n % 10 != 0 ==> strip_zeros(fixed_digits(n, k)) == fixed_digits(n, k),
{
    let s = fixed_digits(n, k);
    assert(s.drop_last() =~= fixed_digits(n / 10, (k - 1) as nat));
    assert(s.last() == digit_char((n % 10) as int));
}

/// Append the printed form (see [`fmt_dec`]) of `v` millionths.
pub fn write_micros(out: &mut String, v: i128)
    requires
        -COORD_LIMIT <= v <= COORD_LIMIT,
    ensures
        final(out)@ == old(out)@ + fmt_dec(v as int),
{
    let m: u128 = if v < 0 { (-v) as u128 } else { v as u128 };
    if v < 0 {
        push_char(out, '-');
    }
    push_nat(out, m / (SCALE as u128));
    let frac = m % (SCALE as u128);
    if frac != 0 {
        push_char(out, '.');
        let mut f = frac;
        let mut k: u32 = 6;
        proof {
            reveal_with_fuel(pow10, 7);
        }
        while f % 10 == 0
            invariant
                0 < f <= frac,
                k <= 6,
                k > 0,
                f < pow10(k as nat),
                strip_zeros(fixed_digits(frac as nat, 6)) == strip_zeros(fixed_digits(f as nat, k as nat)),
            decreases k,
        {
            proof {
                lemma_strip_step(f as nat, k as nat);
                lemma_shift_digit(f as nat, k as nat);
            }
            f = f / 10;
            k = k - 1;
        }
        proof {
            lemma_strip_step(f as nat, k as nat);
        }
        push_fixed(out, f, k);
    }
    proof {
        assert(old(out)@ + fmt_dec(v as int) =~= out@);
    }
}

impl Decimal {
    /// Append the printed form of this value: an optional `-`, the whole
    /// part, and — when not whole — a `.` with the fraction's significant
    /// digits.
    pub fn write(&self, out: &mut String)
        ensures
            final(out)@ == old(out)@ + fmt_dec(self@),
    {
        proof {
            use_type_invariant(self);
        }
        write_micros(out, self.micros);
    }

    /// The printed form of this value.
    pub fn to_text(&self) -> (r: String)
        ensures
            r@ == fmt_dec(self@),
    {
        let mut s = String::new();
        self.write(&mut s);
        s
    }
}

proof fn lemma_shift_digit(f: nat, k: nat)
    requires
        0 < f < pow10(k),
        k > 0,
        f % 10 == 0,
    ensures
        k > 1,
        0 < f / 10 < pow10((k - 1) as nat),
{
    if k == 1 {
        reveal_with_fuel(pow10, 2);
    }
}

// ---------------------------------------------------------------------
// Coordinates held to half a millionth
// ---------------------------------------------------------------------

/// Largest magnitude of a coordinate, in millionths (four times the bound
/// of a value, room for sums of positions and sizes).
pub const COORD_LIMIT: i128 = 4_000_000_000_000_000_000;

/// How a coordinate of `h` half-millionths is printed: as [`fmt_dec`] of
/// its millionths when whole, else with all six fractional digits and a
/// final `5`.
pub open spec fn fmt_half(h: int) -> Seq<char> {
    if h % 2 == 0 {
        fmt_dec(h / 2)
    } else {
        let m = abs(h) / 2;
        let sign = if h < 0 {
            seq!['-']
        } else {
            Seq::<char>::empty()
        };
        sign + nat_digits((m / (SCALE as int)) as nat) + seq!['.'] + fixed_digits((m % (SCALE as int)) as nat, 6)
            + seq!['5']
    }
}

/// A position held exactly to half a millionth of a unit, so that the
/// centre of any cell is exact.
#[derive(Clone, Copy, Debug, PartialEq, Eq)]
pub struct Coord {
    halves: i128,
}

impl View for Coord {
    type V = int;

    /// The coordinate in half-millionths.
    closed spec fn view(&self) -> int {
        self.halves as int
    }
}

impl Coord {
    #[verifier::type_invariant]
    spec fn in_range(self) -> bool {
        -2 * COORD_LIMIT <= self.halves <= 2 * COORD_LIMIT
    }

    /// Brings the range of the value into the proof context.
    pub fn bounds(&self)
        ensures
            -2 * COORD_LIMIT <= self@ <= 2 * COORD_LIMIT,
    {
        proof {
            use_type_invariant(self);
        }
    }

    /// The coordinate `h` half-millionths.
    pub fn from_halves(h: i128) -> (r: Coord)
        requires
            -2 * COORD_LIMIT <= h <= 2 * COORD_LIMIT,
        ensures
            r@ == h,
    {
        Coord { halves: h }
    }

    /// The coordinate at the value `d`.
    pub fn from_decimal(d: Decimal) -> (r: Coord)
        ensures
            r@ == 2 * d@,
    {
        d.bounds();
        Coord { halves: 2 * d.micros() }
    }

    /// The number of half-millionths.
    pub fn halves(&self) -> (r: i128)
        ensures
            r == self@,
            -2 * COORD_LIMIT <= r <= 2 * COORD_LIMIT,
    {
        proof {
            use_type_invariant(self);
        }
        self.halves
    }

    /// Whether two coordinates are equal.
    pub fn eq(&self, other: &Coord) -> (r: bool)
        ensures
            r == (self@ == other@),
    {
        self.halves == other.halves
    }

    /// Append the printed form of this coordinate (see [`fmt_half`]).
    pub fn write(&self, out: &mut String)
        ensures
            final(out)@ == old(out)@ + fmt_half(self@),
    {
        proof {
            use_type_invariant(self);
        }
        let h = self.halves;
        let a: u128 = if h < 0 { (-h) as u128 } else { h as u128 };
        if a % 2 == 0 {
            let v: i128 = if h < 0 { -((a / 2) as i128) } else { (a / 2) as i128 };
            assert(v == h / 2);
            write_micros(out, v);
        } else {
            let m = a / 2;
            if h < 0 {
                push_char(out, '-');
            }
            push_nat(out, m / (SCALE as u128));
            push_char(out, '.');
            push_fixed(out, m % (SCALE as u128), 6);
            push_char(out, '5');
            proof {
                assert(h % 2 != 0);
                assert(m == abs(h as int) / 2);
                let sign = if h < 0 {
                    seq!['-']
                } else {
                    Seq::<char>::empty()
                };
                assert(out@ =~= old(out)@ + fmt_half(self@));
            }
        }
    }

    /// The printed form of this coordinate.
    pub fn to_text(&self) -> (r: String)
        ensures
            r@ == fmt_half(self@),
    {
        let mut s = String::new();
        self.write(&mut s);
        s
    }
}

/// A whole number of millionths prints as the value does.
pub proof fn law_even_halves_print_as_values(v: int)
    ensures
        fmt_half(2 * v) == fmt_dec(v),
{
    assert((2 * v) % 2 == 0);
    assert((2 * v) / 2 == v);
}

// ---------------------------------------------------------------------
// Reading
// ---------------------------------------------------------------------

pub open spec fn is_digit(c: char) -> bool {
    '0' <= c && c <= '9'
}

pub open spec fn digit_val(c: char) -> int {
    (c as int) - ('0' as int)
}

pub open spec fn all_digits(s: Seq<char>) -> bool {
    forall|i: int| 0 <= i < s.len() ==> is_digit(#[trigger] s[i])
}

/// Value of a string of decimal digits.
pub open spec fn digits_value(s: Seq<char>) -> int
    decreases s.len(),
{
    if s.len() == 0 {
        0
    } else {
        digits_value(s.drop_last()) * 10 + digit_val(s.last())
    }
}

/// The first six characters of `s` followed by zeros, as millionths.
pub open spec fn frac_micros(s: Seq<char>) -> int {
    digits_value((s + seq!['0', '0', '0', '0', '0', '0']).take(6))
}

/// Whether `s` is a decimal number `[+-]digits[.digits]` with at least
/// one digit.
pub open spec fn sign_len(s: Seq<char>) -> int {
    if s.len() > 0 && (s[0] == '-' || s[0] == '+') {
        1
    } else {
        0
    }
}

/// The number `s` spells in plain decimal notation `[+-]digits[.digits]`
/// (at least one digit), in millionths: the fraction truncated to six
/// digits, saturated at the bounds; `None` when `s` is not one.
pub open spec fn parse_plain(s: Seq<char>) -> Option<int> {
    let body = s.skip(sign_len(s));
    let neg = sign_len(s) == 1 && s[0] == '-';
    let (whole, frac) = match first_index(body, '.') {
        Some(i) => (body.take(i), body.skip(i + 1)),
        None => (body, Seq::<char>::empty()),
    };
    if all_digits(whole) && all_digits(frac) && whole.len() + frac.len() > 0 {
        let m = clamp(digits_value(whole) * SCALE + frac_micros(frac));
        Some(if neg { -m } else { m })
    } else {
        None
    }
}

/// An exponent marker.
pub open spec fn is_mark(c: char) -> bool {
    c == 'e' || c == 'E'
}

/// `i` is the position of the first exponent marker in `s`.
pub open spec fn is_first_mark(s: Seq<char>, i: int) -> bool {
    &&& 0 <= i < s.len()
    &&& is_mark(s[i])
    &&& forall|j: int| 0 <= j < i ==> !is_mark(#[trigger] s[j])
}

/// The exponent `[+-]digits` (at least one digit) spells, if it is one.
pub open spec fn exponent_value(t: Seq<char>) -> Option<int> {
    let digits = t.skip(sign_len(t));
    if digits.len() > 0 && all_digits(digits) {
        Some(if sign_len(t) == 1 && t[0] == '-' { -digits_value(digits) } else { digits_value(digits) })
    } else {
        None
    }
}

/// A magnitude of `u` millionths scaled by `10^e`: saturated at the bound
/// when growing, truncated when shrinking.
pub open spec fn scale_mag(u: nat, e: int) -> nat {
    if e >= 0 {
        let x = u * pow10(e as nat);
        if x > LIMIT { LIMIT as nat } else { x as nat }
    } else {
        u / (pow10((-e) as nat) as nat)
    }
}

/// `m` millionths scaled by `10^e` (saturated, truncated toward zero).
pub open spec fn scale_exp(m: int, e: int) -> int {
    if m < 0 {
        -scale_mag((-m) as nat, e)
    } else {
        scale_mag(m as nat, e) as int
    }
}

/// The number `s` spells, in millionths: plain decimal notation
/// `[+-]digits[.digits]` (see [`parse_plain`]), optionally followed by an
/// exponent `e` or `E` and `[+-]digits`, which scales the plain value
/// (saturating at the bounds, truncating toward zero); `None` when `s` is
/// not such a number.
pub open spec fn parse_dec(s: Seq<char>) -> Option<int> {
    if exists|i: int| is_first_mark(s, i) {
        let i = choose|i: int| is_first_mark(s, i);
        match (parse_plain(s.take(i)), exponent_value(s.skip(i + 1))) {
            (Some(m), Some(e)) => Some(scale_exp(m, e)),
            _ => None,
        }
    } else {
        parse_plain(s)
    }
}

proof fn lemma_no_mark(s: Seq<char>)
    requires
        forall|i: int| 0 <= i < s.len() ==> !is_mark(#[trigger] s[i]),
    ensures
        parse_dec(s) == parse_plain(s),
{
    if exists|i: int| is_first_mark(s, i) {
        let i = choose|i: int| is_first_mark(s, i);
        assert(is_mark(s[i]));
    }
}

proof fn lemma_first_mark(s: Seq<char>, i: int)
    requires
        is_first_mark(s, i),
    ensures
        parse_dec(s) == match (parse_plain(s.take(i)), exponent_value(s.skip(i + 1))) {
            (Some(m), Some(e)) => Some(scale_exp(m, e)),
            _ => None::<int>,
        },
{
    let k = choose|k: int| is_first_mark(s, k);
    assert(is_first_mark(s, k));
    if k < i {
        assert(!is_mark(s[k]));
    } else if i < k {
        assert(!is_mark(s[i]));
    }
}

pub(crate) proof fn lemma_pow10_mono(a: nat, b: nat)
    requires
        a <= b,
    ensures
        pow10(a) <= pow10(b),
        pow10(a) >= 1,
    decreases b,
{
    if a < b {
        lemma_pow10_mono(a, (b - 1) as nat);
    } else {
        lemma_pow10_pos(a);
    }
}

pub(crate) proof fn lemma_pow10_pos(a: nat)
    ensures
        pow10(a) >= 1,
    decreases a,
{
    if a > 0 {
        lemma_pow10_pos((a - 1) as nat);
    }
}

/// Exponents beyond 19 either way change nothing more for magnitudes
/// within the bound.
proof fn lemma_scale_cap(u: nat, e: int)
    requires
        u <= LIMIT,
    ensures
        scale_mag(u, e) == scale_mag(u, if e > 19 { 19 } else if e < -19 { -19 } else { e }),
{
    assert(pow10(19) == 10_000_000_000_000_000_000) by {
        reveal_with_fuel(pow10, 20);
    }
    if e > 19 {
        lemma_pow10_mono(19, e as nat);
        let p = pow10(e as nat);
        let q = pow10(19);
        if u > 0 {
            assert(u * p >= p) by (nonlinear_arith)
                requires
                    u >= 1,
                    p >= 1,
            ;
            assert(u * q >= q) by (nonlinear_arith)
                requires
                    u >= 1,
                    q >= 1,
            ;
            assert(scale_mag(u, e) == LIMIT);
            assert(scale_mag(u, 19) == LIMIT);
        } else {
            assert(u * p == 0) by (nonlinear_arith)
                requires
                    u == 0,
            ;
            assert(u * q == 0) by (nonlinear_arith)
                requires
                    u == 0,
            ;
        }
    } else if e < -19 {
        lemma_pow10_mono(19, (-e) as nat);
        let p = pow10((-e) as nat);
        let q = pow10(19);
        assert(u / (p as nat) == 0) by (nonlinear_arith)
            requires
                u < p,
                p >= 1,
        ;
        assert(u / (q as nat) == 0) by (nonlinear_arith)
            requires
                u < q,
                q >= 1,
        ;
    }
}

/// Saturation bound for the whole part while reading.
pub const WHOLE_CAP: u128 = 1_000_000_000_001;

pub(crate) proof fn lemma_digits_value_nonneg(s: Seq<char>)
    requires
        all_digits(s),
    ensures
        digits_value(s) >= 0,
    decreases s.len(),
{
    if s.len() > 0 {
        assert(all_digits(s.drop_last()));
        lemma_digits_value_nonneg(s.drop_last());
    }
}

proof fn lemma_frac_bound(s: Seq<char>)
    requires
        s.len() <= 6,
        all_digits(s),
    ensures
        0 <= digits_value(s) < pow10(s.len()),
    decreases s.len(),
{
    if s.len() > 0 {
        assert(all_digits(s.drop_last()));
        lemma_frac_bound(s.drop_last());
        assert(is_digit(s[s.len() - 1]));
    }
}

pub open spec fn pow10(n: nat) -> int
    decreases n,
{
    if n == 0 {
        1
    } else {
        10 * pow10((n - 1) as nat)
    }
}

/// Whether `c` is an ASCII digit.
pub fn char_is_digit(c: char) -> (r: bool)
    ensures
        r == is_digit(c),
{
    '0' <= c && c <= '9'
}

pub(crate) fn char_digit(c: char) -> (r: u128)
    requires
        is_digit(c),
    ensures
        r == digit_val(c),
        r < 10,
{
    (c as u32 - '0' as u32) as u128
}

/// The first six digits of `v[from..to]`, zero-padded, as millionths.
fn read_frac(v: &[char], from: usize, to: usize) -> (f: u128)
    requires
        from <= to <= v@.len(),
        all_digits(v@.subrange(from as int, to as int)),
    ensures
        f == frac_micros(v@.subrange(from as int, to as int)),
        f < 1_000_000,
{
    let ghost fs = v@.subrange(from as int, to as int);
    let ghost padded = (fs + seq!['0', '0', '0', '0', '0', '0']).take(6);
    let mut f: u128 = 0;
    let mut k: usize = 0;
    proof {
        reveal_with_fuel(pow10, 7);
    }
    while k < 6
        invariant
            k <= 6,
            from <= to <= v@.len(),
            fs == v@.subrange(from as int, to as int),
            all_digits(fs),
            padded == (fs + seq!['0', '0', '0', '0', '0', '0']).take(6),
            f == digits_value(padded.take(k as int)),
            f < pow10(k as nat),
            pow10(6) == 1_000_000,
        decreases 6 - k,
    {
        let d: u128 = if k < to - from {
            assert(is_digit(fs[k as int]));
            char_digit(v[from + k])
        } else {
            0
        };
        proof {
            assert(padded[k as int] == if (k as int) < fs.len() { fs[k as int] } else { '0' });
            assert(padded.take(k + 1).drop_last() =~= padded.take(k as int));
            lemma_pow10_small(k as nat);
        }
        f = f * 10 + d;
        k = k + 1;
    }
    assert(padded.take(6) =~= padded);
    f
}

proof fn lemma_pow10_small(k: nat)
    requires
        k < 6,
    ensures
        pow10(k) <= 100_000,
        pow10(k + 1) == 10 * pow10(k),
{
    reveal_with_fuel(pow10, 7);
}

/// Read `v[from..to]` as a run of digits, saturating at `WHOLE_CAP`;
/// `None` when a non-digit occurs.
pub(crate) fn read_digits(v: &[char], from: usize, to: usize) -> (r: Option<u128>)
    requires
        from <= to <= v@.len(),
    ensures
        match r {
            Some(n) => all_digits(v@.subrange(from as int, to as int)) && n == dmin(
                digits_value(v@.subrange(from as int, to as int)),
                WHOLE_CAP as int,
            ),
            None => !all_digits(v@.subrange(from as int, to as int)),
        },
{
    let mut acc: u128 = 0;
    let mut i = from;
    while i < to
        invariant
            from <= i <= to <= v@.len(),
            all_digits(v@.subrange(from as int, i as int)),
            acc == dmin(digits_value(v@.subrange(from as int, i as int)), WHOLE_CAP as int),
        decreases to - i,
    {
        let c = v[i];
        if !char_is_digit(c) {
            assert(v@.subrange(from as int, to as int)[i - from] == c);
            return None;
        }
        let d = char_digit(c);
        let ghost prev = v@.subrange(from as int, i as int);
        let next = acc * 10 + d;
        acc = if next > WHOLE_CAP { WHOLE_CAP } else { next };
        i = i + 1;
        proof {
            let cur = v@.subrange(from as int, i as int);
            assert(cur.drop_last() =~= prev);
            assert(cur.last() == c);
            lemma_digits_value_nonneg(prev);
        }
    }
    Some(acc)
}

impl Decimal {
    /// Read `v[from..to]` in plain decimal notation (see [`parse_plain`]).
    fn parse_plain_range(v: &[char], from: usize, to: usize) -> (r: Option<Decimal>)
        requires
            from <= to <= v@.len(),
        ensures
            match r {
                Some(d) => parse_plain(v@.subrange(from as int, to as int)) == Some(d@),
                None => parse_plain(v@.subrange(from as int, to as int)) == None::<int>,
            },
    {
        let ghost s = v@.subrange(from as int, to as int);
        let mut start = from;
        let mut neg = false;
        if from < to && (v[from] == '-' || v[from] == '+') {
            neg = v[from] == '-';
            start = from + 1;
        }
        assert(sign_len(s) == start - from);
        let ghost body = s.skip(sign_len(s));
        assert(body =~= v@.subrange(start as int, to as int));
        let dot = crate::text::find_char(v, start, to, '.');
        let (wend, fstart) = match dot {
            Some(i) => (i, i + 1),
            None => (to, to),
        };
        proof {
            match dot {
                Some(i) => {
                    assert(body.take(i - start) =~= v@.subrange(start as int, i as int));
                    assert(body.skip(i - start + 1) =~= v@.subrange(i + 1, to as int));
                },
                None => {
                    assert(v@.subrange(to as int, to as int) =~= Seq::<char>::empty());
                },
            }
        }
        let whole = read_digits(v, start, wend);
        let frac_ok = read_digits(v, fstart, to);
        if whole.is_none() || frac_ok.is_none() || (wend - start) + (to - fstart) == 0 {
            return None;
        }
        let w = whole.unwrap();
        let ghost fs = v@.subrange(fstart as int, to as int);
        let f = read_frac(v, fstart, to);
        proof {
            lemma_digits_value_nonneg(v@.subrange(start as int, wend as int));
        }
        assert(w <= WHOLE_CAP);
        let m: u128 = w * 1_000_000u128 + f;
        let mi = if m > LIMIT as u128 { LIMIT } else { m as i128 };
        assert(mi == clamp(digits_value(v@.subrange(start as int, wend as int)) * SCALE + frac_micros(fs)));
        Some(Decimal { micros: if neg { -mi } else { mi } })
    }
}

/// `u` millionths (within the bound) scaled by `10^e`, `-19 <= e <= 19`
/// (see [`scale_mag`]).
fn scale_magnitude(u: u128, e: i64) -> (r: u128)
    requires
        u <= LIMIT,
        -19 <= e <= 19,
    ensures
        r == scale_mag(u as nat, e as int),
        r <= LIMIT,
{
    if e >= 0 {
        let mut acc: u128 = u;
        let mut k: i64 = 0;
        while k < e
            invariant
                0 <= k <= e <= 19,
                acc == u * pow10(k as nat),
                acc <= LIMIT,
            decreases e - k,
        {
            proof {
                assert(pow10((k + 1) as nat) == 10 * pow10(k as nat));
                assert(u * pow10((k + 1) as nat) == 10 * (u * pow10(k as nat))) by (nonlinear_arith)
                    requires
                        pow10((k + 1) as nat) == 10 * pow10(k as nat),
                ;
            }
            if acc > LIMIT as u128 / 10 {
                proof {
                    lemma_pow10_mono((k + 1) as nat, e as nat);
                    let p = pow10((k + 1) as nat);
                    let q = pow10(e as nat);
                    assert(u * p <= u * q) by (nonlinear_arith)
                        requires
                            p <= q,
                    ;
                }
                return LIMIT as u128;
            }
            acc = acc * 10;
            k = k + 1;
        }
        acc
    } else {
        let mut d: u128 = 1;
        let mut k: i64 = 0;
        while k < -e
            invariant
                0 <= k <= -e <= 19,
                d == pow10(k as nat),
                1 <= d <= 10_000_000_000_000_000_000,
                u <= LIMIT,
            decreases -e - k,
        {
            proof {
                lemma_pow10_mono((k + 1) as nat, 19);
                assert(pow10(19) == 10_000_000_000_000_000_000) by {
        reveal_with_fuel(pow10, 20);
    }
            }
            d = d * 10;
            k = k + 1;
        }
        assert(u / d <= u) by (nonlinear_arith)
            requires
                d >= 1,
        ;
        u / d
    }
}

/// Position of the first exponent marker in `v[from..to]`, if any
/// (relative to `v`).
pub(crate) fn find_mark(v: &[char], from: usize, to: usize) -> (r: Option<usize>)
    requires
        from <= to <= v@.len(),
    ensures
        match r {
            Some(i) => from <= i < to && is_first_mark(v@.subrange(from as int, to as int), i - from),
            None => forall|j: int| from <= j < to ==> !is_mark(#[trigger] v@[j]),
        },
{
    let mut i = from;
    while i < to
        invariant
            from <= i <= to <= v@.len(),
            forall|j: int| from <= j < i ==> !is_mark(#[trigger] v@[j]),
        decreases to - i,
    {
        if v[i] == 'e' || v[i] == 'E' {
            let ghost s = v@.subrange(from as int, to as int);
            assert forall|j: int| 0 <= j < i - from implies !is_mark(#[trigger] s[j]) by {
                assert(s[j] == v@[from + j]);
            }
            return Some(i);
        }
        i = i + 1;
    }
    None
}

/// Read an exponent `[+-]digits` from `v[from..to]`, capped to
/// `-19..=19`.
fn read_exponent(v: &[char], from: usize, to: usize) -> (r: Option<i64>)
    requires
        from <= to <= v@.len(),
    ensures
        match r {
            Some(e) => exponent_value(v@.subrange(from as int, to as int)) matches Some(x) && e == (if x > 19 {
                19
            } else if x < -19 {
                -19
            } else {
                x
            }),
            None => exponent_value(v@.subrange(from as int, to as int)) == None::<int>,
        },
{
    let ghost t = v@.subrange(from as int, to as int);
    let mut start = from;
    let mut neg = false;
    if from < to && (v[from] == '-' || v[from] == '+') {
        neg = v[from] == '-';
        start = from + 1;
    }
    assert(sign_len(t) == start - from);
    assert(t.skip(sign_len(t)) =~= v@.subrange(start as int, to as int));
    if start == to {
        return None;
    }
    let n = match read_digits(v, start, to) {
        Some(n) => n,
        None => return None,
    };
    proof {
        lemma_digits_value_nonneg(v@.subrange(start as int, to as int));
    }
    let c: i64 = if n > 19 { 19 } else { n as i64 };
    Some(if neg { -c } else { c })
}

impl Decimal {
    /// Read `v[from..to]` as a number (see [`parse_dec`]): plain decimal
    /// notation, optionally with an exponent.
    pub fn parse_range(v: &[char], from: usize, to: usize) -> (r: Option<Decimal>)
        requires
            from <= to <= v@.len(),
        ensures
            match r {
                Some(d) => parse_dec(v@.subrange(from as int, to as int)) == Some(d@),
                None => parse_dec(v@.subrange(from as int, to as int)) == None::<int>,
            },
    {
        let ghost s = v@.subrange(from as int, to as int);
        match find_mark(v, from, to) {
            None => {
                proof {
                    assert forall|i: int| 0 <= i < s.len() implies !is_mark(#[trigger] s[i]) by {
                        assert(s[i] == v@[from + i]);
                    }
                    lemma_no_mark(s);
                }
                Decimal::parse_plain_range(v, from, to)
            },
            Some(i) => {
                proof {
                    lemma_first_mark(s, i - from);
                    assert(s.take(i - from) =~= v@.subrange(from as int, i as int));
                    assert(s.skip(i - from + 1) =~= v@.subrange(i + 1, to as int));
                }
                let m = match Decimal::parse_plain_range(v, from, i) {
                    Some(m) => m,
                    None => return None,
                };
                let e = match read_exponent(v, i + 1, to) {
                    Some(e) => e,
                    None => return None,
                };
                proof {
                    use_type_invariant(&m);
                }
                let mi = m.micros;
                let u: u128 = if mi < 0 { (-mi) as u128 } else { mi as u128 };
                proof {
                    let x = choose|x: int| exponent_value(s.skip(i - from + 1)) == Some(x);
                    lemma_scale_cap(u as nat, x);
                }
                let r = scale_magnitude(u, e);
                let d = Decimal { micros: if mi < 0 { -(r as i128) } else { r as i128 } };
                assert(d@ == scale_exp(m@, choose|x: int| exponent_value(s.skip(i - from + 1)) == Some(x)));
                Some(d)
            },
        }
    }
}

impl Decimal {
    /// Read `s` as a number: `[+-]digits[.digits]`, optionally followed by
    /// an exponent `e`/`E` and `[+-]digits` (see [`parse_dec`]); `None`
    /// when it is not one.
    pub fn parse(s: &str) -> (r: Option<Decimal>)
        ensures
            match r {
                Some(d) => parse_dec(s@) == Some(d@),
                None => parse_dec(s@) == None::<int>,
            },
    {
        let v = crate::text::chars_of(s);
        assert(v@.subrange(0, v@.len() as int) =~= s@);
        Decimal::parse_range(&v, 0, v.len())
    }
}

// ---------------------------------------------------------------------
// Printing, then reading
// ---------------------------------------------------------------------

proof fn lemma_digit_char(d: int)
    requires
        0 <= d < 10,
    ensures
        is_digit(digit_char(d)),
        digit_val(digit_char(d)) == d,
{
}

proof fn lemma_nat_digits(n: nat)
    ensures
        nat_digits(n).len() >= 1,
        all_digits(nat_digits(n)),
        digits_value(nat_digits(n)) == n,
    decreases n,
{
    lemma_digit_char((n % 10) as int);
    let s = nat_digits(n);
    assert(s.last() == digit_char((n % 10) as int));
    assert(digits_value(s) == digits_value(s.drop_last()) * 10 + digit_val(s.last()));
    if n < 10 {
        assert(s.drop_last() =~= Seq::<char>::empty());
        assert(n % 10 == n);
    } else {
        lemma_nat_digits(n / 10);
        assert(s.drop_last() =~= nat_digits(n / 10));
        assert((n / 10) * 10 + n % 10 == n);
        assert forall|i: int| 0 <= i < s.len() implies is_digit(#[trigger] s[i]) by {
            if i < s.len() - 1 {
                assert(s[i] == nat_digits(n / 10)[i]);
            }
        }
    }
}

proof fn lemma_fixed_digits(n: nat, k: nat)
    requires
        n < pow10(k),
    ensures
        fixed_digits(n, k).len() == k,
        all_digits(fixed_digits(n, k)),
        digits_value(fixed_digits(n, k)) == n,
    decreases k,
{
    if k > 0 {
        let p = pow10((k - 1) as nat);
        assert(n / 10 < p) by (nonlinear_arith)
            requires
                n < 10 * p,
        ;
        lemma_fixed_digits(n / 10, (k - 1) as nat);
        lemma_digit_char((n % 10) as int);
        let s = fixed_digits(n, k);
        assert(s.drop_last() =~= fixed_digits(n / 10, (k - 1) as nat));
        assert forall|i: int| 0 <= i < s.len() implies is_digit(#[trigger] s[i]) by {
            if i < s.len() - 1 {
                assert(s[i] == fixed_digits(n / 10, (k - 1) as nat)[i]);
            }
        }
    } else {
        assert(pow10(0) == 1);
    }
}

/// `strip_zeros(s)` is a prefix of `s`, and what it drops is zeros.
proof fn lemma_strip_zeros(s: Seq<char>)
    ensures
        strip_zeros(s).len() <= s.len(),
        forall|i: int| 0 <= i < strip_zeros(s).len() ==> #[trigger] strip_zeros(s)[i] == s[i],
        forall|i: int| strip_zeros(s).len() <= i < s.len() ==> s[i] == '0',
    decreases s.len(),
{
    if s.len() > 0 && s.last() == '0' {
        let t = s.drop_last();
        lemma_strip_zeros(t);
        assert forall|i: int| strip_zeros(s).len() <= i < s.len() implies s[i] == '0' by {
            if i < s.len() - 1 {
                assert(s[i] == t[i]);
            }
        }
        assert forall|i: int| 0 <= i < strip_zeros(s).len() implies #[trigger] strip_zeros(s)[i] == s[i] by {
            assert(strip_zeros(t)[i] == t[i]);
            assert(t[i] == s[i]);
        }
    }
}

/// Reading back what printing a value gives yields that value.
#[verifier::rlimit(60)]
pub proof fn law_print_then_read(v: int)
    requires
        -LIMIT <= v <= LIMIT,
    ensures
        parse_dec(fmt_dec(v)) == Some(v),
{
    lemma_print_then_read_plain(v);
    let s = fmt_dec(v);
    lemma_fmt_dec_chars(v);
    lemma_no_mark(s);
}

/// The characters of a printed value: digits, `-` and `.`.
proof fn lemma_fmt_dec_chars(v: int)
    requires
        -LIMIT <= v <= LIMIT,
    ensures
        forall|i: int| 0 <= i < fmt_dec(v).len() ==> !is_mark(#[trigger] fmt_dec(v)[i]),
{
    let m = abs(v);
    let n = (m / (SCALE as int)) as nat;
    let f = m % (SCALE as int);
    let whole = nat_digits(n);
    lemma_nat_digits(n);
    let s = fmt_dec(v);
    assert forall|i: int| 0 <= i < s.len() implies !is_mark(#[trigger] s[i]) by {
        let sign = if v < 0 {
            seq!['-']
        } else {
            Seq::<char>::empty()
        };
        if f == 0 {
            assert(s =~= sign + whole);
            if i >= sign.len() {
                assert(s[i] == whole[i - sign.len()]);
                assert(is_digit(whole[i - sign.len()]));
            }
        } else {
            let fd = fixed_digits(f as nat, 6);
            let z = strip_zeros(fd);
            reveal_with_fuel(pow10, 7);
            lemma_fixed_digits(f as nat, 6);
            lemma_strip_zeros(fd);
            assert(s =~= sign + whole + seq!['.'] + z);
            if sign.len() <= i < sign.len() + whole.len() {
                assert(s[i] == whole[i - sign.len()]);
                assert(is_digit(whole[i - sign.len()]));
            } else if i > sign.len() + whole.len() {
                let k = i - sign.len() - whole.len() - 1;
                assert(s[i] == z[k]);
                assert(z[k] == fd[k]);
                assert(is_digit(fd[k]));
            }
        }
    }
}

/// Reading back what printing a value gives, in plain notation.
#[verifier::rlimit(60)]
proof fn lemma_print_then_read_plain(v: int)
    requires
        -LIMIT <= v <= LIMIT,
    ensures
        parse_plain(fmt_dec(v)) == Some(v),
{
    let m = abs(v);
    let n = (m / (SCALE as int)) as nat;
    let f = m % (SCALE as int);
    let whole = nat_digits(n);
    lemma_nat_digits(n);
    let sign = if v < 0 {
        seq!['-']
    } else {
        Seq::<char>::empty()
    };
    let tail = if f == 0 {
        Seq::<char>::empty()
    } else {
        seq!['.'] + strip_zeros(fixed_digits(f as nat, 6))
    };
    let s = fmt_dec(v);
    assert(s =~= sign + (whole + tail));
    let body = whole + tail;
    assert(is_digit(whole[0]));
    if v < 0 {
        assert(s[0] == '-');
        assert(s.skip(1) =~= body);
    } else {
        assert(s[0] == whole[0]);
        assert(s.skip(0) =~= body);
    }
    assert(s.skip(sign_len(s)) =~= body);
    assert forall|i: int| 0 <= i < whole.len() implies body[i] != '.' by {
        assert(body[i] == whole[i]);
        assert(is_digit(whole[i]));
    }
    if f == 0 {
        assert(body =~= whole);
        crate::text::lemma_first_index_none(body, '.');
        assert(frac_micros(Seq::<char>::empty()) == 0) by {
            let z = (Seq::<char>::empty() + seq!['0', '0', '0', '0', '0', '0']).take(6);
            assert(z =~= seq!['0', '0', '0', '0', '0', '0']);
            reveal_with_fuel(digits_value, 7);
        }
    } else {
        let fd = fixed_digits(f as nat, 6);
        let z = strip_zeros(fd);
        reveal_with_fuel(pow10, 7);
        lemma_fixed_digits(f as nat, 6);
        lemma_strip_zeros(fd);
        assert(body[whole.len() as int] == '.');
        assert(crate::text::is_first_index(body, '.', whole.len() as int));
        crate::text::lemma_first_index_unique(body, '.', whole.len() as int);
        assert(body.take(whole.len() as int) =~= whole);
        assert(body.skip(whole.len() as int + 1) =~= z);
        assert forall|i: int| 0 <= i < z.len() implies is_digit(#[trigger] z[i]) by {
            assert(z[i] == fd[i]);
        }
        let padded = (z + seq!['0', '0', '0', '0', '0', '0']).take(6);
        assert forall|i: int| 0 <= i < 6 implies padded[i] == fd[i] by {
            if i < z.len() {
                assert(padded[i] == z[i]);
            } else {
                assert(padded[i] == '0');
            }
        }
        assert(padded =~= fd);
    }
}

} // verus!
