//! Exact non-negative rational numbers and their fixed-point rendering.
use vstd::prelude::*;
use vstd::arithmetic::div_mod::{lemma_fundamental_div_mod, lemma_fundamental_div_mod_converse};
use vstd::arithmetic::mul::lemma_mul_inequality;

verus! {

/// Largest denominator a decoded coordinate can have: `3600 * (2^32 - 1)^3`.
pub const MAX_DEN: u128 = 3600 * 4294967295 * 4294967295 * 4294967295;

/// Bound on the integer part of any decoded value.
pub const MAX_WHOLE: u128 = 17179869184;

/// A non-negative rational number `num / den`.
#[derive(Clone, Copy, Debug, PartialEq, Eq, Structural)]
pub struct Ratio {
    pub num: u128,
    pub den: u128,
}

impl Ratio {
    /// The denominator is positive and bounded, and the value is below `MAX_WHOLE`.
    pub open spec fn wf(&self) -> bool {
        0 < self.den <= MAX_DEN && self.num < self.den * MAX_WHOLE
    }
}

/// `10^k`.
pub open spec fn pow10(k: nat) -> nat
    decreases k,
{
    if k == 0 {
        1
    } else {
        10 * pow10((k - 1) as nat)
    }
}

/// `num / den` scaled by `10^k` and rounded to the nearest integer, ties to even.
pub open spec fn scaled_round(num: nat, den: nat, k: nat) -> nat
    recommends
        den > 0,
{
    let t = num * pow10(k);
    let q = t / den;
    let r = t % den;
    if 2 * r > den || (2 * r == den && q % 2 == 1) {
        q + 1
    } else {
        q
    }
}

pub open spec fn digit_char(d: nat) -> char {
    if d == 0 { '0' }
    else if d == 1 { '1' }
    else if d == 2 { '2' }
    else if d == 3 { '3' }
    else if d == 4 { '4' }
    else if d == 5 { '5' }
    else if d == 6 { '6' }
    else if d == 7 { '7' }
    else if d == 8 { '8' }
    else { '9' }
}

/// The exactly `w` lowest decimal digits of `n`, most significant first.
pub open spec fn padded_digits(n: nat, w: nat) -> Seq<char>
    decreases w,
{
    if w == 0 {
        Seq::empty()
    } else {
        padded_digits(n / 10, (w - 1) as nat).push(digit_char(n % 10))
    }
}

/// The decimal numeral of `n`, without leading zeros.
pub open spec fn decimal_digits(n: nat) -> Seq<char>
    decreases n,
{
    if n < 10 {
        seq![digit_char(n)]
    } else {
        decimal_digits(n / 10).push(digit_char(n % 10))
    }
}

/// The numeral of the integer `n / 10^k` written with `k` digits after the point.
pub open spec fn point_numeral(n: nat, k: nat) -> Seq<char> {
    decimal_digits(n / pow10(k)) + seq!['.'] + padded_digits(n % pow10(k), k)
}

/// `num / den` rounded and written with exactly `k` digits after the point.
pub open spec fn fixed_point(num: nat, den: nat, k: nat) -> Seq<char> {
    point_numeral(scaled_round(num, den, k), k)
}

/// Relies on String::push: appends one character.
#[verifier::external_body]
pub(crate) fn push_char(s: &mut String, c: char)
    ensures
        final(s)@ == old(s)@.push(c),
{
    s.push(c);
}

fn digit(d: u128) -> (c: char)
    requires
        d < 10,
    ensures
        c == digit_char(d as nat),
{
    if d == 0 { '0' }
    else if d == 1 { '1' }
    else if d == 2 { '2' }
    else if d == 3 { '3' }
    else if d == 4 { '4' }
    else if d == 5 { '5' }
    else if d == 6 { '6' }
    else if d == 7 { '7' }
    else if d == 8 { '8' }
    else { '9' }
}

fn pow10_exec(k: u32) -> (r: u128)
    requires
        k <= 6,
    ensures
        r == pow10(k as nat),
        1 <= r <= 1000000,
{
    reveal_with_fuel(pow10, 7);
    if k == 0 { 1 }
    else if k == 1 { 10 }
    else if k == 2 { 100 }
    else if k == 3 { 1000 }
    else if k == 4 { 10000 }
    else if k == 5 { 100000 }
    else { 1000000 }
}

/// Appends the decimal numeral of `n` to `out`.
pub fn push_decimal(out: &mut String, n: u128)
    ensures
        final(out)@ == old(out)@ + decimal_digits(n as nat),
    decreases n,
{
    if n < 10 {
        push_char(out, digit(n));
        assert(decimal_digits(n as nat) == seq![digit_char(n as nat)]);
        assert(final(out)@ =~= old(out)@ + decimal_digits(n as nat));
    } else {
        push_decimal(out, n / 10);
        push_char(out, digit(n % 10));
        assert(final(out)@ =~= old(out)@ + decimal_digits(n as nat));
    }
}

/// Appends the `w` lowest decimal digits of `n` to `out`.
pub fn push_padded(out: &mut String, n: u128, w: u32)
    ensures
        final(out)@ == old(out)@ + padded_digits(n as nat, w as nat),
    decreases w,
{
    if w == 0 {
        assert(final(out)@ =~= old(out)@ + padded_digits(n as nat, w as nat));
    } else {
        push_padded(out, n / 10, w - 1);
        push_char(out, digit(n % 10));
        assert(final(out)@ =~= old(out)@ + padded_digits(n as nat, w as nat));
    }
}

proof fn lemma_div_mod_unique(t: int, d: int, q: int, r: int)
    requires
        d > 0,
        0 <= r < d,
        t == q * d + r,
    ensures
        t / d == q,
        t % d == r,
{
    lemma_fundamental_div_mod_converse(t, d, q, r);
}

/// Computes `scaled_round(r.num, r.den, k)`.
pub fn round_scaled(r: &Ratio, k: u32) -> (n: u128)
    requires
        r.wf(),
        k <= 6,
    ensures
        n as nat == scaled_round(r.num as nat, r.den as nat, k as nat),
{
    let s = pow10_exec(k);
    let whole = r.num / r.den;
    let frac = r.num % r.den;
    proof {
        lemma_fundamental_div_mod(r.num as int, r.den as int);
        assert(whole < MAX_WHOLE) by {
            if whole >= MAX_WHOLE {
                lemma_mul_inequality(MAX_WHOLE as int, whole as int, r.den as int);
                assert(r.den * whole >= r.den * MAX_WHOLE) by (nonlinear_arith)
                    requires whole >= MAX_WHOLE, r.den > 0;
            }
        }
        assert(frac * s <= MAX_DEN * 1000000) by (nonlinear_arith)
            requires frac < r.den, r.den <= MAX_DEN, s <= 1000000;
        assert(whole * s <= MAX_WHOLE * 1000000) by (nonlinear_arith)
            requires whole < MAX_WHOLE, s <= 1000000;
    }
    let t = frac * s;
    let q = t / r.den;
    let rem = t % r.den;
    proof {
        lemma_fundamental_div_mod(t as int, r.den as int);
        assert(q <= t) by (nonlinear_arith)
            requires q == t / r.den, r.den > 0, t >= 0;
        let num = r.num as int;
        let den = r.den as int;
        assert(num * s == (whole * s + q) * den + rem) by (nonlinear_arith)
            requires
                num == whole * den + frac,
                t == frac * s,
                t == den * q + rem;
        lemma_div_mod_unique(num * s, den, whole * s + q, rem as int);
    }
    let base = whole * s + q;
    if 2 * rem > r.den || (2 * rem == r.den && base % 2 == 1) {
        base + 1
    } else {
        base
    }
}

/// Appends `fixed_point(r.num, r.den, k)` to `out`.
pub fn push_fixed(out: &mut String, r: &Ratio, k: u32)
    requires
        r.wf(),
        k <= 6,
    ensures
        final(out)@ == old(out)@ + fixed_point(r.num as nat, r.den as nat, k as nat),
{
    let n = round_scaled(r, k);
    let s = pow10_exec(k);
    push_decimal(out, n / s);
    push_char(out, '.');
    push_padded(out, n % s, k);
    assert(final(out)@ =~= old(out)@ + fixed_point(r.num as nat, r.den as nat, k as nat));
}

} // verus!
