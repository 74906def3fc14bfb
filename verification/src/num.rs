//! Fixed-precision text of decimal numbers (`{:.0}`, `{:.1}`, `{:+.1}`) and the
//! saturating `u8` arithmetic of the scores.

use vstd::prelude::*;
use crate::json::Decimal;
use crate::text::{digit_char, extend, fmt_u128, nat_digits};

verus! {

/// `a.saturating_sub(b)` on `u8`.
pub open spec fn sat_sub(a: u8, b: u8) -> u8 {
    if a >= b {
        (a - b) as u8
    } else {
        0
    }
}

/// `a.saturating_add(b)` on `u8`.
pub open spec fn sat_add(a: u8, b: u8) -> u8 {
    if a + b <= 255 {
        (a + b) as u8
    } else {
        255
    }
}

/// `w.saturating_mul(p).saturating_div(100)` on `u8`.
pub open spec fn sat_pct(w: u8, p: u8) -> u8 {
    let m = w * p;
    (if m > 255 {
        255int
    } else {
        m
    } / 100) as u8
}

pub fn pct_of(w: u8, p: u8) -> (r: u8)
    ensures
        r == sat_pct(w, p),
{
    assert((w as int) * (p as int) <= 65025) by (nonlinear_arith)
        requires
            w <= 255,
            p <= 255,
    ;
    let m: u16 = (w as u16) * (p as u16);
    let s: u16 = if m > 255 {
        255
    } else {
        m
    };
    (s / 100) as u8
}

/// Magnitude of a decimal: thousandths rounded down and whether a remainder exists.
pub open spec fn magnitude(d: Decimal) -> (nat, bool) {
    if d.milli >= 0 {
        (d.milli as nat, d.frac)
    } else if d.frac {
        ((-d.milli - 1) as nat, true)
    } else {
        ((-d.milli) as nat, false)
    }
}

/// Rounds `m / unit` (plus a remainder below one thousandth when `frac`) to the
/// nearest integer, ties to even.
pub open spec fn round_units(m: nat, frac: bool, unit: nat) -> nat
    recommends
        unit > 0,
{
    let q = m / unit;
    let r = m % unit;
    if 2 * r < unit {
        q
    } else if 2 * r > unit {
        q + 1
    } else if frac {
        q + 1
    } else if q % 2 == 0 {
        q
    } else {
        q + 1
    }
}

/// Text of `d` with `places` (0 or 1) fraction digits, as `{:.0}` / `{:.1}` print
/// it; with `plus`, a `+` before non-negative values (`{:+.1}`).
pub open spec fn fmt_fixed(d: Decimal, places: nat, plus: bool) -> Seq<char> {
    let (m, f) = magnitude(d);
    let sign = if d.milli < 0 {
        seq!['-']
    } else if plus {
        seq!['+']
    } else {
        Seq::empty()
    };
    if places == 0 {
        sign + nat_digits(round_units(m, f, 1000))
    } else {
        let v = round_units(m, f, 100);
        sign + nat_digits(v / 10) + seq!['.', digit_char(v % 10)]
    }
}

pub fn fmt_decimal(d: Decimal, places: u8, plus: bool) -> (r: Vec<char>)
    requires
        places <= 1,
    ensures
        r@ == fmt_fixed(d, places as nat, plus),
{
    let (m, f): (u128, bool) = if d.milli >= 0 {
        (d.milli as u128, d.frac)
    } else if d.frac {
        ((-(d.milli + 1)) as u128, true)
    } else if d.milli == i128::MIN {
        (170141183460469231731687303715884105728u128, false)
    } else {
        ((-d.milli) as u128, false)
    };
    let unit: u128 = if places == 0 {
        1000
    } else {
        100
    };
    let q = m / unit;
    let rem = m % unit;
    let v: u128 = if 2 * rem < unit {
        q
    } else if 2 * rem > unit {
        q + 1
    } else if f {
        q + 1
    } else if q % 2 == 0 {
        q
    } else {
        q + 1
    };
    assert(v == round_units(m as nat, f, unit as nat));
    let mut out: Vec<char> = Vec::new();
    if d.milli < 0 {
        out.push('-');
    } else if plus {
        out.push('+');
    }
    let ghost sign = out@;
    if places == 0 {
        let ds = fmt_u128(v);
        extend(&mut out, &ds);
    } else {
        let ds = fmt_u128(v / 10);
        extend(&mut out, &ds);
        out.push('.');
        let last: u8 = (v % 10) as u8;
        out.push((48u8 + last) as char);
        assert(out@ =~= sign + nat_digits(v as nat / 10) + seq!['.', digit_char(v as nat % 10)]);
    }
    out
}

/// `a / b` as Rust divides integers: the quotient rounded toward zero.
pub open spec fn trunc_div(a: int, b: int) -> int {
    if a >= 0 {
        a / b
    } else {
        -((-a) / b)
    }
}

pub fn trunc_div_i64(a: i64, b: i64) -> (r: i64)
    requires
        b > 1,
    ensures
        r == trunc_div(a as int, b as int),
{
    if a >= 0 {
        a / b
    } else {
        let na: i128 = -(a as i128);
        let bb: i128 = b as i128;
        let q: i128 = na / bb;
        assert(q <= na) by (nonlinear_arith)
            requires
                q == na / bb,
                bb > 1,
                na > 0,
        ;
        assert(q < na || na == 0) by (nonlinear_arith)
            requires
                q == na / bb,
                bb > 1,
                na > 0,
        ;
        -(q as i64)
    }
}

} // verus!
