//! Integer helpers for the fixed-point geometry.
use vstd::prelude::*;
use vstd::arithmetic::div_mod::{
    lemma_div_is_ordered,
    lemma_div_multiples_vanish,
    lemma_fundamental_div_mod,
    lemma_fundamental_div_mod_converse_div,
};

verus! {

pub open spec fn abs(v: int) -> int {
    if v < 0 {
        -v
    } else {
        v
    }
}

/// `|a * b| <= la * lb` when `|a| <= la` and `|b| <= lb`.
pub proof fn lemma_mul_abs_bound(a: int, b: int, la: int, lb: int)
    requires
        abs(a) <= la,
        abs(b) <= lb,
    ensures
        abs(a * b) <= la * lb,
{
    assert(abs(a * b) == abs(a) * abs(b)) by (nonlinear_arith);
    assert(abs(a) * abs(b) <= la * lb) by (nonlinear_arith)
        requires
            0 <= abs(a) <= la,
            0 <= abs(b) <= lb,
    ;
}

/// Floor division stays within the magnitude of the dividend.
pub proof fn lemma_div_abs_bound(n: int, d: int)
    requires
        d >= 1,
    ensures
        abs(n / d) <= abs(n),
{
    lemma_fundamental_div_mod(n, d);
    let q = n / d;
    let r = n % d;
    assert(0 <= r < d);
    assert(abs(q) <= abs(n)) by (nonlinear_arith)
        requires
            n == d * q + r,
            0 <= r < d,
            d >= 1,
    ;
}

/// `a * w / d` lies in `[0, w]` when `0 <= a <= d`.
pub proof fn lemma_scaled_fraction_bounds(a: int, w: int, d: int)
    requires
        0 <= a <= d,
        d >= 1,
        w >= 0,
    ensures
        0 <= a * w / d <= w,
{
    assert(0 <= a * w <= d * w) by (nonlinear_arith)
        requires
            0 <= a <= d,
            w >= 0,
    ;
    lemma_div_is_ordered(0, a * w, d);
    lemma_div_is_ordered(a * w, d * w, d);
    lemma_div_multiples_vanish(w, d);
    assert(d * w == w * d) by (nonlinear_arith);
}

/// Dividing `0` or `d * w` by `d` gives `0` or `w`.
pub proof fn lemma_scaled_fraction_ends(w: int, d: int)
    requires
        d >= 1,
    ensures
        0 * w / d == 0,
        d * w / d == w,
{
    lemma_div_multiples_vanish(w, d);
    assert(d * w == w * d) by (nonlinear_arith);
}

pub open spec fn fits_i64(v: int) -> bool {
    i64::MIN <= v <= i64::MAX
}

/// Floor division of a negative dividend through the ceiling of its magnitude.
pub proof fn lemma_floor_div_negative(m: int, d: int)
    requires
        m >= 0,
        d >= 1,
    ensures
        (-m) / d == -((m + d - 1) / d),
{
    let n = -m;
    lemma_fundamental_div_mod(n, d);
    let q = n / d;
    let rem = n % d;
    assert(m + d - 1 == (-q) * d + (d - 1 - rem)) by (nonlinear_arith)
        requires
            n == d * q + rem,
            m == -n,
    ;
    lemma_fundamental_div_mod_converse_div(m + d - 1, d, -q, d - 1 - rem);
}

/// Floor division `n / d` (the spec's division) for a positive divisor.
pub fn floor_div(n: i128, d: i128) -> (r: i128)
    requires
        1 <= d <= 0x4000_0000_0000_0000_0000_0000_0000_0000,
        -0x4000_0000_0000_0000_0000_0000_0000_0000 <= n <= 0x4000_0000_0000_0000_0000_0000_0000_0000,
    ensures
        r == n / d,
        abs(r as int) <= abs(n as int),
{
    proof {
        lemma_div_abs_bound(n as int, d as int);
    }
    if n >= 0 {
        n / d
    } else {
        let a: i128 = -n;
        let c: i128 = (a - 1 + d) / d;
        proof {
            lemma_floor_div_negative(a as int, d as int);
        }
        -c
    }
}

/// `base + a * w / d` (floor division), when it fits an `i64`. The product
/// is formed on magnitudes in `u128`, so it never overflows.
pub fn offset_by_fraction(base: i64, a: i128, w: i128, d: i128) -> (r: Option<i64>)
    requires
        -0x1_0000_0000_0000_0000 <= a <= 0x1_0000_0000_0000_0000,
        -0xffff_ffff_ffff_ffff <= w <= 0xffff_ffff_ffff_ffff,
        1 <= d <= 0x1_0000_0000_0000_0000,
    ensures
        r.is_some() == fits_i64(base + (a as int) * (w as int) / (d as int)),
        r.is_some() ==> r.unwrap() == base + (a as int) * (w as int) / (d as int),
{
    let ma: u128 = if a < 0 {
        (-a) as u128
    } else {
        a as u128
    };
    let mw: u128 = if w < 0 {
        (-w) as u128
    } else {
        w as u128
    };
    let negative = (a < 0 && w > 0) || (a > 0 && w < 0);
    proof {
        assert((ma as int) * (mw as int) <= 0x1_0000_0000_0000_0000 * 0xffff_ffff_ffff_ffff)
            by (nonlinear_arith)
            requires
                ma <= 0x1_0000_0000_0000_0000,
                mw <= 0xffff_ffff_ffff_ffff,
        ;
        assert(abs(a * w) == (ma as int) * (mw as int)) by (nonlinear_arith)
            requires
                ma == abs(a as int),
                mw == abs(w as int),
        ;
        assert(negative <==> a * w < 0) by (nonlinear_arith)
            requires
                negative == ((a < 0 && w > 0) || (a > 0 && w < 0)),
        ;
    }
    let m: u128 = ma * mw;
    let du: u128 = d as u128;
    let q_abs: u128 = if negative {
        (m - 1 + du) / du
    } else {
        m / du
    };
    proof {
        if negative {
            lemma_floor_div_negative(m as int, d as int);
            assert(a * w == -(m as int));
        } else {
            assert(a * w == m as int);
        }
        lemma_div_abs_bound(a * w, d as int);
    }
    if q_abs > 0x1_0000_0000_0000_0000 {
        return None;
    }
    let q: i128 = if negative {
        -(q_abs as i128)
    } else {
        q_abs as i128
    };
    let v: i128 = base as i128 + q;
    if v < i64::MIN as i128 || v > i64::MAX as i128 {
        None
    } else {
        Some(v as i64)
    }
}

} // verus!
