//! Exact products of two 128-bit numbers, held as a pair of 128-bit words, and what
//! can be computed from them without losing bits.
use vstd::arithmetic::div_mod::lemma_fundamental_div_mod;
use vstd::prelude::*;

verus! {

/// `2^64`, the base of the half-words.
pub const HALF: u128 = 0x1_0000_0000_0000_0000;

/// The number a `(high, low)` pair of words stands for.
pub open spec fn wide_value(w: (u128, u128)) -> int {
    w.0 * 0x1_0000_0000_0000_0000_0000_0000_0000_0000int + w.1
}

/// The product `x * y` as a `(high, low)` pair.
pub fn mul_wide(x: u128, y: u128) -> (r: (u128, u128))
    ensures
        wide_value(r) == x * y,
{
    let x1 = x / HALF;
    let x0 = x % HALF;
    let y1 = y / HALF;
    let y0 = y % HALF;
    proof {
        lemma_fundamental_div_mod(x as int, HALF as int);
        lemma_fundamental_div_mod(y as int, HALF as int);
        assert(x1 < HALF && y1 < HALF);
        assert(x0 * y0 < HALF * HALF && x0 * y1 < HALF * HALF && x1 * y0 < HALF * HALF && x1 * y1
            < HALF * HALF) by (nonlinear_arith)
            requires
                x0 < HALF,
                y0 < HALF,
                x1 < HALF,
                y1 < HALF,
        ;
    }
    let p00 = x0 * y0;
    let p01 = x0 * y1;
    let p10 = x1 * y0;
    let p11 = x1 * y1;
    let t = p00 / HALF + p01 % HALF + p10 % HALF;
    let lo = p00 % HALF + (t % HALF) * HALF;
    proof {
        let b = HALF as int;
        assert(x * y == p11 * (b * b) + (p01 + p10) * b + p00) by (nonlinear_arith)
            requires
                x == x1 * b + x0,
                y == y1 * b + y0,
                p00 == x0 * y0,
                p01 == x0 * y1,
                p10 == x1 * y0,
                p11 == x1 * y1,
        ;
        lemma_fundamental_div_mod(p00 as int, b);
        lemma_fundamental_div_mod(p01 as int, b);
        lemma_fundamental_div_mod(p10 as int, b);
        lemma_fundamental_div_mod(t as int, b);
        let hi = p11 + p01 / HALF + p10 / HALF + t / HALF;
        assert(x * y == hi * (b * b) + lo);
        assert(x * y <= u128::MAX * u128::MAX) by (nonlinear_arith)
            requires
                x <= u128::MAX,
                y <= u128::MAX,
        ;
        assert(hi <= u128::MAX);
    }
    let hi = p11 + p01 / HALF + p10 / HALF + t / HALF;
    (hi, lo)
}

/// Whether the number of `a` is at most that of `b`.
pub fn wide_le(a: (u128, u128), b: (u128, u128)) -> (r: bool)
    ensures
        r == (wide_value(a) <= wide_value(b)),
{
    a.0 < b.0 || (a.0 == b.0 && a.1 <= b.1)
}

/// `u * v / w`, rounded down, computed exactly; the quotient must fit in 128 bits.
pub fn mul_div(u: u128, v: u128, w: u128) -> (r: u128)
    requires
        w > 0,
        u * v / (w as int) <= u128::MAX,
    ensures
        r == u * v / (w as int),
{
    let product = mul_wide(u, v);
    let ghost uv = u * v;
    proof {
        lemma_fundamental_div_mod(uv, w as int);
        assert(uv < (u128::MAX + 1) * w) by (nonlinear_arith)
            requires
                uv == w * (uv / (w as int)) + uv % (w as int),
                0 <= uv % (w as int) < w,
                uv / (w as int) <= u128::MAX,
        ;
    }
    let mut lo: u128 = 0;
    let mut hi: u128 = u128::MAX;
    while lo < hi
        invariant
            lo <= hi,
            lo * w <= uv,
            uv < (hi + 1) * w,
            uv == u * v,
            wide_value(product) == uv,
        decreases hi - lo,
    {
        let mid = lo + (hi - lo) / 2 + (hi - lo) % 2;
        let scaled = mul_wide(mid, w);
        if wide_le(scaled, product) {
            lo = mid;
        } else {
            hi = mid - 1;
        }
    }
    proof {
        let q = uv / (w as int);
        let m = uv % (w as int);
        lemma_fundamental_div_mod(uv, w as int);
        assert(lo == q) by (nonlinear_arith)
            requires
                uv == w * q + m,
                0 <= m < w,
                lo * w <= uv,
                uv < (lo + 1) * w,
                w > 0,
        ;
    }
    lo
}

/// `r` is the integer square root of `p`.
pub open spec fn is_isqrt(r: int, p: int) -> bool {
    r * r <= p < (r + 1) * (r + 1)
}

/// The integer square root of `x * y`, exact for every pair of 128-bit numbers.
pub fn isqrt_of_product(x: u128, y: u128) -> (r: u128)
    ensures
        is_isqrt(r as int, x * y),
{
    let product = mul_wide(x, y);
    let ghost p = x * y;
    proof {
        assert(p < (u128::MAX + 1) * (u128::MAX + 1)) by (nonlinear_arith)
            requires
                p == x * y,
                x <= u128::MAX,
                y <= u128::MAX,
        ;
    }
    let mut lo: u128 = 0;
    let mut hi: u128 = u128::MAX;
    while lo < hi
        invariant
            lo <= hi,
            lo * lo <= p,
            p < (hi + 1) * (hi + 1),
            p == x * y,
            wide_value(product) == p,
        decreases hi - lo,
    {
        let mid = lo + (hi - lo) / 2 + (hi - lo) % 2;
        let square = mul_wide(mid, mid);
        if wide_le(square, product) {
            lo = mid;
        } else {
            hi = mid - 1;
        }
    }
    lo
}

} // verus!
