//! Fixed-point scalar arithmetic: truncating division and integer square
//! root, with the constants that bound every quantity the solver handles.

use vstd::prelude::*;
use vstd::arithmetic::div_mod::{
    lemma_div_by_multiple, lemma_div_is_ordered, lemma_div_nonincreasing,
    lemma_div_pos_is_pos, lemma_fundamental_div_mod, lemma_mod_bound,
};

verus! {

/// Fixed-point scale: a stored value of `SCALE` stands for the real 1.0.
pub const SCALE: i64 = 65536;

/// `SCALE * SCALE`, the square of one unit (used for squared distances).
pub const SCALE_SQ: i64 = 65536 * 65536;

/// Largest coordinate magnitude (in fixed-point units) accepted from the
/// host: 2^22, that is 64.0 world units.
pub const COORD_MAX: i64 = 4194304;

/// Largest segment length the solver accepts; comfortably above the longest
/// diagonal two in-range points can span.
pub const LEN_MAX: i64 = 33554432;

/// Largest joint count a chain may have.
pub const MAX_JOINTS: usize = 1024;

/// Bound that every joint position respects throughout solving: 2^40.
/// Starting from coordinates within `COORD_MAX`, each of at most
/// `MAX_JOINTS` repositioning steps moves a joint by at most `16 * LEN_MAX`.
pub const POS_BOUND: i64 = 1099511627776;

/// Truncating (round-toward-zero) division, the rounding used by every
/// fixed-point operation in this crate. Callers keep `0 < b`.
pub open spec fn tdiv(a: int, b: int) -> int
    recommends
        0 < b,
{
    if a >= 0 {
        a / b
    } else {
        -((-a) / b)
    }
}

/// `b * tdiv(a, b)` lands within one divisor of `a`, on the zero side of it.
pub proof fn lemma_tdiv_close(a: int, b: int)
    requires
        0 < b,
    ensures
        a - b < b * tdiv(a, b) < a + b,
        a >= 0 ==> 0 <= b * tdiv(a, b) <= a && tdiv(a, b) >= 0,
        a <= 0 ==> a <= b * tdiv(a, b) <= 0 && tdiv(a, b) <= 0,
{
    if a >= 0 {
        lemma_fundamental_div_mod(a, b);
        lemma_mod_bound(a, b);
        lemma_div_pos_is_pos(a, b);
        vstd::arithmetic::mul::lemma_mul_nonnegative(b, a / b);
    } else {
        lemma_fundamental_div_mod(-a, b);
        lemma_mod_bound(-a, b);
        lemma_div_pos_is_pos(-a, b);
        vstd::arithmetic::mul::lemma_mul_nonnegative(b, (-a) / b);
        assert(b * (-((-a) / b)) == -(b * ((-a) / b))) by (nonlinear_arith);
    }
}

/// Truncating division never grows magnitude past `m / b` when `|a| <= m`.
pub proof fn lemma_tdiv_mono_abs(a: int, b: int, m: int)
    requires
        0 < b,
        -m <= a <= m,
    ensures
        -(m / b) <= tdiv(a, b) <= m / b,
{
    lemma_div_pos_is_pos(m, b);
    if a >= 0 {
        lemma_div_is_ordered(a, m, b);
        lemma_tdiv_close(a, b);
    } else {
        lemma_div_is_ordered(-a, m, b);
        lemma_tdiv_close(a, b);
    }
}

/// If `|a| <= m * b` then `|tdiv(a, b)| <= m`.
pub proof fn lemma_tdiv_mul_le(a: int, b: int, m: int)
    requires
        0 < b,
        0 <= m,
        -(m * b) <= a <= m * b,
    ensures
        -m <= tdiv(a, b) <= m,
{
    lemma_div_by_multiple(m, b);
    lemma_tdiv_mono_abs(a, b, m * b);
}

/// A square below `(r + 1)^2` has its root's magnitude at most `r`.
pub proof fn lemma_abs_le_of_sq_lt(x: int, r: int)
    by (nonlinear_arith)
    requires
        0 <= r,
        x * x < (r + 1) * (r + 1),
    ensures
        -r <= x <= r,
{
}

/// The integer square root at the specification level: the unique
/// nonnegative `r` with `r^2 <= n < (r + 1)^2`.
pub open spec fn sqrt_floor(n: int) -> int {
    choose|r: int| 0 <= r && r * r <= n && #[trigger] ((r + 1) * (r + 1)) > n
}

/// Any `r` with `r^2 <= n < (r + 1)^2` is `sqrt_floor(n)`: the root is
/// unique, so the executable search below computes exactly it.
pub proof fn lemma_sqrt_floor_unique(n: int, r: int)
    requires
        0 <= r,
        r * r <= n,
        n < (r + 1) * (r + 1),
    ensures
        sqrt_floor(n) == r,
{
    assert(0 <= r && r * r <= n && ((r + 1) * (r + 1)) > n);
    let s = sqrt_floor(n);
    assert(0 <= s && s * s <= n && ((s + 1) * (s + 1)) > n);
    assert(s == r) by (nonlinear_arith)
        requires
            0 <= r,
            r * r <= n,
            n < (r + 1) * (r + 1),
            0 <= s,
            s * s <= n,
            n < (s + 1) * (s + 1);
}

/// Every nonnegative integer has an integer square root, so `sqrt_floor`
/// is characterized by its two bounds on any such input.
pub proof fn lemma_sqrt_floor_props(n: int)
    requires
        0 <= n,
    ensures
        0 <= sqrt_floor(n),
        sqrt_floor(n) * sqrt_floor(n) <= n,
        n < (sqrt_floor(n) + 1) * (sqrt_floor(n) + 1),
    decreases n,
{
    if n == 0 {
        lemma_sqrt_floor_unique(0, 0);
    } else {
        lemma_sqrt_floor_props(n - 1);
        let r = sqrt_floor(n - 1);
        if (r + 1) * (r + 1) <= n {
            assert(n == (r + 1) * (r + 1));
            assert(n < (r + 2) * (r + 2)) by (nonlinear_arith)
                requires
                    0 <= r,
                    n == (r + 1) * (r + 1);
            lemma_sqrt_floor_unique(n, r + 1);
        } else {
            lemma_sqrt_floor_unique(n, r);
        }
    }
}

/// Truncating division on `i128`, implemented over unsigned division so its
/// result is pinned exactly to `tdiv`.
pub fn tdiv_i128(a: i128, b: i128) -> (r: i128)
    requires
        0 < b,
        i128::MIN < a,
    ensures
        r as int == tdiv(a as int, b as int),
{
    if a >= 0 {
        let q: u128 = (a as u128) / (b as u128);
        proof {
            lemma_div_nonincreasing(a as int, b as int);
        }
        q as i128
    } else {
        let m: u128 = (-a) as u128;
        let q: u128 = m / (b as u128);
        proof {
            lemma_div_nonincreasing(m as int, b as int);
        }
        -(q as i128)
    }
}

/// `(a * b) / c` with an `i128` intermediate product, rounded toward zero.
pub fn mul_div(a: i64, b: i64, c: i64) -> (r: i64)
    requires
        0 < c,
        -0x7fff_ffff_ffff_ffff * (c as int) <= (a as int) * (b as int),
        (a as int) * (b as int) <= 0x7fff_ffff_ffff_ffff * (c as int),
    ensures
        r as int == tdiv((a as int) * (b as int), c as int),
{
    let p: i128 = (a as i128) * (b as i128);
    let q: i128 = tdiv_i128(p, c as i128);
    proof {
        lemma_tdiv_mul_le(p as int, c as int, 0x7fff_ffff_ffff_ffff);
    }
    q as i64
}

/// Integer square root: the unique `r` with `r^2 <= n < (r + 1)^2`.
pub fn isqrt(n: u128) -> (r: u64)
    requires
        n < 0x4000_0000_0000_0000_0000_0000_0000_0000,
    ensures
        (r as int) * (r as int) <= n as int,
        (n as int) < (r as int + 1) * (r as int + 1),
        r as int == sqrt_floor(n as int),
        r < 0x8000_0000_0000_0000,
{
    let mut lo: u128 = 0;
    let mut hi: u128 = 0x8000_0000_0000_0000;
    proof {
        assert((0x8000_0000_0000_0000 as int) * (0x8000_0000_0000_0000 as int)
            == 0x4000_0000_0000_0000_0000_0000_0000_0000 as int) by (nonlinear_arith);
    }
    while lo + 1 < hi
        invariant
            lo < hi <= 0x8000_0000_0000_0000,
            (lo as int) * (lo as int) <= n as int,
            (n as int) < (hi as int) * (hi as int),
        decreases hi - lo,
    {
        let mid: u128 = lo + (hi - lo) / 2;
        proof {
            assert((mid as int) * (mid as int)
                < 0x4000_0000_0000_0000_0000_0000_0000_0000 as int) by (nonlinear_arith)
                requires
                    mid < 0x8000_0000_0000_0000;
        }
        if mid * mid <= n {
            lo = mid;
        } else {
            hi = mid;
        }
    }
    proof {
        lemma_sqrt_floor_unique(n as int, lo as int);
    }
    lo as u64
}

} // verus!
