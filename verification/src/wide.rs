//! Double-width helper arithmetic.
//!
//! Fixed-point multiplication, division and square roots need exact products
//! of two 128-bit quantities. A product is held as a high and a low 128-bit
//! half, and the quotient and root searches compare such pairs exactly, so no
//! intermediate result is ever truncated.

use vstd::prelude::*;
use vstd::arithmetic::div_mod::lemma_fundamental_div_mod_converse_div;
use vstd::arithmetic::mul::lemma_mul_is_distributive_add_other_way;

verus! {

/// The weight of the high half of a double-width quantity.
pub open spec fn high_unit() -> int {
    0x100000000000000000000000000000000int
}

/// The value of a double-width quantity held as a high and a low 128-bit half.
pub open spec fn wide(hi: u128, lo: u128) -> int {
    hi * high_unit() + lo
}

/// The floor of the square root of a non-negative integer.
pub open spec fn sqrt_floor(n: int) -> int
    decreases n,
{
    if n <= 0 {
        0
    } else {
        let r = sqrt_floor(n - 1);
        if (r + 1) * (r + 1) <= n {
            r + 1
        } else {
            r
        }
    }
}

/// `sqrt_floor` is exactly the greatest integer whose square does not exceed
/// its argument.
pub proof fn lemma_sqrt_floor(n: int)
    requires
        n >= 0,
    ensures
        sqrt_floor(n) >= 0,
        sqrt_floor(n) * sqrt_floor(n) <= n,
        n < (sqrt_floor(n) + 1) * (sqrt_floor(n) + 1),
    decreases n,
{
    if n > 0 {
        lemma_sqrt_floor(n - 1);
        let r = sqrt_floor(n - 1);
        if (r + 1) * (r + 1) <= n {
            assert((r + 2) * (r + 2) > (r + 1) * (r + 1)) by (nonlinear_arith)
                requires r >= 0;
        }
    }
}

/// Any integer bracketed the way `sqrt_floor` is bracketed equals it.
pub proof fn lemma_sqrt_floor_unique(n: int, r: int)
    requires
        n >= 0,
        r >= 0,
        r * r <= n,
        n < (r + 1) * (r + 1),
    ensures
        r == sqrt_floor(n),
{
    lemma_sqrt_floor(n);
    let s = sqrt_floor(n);
    if r < s {
        assert((r + 1) * (r + 1) <= s * s) by (nonlinear_arith)
            requires 0 <= r, r + 1 <= s;
        assert(false);
    } else if s < r {
        assert((s + 1) * (s + 1) <= r * r) by (nonlinear_arith)
            requires 0 <= s, s + 1 <= r;
        assert(false);
    }
}

/// The product of two quantities below `2^64` stays below `2^128`.
proof fn lemma_half_mul_bound(a: u128, b: u128)
    requires
        a < 0x10000000000000000,
        b < 0x10000000000000000,
    ensures
        a * b < 0x100000000000000000000000000000000int,
{
    assert(a * b < 0x100000000000000000000000000000000int) by (nonlinear_arith)
        requires a < 0x10000000000000000, b < 0x10000000000000000;
}

/// The schoolbook recombination of the four half-products, with its two
/// carries, reproduces the full product.
proof fn lemma_wide_mul_identity(
    x: int, y: int, t: int,
    xh: int, xl: int, yh: int, yl: int,
    hh: int, lh: int, hl: int, ll: int,
    cm: int, mid: int, mh: int, ml: int,
    cl: int, lo: int,
)
    by (nonlinear_arith)
    requires
        t == 0x10000000000000000,
        x == xh * t + xl,
        y == yh * t + yl,
        hh == xh * yh,
        lh == xl * yh,
        hl == xh * yl,
        ll == xl * yl,
        lh + hl == cm * (t * t) + mid,
        mid == mh * t + ml,
        ll + ml * t == cl * (t * t) + lo,
    ensures
        (hh + mh + cm * t + cl) * (t * t) + lo == x * y,
{
}

/// A high half paired with a non-negative low half can only reproduce a
/// product of two 128-bit factors if it is itself below `2^128`.
proof fn lemma_wide_hi_bound(s: int, lo: int, x: int, y: int)
    by (nonlinear_arith)
    requires
        s * 0x100000000000000000000000000000000int + lo == x * y,
        0 <= lo,
        0 <= s,
        0 <= x < 0x100000000000000000000000000000000int,
        0 <= y < 0x100000000000000000000000000000000int,
    ensures
        s < 0x100000000000000000000000000000000int,
{
}

/// The exact double-width product of two 128-bit quantities.
pub fn wide_mul(x: u128, y: u128) -> (r: (u128, u128))
    ensures
        wide(r.0, r.1) == x * y,
{
    let t64: u128 = 0x1_0000_0000_0000_0000;
    let xl: u128 = x % t64;
    let xh: u128 = x / t64;
    let yl: u128 = y % t64;
    let yh: u128 = y / t64;
    proof {
        lemma_half_mul_bound(xl, yl);
        lemma_half_mul_bound(xl, yh);
        lemma_half_mul_bound(xh, yl);
        lemma_half_mul_bound(xh, yh);
    }
    let ll: u128 = xl * yl;
    let lh: u128 = xl * yh;
    let hl: u128 = xh * yl;
    let hh: u128 = xh * yh;
    let mid: u128;
    let carry_mid: u128;
    if lh <= u128::MAX - hl {
        mid = lh + hl;
        carry_mid = 0;
    } else {
        mid = lh - (u128::MAX - hl) - 1;
        carry_mid = 1;
    }
    let mid_lo: u128 = mid % t64;
    let mid_hi: u128 = mid / t64;
    let shifted: u128 = mid_lo * t64;
    proof {
        assert(mid_lo * t64 < 0x100000000000000000000000000000000int) by (nonlinear_arith)
            requires mid_lo < t64, t64 == 0x1_0000_0000_0000_0000;
    }
    let lo: u128;
    let carry_lo: u128;
    if ll <= u128::MAX - shifted {
        lo = ll + shifted;
        carry_lo = 0;
    } else {
        lo = ll - (u128::MAX - shifted) - 1;
        carry_lo = 1;
    }
    proof {
        lemma_wide_mul_identity(
            x as int, y as int, t64 as int,
            xh as int, xl as int, yh as int, yl as int,
            hh as int, lh as int, hl as int, ll as int,
            carry_mid as int, mid as int, mid_hi as int, mid_lo as int,
            carry_lo as int, lo as int,
        );
        lemma_wide_hi_bound(
            hh + mid_hi + carry_mid * (t64 as int) + carry_lo,
            lo as int,
            x as int,
            y as int,
        );
    }
    let hi: u128 = hh + mid_hi + carry_mid * t64 + carry_lo;
    (hi, lo)
}

/// Exact comparison of two double-width quantities.
fn wide_le(ahi: u128, alo: u128, bhi: u128, blo: u128) -> (r: bool)
    ensures
        r == (wide(ahi, alo) <= wide(bhi, blo)),
{
    if ahi < bhi {
        true
    } else if ahi == bhi {
        alo <= blo
    } else {
        false
    }
}

/// The floor of the square root of a double-width quantity, found by a
/// bracketing search whose probes are compared at full precision.
pub fn wide_isqrt(nhi: u128, nlo: u128) -> (r: u128)
    ensures
        r * r <= wide(nhi, nlo),
        wide(nhi, nlo) < (r + 1) * (r + 1),
        r == sqrt_floor(wide(nhi, nlo)),
{
    let mut low: u128 = 0;
    let mut high: u128 = u128::MAX;
    while low < high
        invariant
            low <= high,
            low * low <= wide(nhi, nlo),
            wide(nhi, nlo) < (high + 1) * (high + 1),
        decreases high - low,
    {
        let gap: u128 = high - low;
        let mid: u128 = low + gap / 2 + gap % 2;
        let (phi, plo) = wide_mul(mid, mid);
        if wide_le(phi, plo, nhi, nlo) {
            low = mid;
        } else {
            high = mid - 1;
        }
    }
    proof {
        lemma_sqrt_floor_unique(wide(nhi, nlo), low as int);
    }
    low
}

/// The floor of a double-width quantity divided by a 128-bit divisor, found
/// by bracketing the quotient; `None` exactly when the quotient does not fit
/// in 128 bits, which happens exactly when the high half reaches the divisor.
pub fn wide_div(nhi: u128, nlo: u128, d: u128) -> (r: Option<u128>)
    requires
        d > 0,
    ensures
        r is Some <==> nhi < d,
        (r matches Some(q) ==> q == wide(nhi, nlo) / (d as int)),
{
    if nhi >= d {
        return None;
    }
    proof {
        assert((u128::MAX + 1) * d == 0x100000000000000000000000000000000int * d)
            by (nonlinear_arith);
        assert(wide(nhi, nlo) < 0x100000000000000000000000000000000int * d) by (nonlinear_arith)
            requires nhi < d, nlo < 0x100000000000000000000000000000000int;
    }
    let mut low: u128 = 0;
    let mut high: u128 = u128::MAX;
    while low < high
        invariant
            low <= high,
            d > 0,
            low * d <= wide(nhi, nlo),
            wide(nhi, nlo) < (high + 1) * d,
        decreases high - low,
    {
        let gap: u128 = high - low;
        let mid: u128 = low + gap / 2 + gap % 2;
        let (phi, plo) = wide_mul(mid, d);
        if wide_le(phi, plo, nhi, nlo) {
            low = mid;
        } else {
            high = mid - 1;
        }
    }
    proof {
        lemma_mul_is_distributive_add_other_way(d as int, low as int, 1);
        lemma_fundamental_div_mod_converse_div(
            wide(nhi, nlo),
            d as int,
            low as int,
            wide(nhi, nlo) - low * d,
        );
    }
    Some(low)
}

} // verus!
