//! Saturating and rounding helpers on `u128`, each with an exact contract.
use vstd::prelude::*;

verus! {

/// `a * b`, or `u128::MAX` when the product does not fit.
pub open spec fn sat_mul(a: u128, b: u128) -> u128 {
    if a * b > u128::MAX {
        u128::MAX
    } else {
        (a * b) as u128
    }
}

/// `a - b`, or 0 when `b > a`.
pub open spec fn sat_sub(a: u128, b: u128) -> u128 {
    if a < b {
        0
    } else {
        (a - b) as u128
    }
}

/// The larger of two values.
pub open spec fn max_u128(a: u128, b: u128) -> u128 {
    if a >= b {
        a
    } else {
        b
    }
}

/// The smaller of two values.
pub open spec fn min_u128(a: u128, b: u128) -> u128 {
    if a <= b {
        a
    } else {
        b
    }
}

/// `v` narrowed to `u64`, saturating at `u64::MAX`.
pub open spec fn clamp_to_u64(v: u128) -> u64 {
    if v > u64::MAX {
        u64::MAX
    } else {
        v as u64
    }
}

/// Ceiling division: `Some(⌈a / b⌉)`, computed as `(a + b - 1) / b`; `None`
/// when `b` is zero or `a + b - 1` does not fit in `u128`.
pub open spec fn ceil_div_spec(a: u128, b: u128) -> Option<u128> {
    if b == 0 || a + b - 1 > u128::MAX {
        None
    } else {
        Some(((a + b - 1) / (b as int)) as u128)
    }
}

/// Ceiling division where it is defined, floor division otherwise.
pub open spec fn div_up_or_down(a: u128, b: u128) -> u128 {
    match ceil_div_spec(a, b) {
        Some(q) => q,
        None => a / b,
    }
}

/// Ceiling division of `a` by `b`; `None` when `b` is zero or the rounding
/// addition `a + (b - 1)` overflows.
pub fn ceil_div(a: u128, b: u128) -> (r: Option<u128>)
    ensures
        r == ceil_div_spec(a, b),
{
    if b == 0 {
        return None;
    }
    match a.checked_add(b - 1) {
        Some(n) => n.checked_div(b),
        None => None,
    }
}

/// `a * b` saturating at `u128::MAX`.
pub fn saturating_mul(a: u128, b: u128) -> (r: u128)
    ensures
        r == sat_mul(a, b),
{
    match a.checked_mul(b) {
        Some(p) => p,
        None => u128::MAX,
    }
}

/// Ceiling division where it is defined, floor division otherwise.
pub fn div_round_up_or_down(a: u128, b: u128) -> (r: u128)
    requires
        b > 0,
    ensures
        r == div_up_or_down(a, b),
{
    match ceil_div(a, b) {
        Some(q) => q,
        None => a / b,
    }
}

/// `v` narrowed to `u64`, saturating at `u64::MAX`.
pub fn saturate_to_u64(v: u128) -> (r: u64)
    ensures
        r == clamp_to_u64(v),
{
    v.min(u64::MAX as u128) as u64
}

/// Ceiling division never falls below floor division and exceeds it by at
/// most one.
pub proof fn lemma_ceil_div_bounds(a: u128, b: u128)
    requires
        ceil_div_spec(a, b) is Some,
    ensures
        a / b <= ceil_div_spec(a, b)->0 <= a / b + 1,
        (a as int) <= ceil_div_spec(a, b)->0 * b,
{
    let q = (a + b - 1) / (b as int);
    assert((a as int) / (b as int) <= q <= (a as int) / (b as int) + 1) by (nonlinear_arith)
        requires
            b > 0,
            q == (a + b - 1) / (b as int),
    {
        vstd::arithmetic::div_mod::lemma_div_is_ordered(a as int, a + b - 1, b as int);
        vstd::arithmetic::div_mod::lemma_fundamental_div_mod(a as int, b as int);
        vstd::arithmetic::div_mod::lemma_fundamental_div_mod(a + b - 1, b as int);
    }
    assert(a <= q * b) by (nonlinear_arith)
        requires
            b > 0,
            q == (a + b - 1) / (b as int),
    {
        vstd::arithmetic::div_mod::lemma_fundamental_div_mod(a + b - 1, b as int);
    }
}

} // verus!
