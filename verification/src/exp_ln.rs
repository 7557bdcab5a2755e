//! Fixed-point exponential (Taylor series with argument reduction) and
//! natural logarithm (normalisation by powers of two plus an atanh series).
use vstd::prelude::*;

use crate::constants::{NAD, NATURAL_LOG_OF_TWO_NAD, TAYLOR_TERMS};

verus! {

/// Factor of the argument reduction: the series is evaluated at `x / 10` and
/// the result multiplied by itself ten times, as `e^x = (e^(x/10))^10`.
pub const EXP_REDUCTION: u64 = 10;

/// The `i`-th Taylor term of `e^(r/scale)`, scaled by `scale`:
/// `term_0 = scale`, `term_i = term_(i-1) * r / (i * scale)`, where a product
/// that overflows `u128` (or a zero divisor) makes the term 0.
pub open spec fn series_term(r: u128, scale: u64, i: nat) -> u128
    decreases i,
{
    if i == 0 {
        scale as u128
    } else {
        let prev = series_term(r, scale, (i - 1) as nat);
        if prev * r > u128::MAX || i * scale == 0 {
            0
        } else {
            ((prev * r) / (i * scale)) as u128
        }
    }
}

/// `term_0 + ... + term_i`, saturating at `u128::MAX`.
pub open spec fn series_sum(r: u128, scale: u64, i: nat) -> u128
    decreases i,
{
    if i == 0 {
        scale as u128
    } else {
        let s = series_sum(r, scale, (i - 1) as nat) + series_term(r, scale, i);
        if s > u128::MAX {
            u128::MAX
        } else {
            s as u128
        }
    }
}

/// `scale * (base / scale)^k`, rescaling by `scale` after every product;
/// `u128::MAX` once a product overflows (or `scale` is zero).
pub open spec fn scaled_power(base: u128, scale: u64, k: nat) -> u128
    decreases k,
{
    if k == 0 {
        scale as u128
    } else {
        let p = scaled_power(base, scale, (k - 1) as nat);
        if p * base > u128::MAX || scale == 0 {
            u128::MAX
        } else {
            ((p * base) / (scale as int)) as u128
        }
    }
}

/// `|x|`.
pub open spec fn abs_int(x: int) -> int {
    if x < 0 {
        -x
    } else {
        x
    }
}

/// The value `taylor_exp(x, scale, precision)` computes: `e^(x/scale)` scaled
/// by `scale`, from `precision` Taylor terms of `e^(|x|/(10 scale))` raised to
/// the 10th power, inverted as `scale^2 / e` for negative `x`, and finally
/// truncated to its low 64 bits.
pub open spec fn taylor_exp_spec(x: int, scale: u64, precision: u64) -> u64 {
    let r = (abs_int(x) / 10) as u128;
    let e = scaled_power(series_sum(r, scale, precision as nat), scale, EXP_REDUCTION as nat);
    let res = if x < 0 {
        ((scale * scale) / (e as int)) as u128
    } else {
        e
    };
    res as u64
}

/// Every partial sum is at least `scale` (all terms are non-negative).
pub proof fn lemma_series_sum_ge_scale(r: u128, scale: u64, i: nat)
    ensures
        series_sum(r, scale, i) >= scale,
    decreases i,
{
    if i > 0 {
        lemma_series_sum_ge_scale(r, scale, (i - 1) as nat);
    }
}

/// With a base of at least `scale`, every power is at least `scale`.
pub proof fn lemma_scaled_power_ge_scale(base: u128, scale: u64, k: nat)
    requires
        base >= scale,
    ensures
        scaled_power(base, scale, k) >= scale,
    decreases k,
{
    if k > 0 {
        lemma_scaled_power_ge_scale(base, scale, (k - 1) as nat);
        let p = scaled_power(base, scale, (k - 1) as nat);
        if !(p * base > u128::MAX || scale == 0) {
            assert((p * base) / (scale as int) >= p) by (nonlinear_arith)
                requires
                    base >= scale,
                    scale > 0,
                    p >= 0,
            {
                assert(p * base >= p * scale);
                vstd::arithmetic::div_mod::lemma_div_is_ordered(p * scale, p * base, scale as int);
                vstd::arithmetic::div_mod::lemma_div_by_multiple(p as int, scale as int);
            }
        }
    }
}

/// The power is positive after at least one step: it saturates at
/// `u128::MAX` when `scale` is zero and is at least `scale` otherwise.
pub proof fn lemma_scaled_power_positive(base: u128, scale: u64, k: nat)
    requires
        base >= scale,
        k > 0,
    ensures
        scaled_power(base, scale, k) > 0,
        scale == 0 ==> scaled_power(base, scale, k) == u128::MAX,
{
    if scale > 0 {
        lemma_scaled_power_ge_scale(base, scale, k);
    }
}

/// `e^(x/scale)` scaled: `taylor_exp(x, scale, precision)`.
///
/// `x` must not be `i64::MIN`, whose negation overflows. With a zero `scale`
/// every rescaling fails, the power saturates and a negative `x` gives 0.
pub fn taylor_exp(x: i64, scale: u64, precision: u64) -> (r: u64)
    requires
        x > i64::MIN,
    ensures
        r == taylor_exp_spec(x as int, scale, precision),
{
    let is_negative = x < 0;
    let abs_x = if is_negative {
        -x
    } else {
        x
    };
    let n: u64 = EXP_REDUCTION;
    let reduced_x = abs_x / (n as i64);
    let r = reduced_x as u128;

    let mut term = scale as u128;
    let mut sum = scale as u128;
    let mut j: u64 = 0;
    while j < precision
        invariant
            j <= precision,
            term == series_term(r, scale, j as nat),
            sum == series_sum(r, scale, j as nat),
        decreases precision - j,
    {
        let i = j + 1;
        assert(i * scale <= u128::MAX) by (nonlinear_arith)
            requires
                i <= u64::MAX,
                scale <= u64::MAX,
        ;
        let divisor = i as u128 * scale as u128;
        term = match term.checked_mul(r) {
            Some(t) => match t.checked_div(divisor) {
                Some(q) => q,
                None => 0,
            },
            None => 0,
        };
        sum = match sum.checked_add(term) {
            Some(s) => s,
            None => u128::MAX,
        };
        j = i;
    }

    let mut result = scale as u128;
    let mut k: u64 = 0;
    while k < n
        invariant
            k <= n,
            n == EXP_REDUCTION,
            sum == series_sum(r, scale, precision as nat),
            result == scaled_power(sum, scale, k as nat),
        decreases n - k,
    {
        result = match result.checked_mul(sum) {
            Some(p) => match p.checked_div(scale as u128) {
                Some(q) => q,
                None => u128::MAX,
            },
            None => u128::MAX,
        };
        k = k + 1;
    }

    if is_negative {
        proof {
            lemma_series_sum_ge_scale(r, scale, precision as nat);
            lemma_scaled_power_positive(sum, scale, EXP_REDUCTION as nat);
        }
        assert(scale * scale <= u128::MAX) by (nonlinear_arith)
            requires
                scale <= u64::MAX,
        ;
        result = (scale as u128 * scale as u128) / result;
    }
    result as u64
}


/// Division truncating toward zero, as Rust's signed `/` does (`b != 0`):
/// a non-negative dividend divided by either sign of `b` with `/`, whose
/// quotient of a non-negative number rounds toward zero.
pub open spec fn trunc_div(a: int, b: int) -> int {
    if a >= 0 {
        a / b
    } else {
        -((-a) / b)
    }
}

/// Truncating division never grows the magnitude of the dividend.
pub proof fn lemma_trunc_div_bounded(a: int, b: int)
    requires
        b != 0,
    ensures
        abs_int(trunc_div(a, b)) <= abs_int(a),
{
    let m = abs_int(a);
    assert(m / b <= m && m / b >= -m) by (nonlinear_arith)
        requires
            m >= 0,
            b != 0,
    {
        if b > 0 {
            vstd::arithmetic::div_mod::lemma_div_is_ordered_by_denominator(m, 1, b);
            vstd::arithmetic::div_mod::lemma_div_pos_is_pos(m, b);
        } else {
            vstd::arithmetic::div_mod::lemma_fundamental_div_mod(m, b);
            assert(0 <= m % b < -b);
        }
    }
}

/// Doubles `z` (decrementing the exponent `k`) until it reaches `NAD / 2`;
/// zero, which never gets there, is left as is.
pub open spec fn normalize_up(z: u128, k: int) -> (u128, int)
    decreases NAD - z,
{
    if z == 0 || z >= NAD / 2 {
        (z, k)
    } else {
        normalize_up((2 * z) as u128, k - 1)
    }
}

/// Halves `z` (incrementing the exponent `k`) while it is at least `2 * NAD`.
pub open spec fn normalize_down(z: u128, k: int) -> (u128, int)
    decreases z,
{
    if z >= 2 * NAD {
        normalize_down(z / 2, k + 1)
    } else {
        (z, k)
    }
}

/// `(z, k)` with `x = z * 2^k` and `z` brought into `[NAD/2, 2 NAD)`.
pub open spec fn normalize(x: u64) -> (u128, int) {
    let (z, k) = normalize_up(x as u128, 0);
    normalize_down(z, k)
}

/// `2 * (v + v^3/3 + v^5/5 + v^7/7 + v^9/9)` in fixed point, where each power
/// is rescaled by `NAD` with truncating division: the atanh series for
/// `ln(z / NAD)` with `v = (z - NAD) / (z + NAD)`.
pub open spec fn atanh_series(v: int) -> int {
    let n = NAD as int;
    let v2 = trunc_div(v * v, n);
    let v3 = trunc_div(v2 * v, n);
    let v5 = trunc_div(v3 * v2, n);
    let v7 = trunc_div(v5 * v2, n);
    let v9 = trunc_div(v7 * v2, n);
    v + trunc_div(v3, 3) + trunc_div(v5, 5) + trunc_div(v7, 7) + trunc_div(v9, 9)
}

/// The value `ln_nad(x)` computes: `ln(x / NAD)` scaled by `NAD`, as
/// `2 * atanh_series(v) + k * ln 2` after normalising `x = z * 2^k`.
pub open spec fn ln_nad_spec(x: u64) -> int {
    let (z, k) = normalize(x);
    let n = NAD as int;
    let num = (z - n) * n;
    let den = if z + n >= 1 {
        z + n
    } else {
        1
    };
    let v = trunc_div(num, den);
    2 * atanh_series(v) + k * (NATURAL_LOG_OF_TWO_NAD as int)
}

/// Powers of a fixed-point value of magnitude at most `NAD` keep that bound.
proof fn lemma_rescaled_product_bounded(a: int, b: int)
    requires
        -(NAD as int) <= a <= NAD,
        -(NAD as int) <= b <= NAD,
    ensures
        -(NAD as int) <= trunc_div(a * b, NAD as int) <= NAD,
        -(NAD as int) * (NAD as int) <= a * b <= (NAD as int) * (NAD as int),
{
    let n = NAD as int;
    assert(-n * n <= a * b <= n * n) by (nonlinear_arith)
        requires
            -n <= a <= n,
            -n <= b <= n,
            n > 0,
    ;
    if a * b >= 0 {
        assert((a * b) / n <= n) by (nonlinear_arith)
            requires
                0 <= a * b <= n * n,
                n > 0,
        {
            vstd::arithmetic::div_mod::lemma_div_is_ordered(a * b, n * n, n);
            vstd::arithmetic::div_mod::lemma_div_by_multiple(n, n);
        }
        vstd::arithmetic::div_mod::lemma_div_pos_is_pos(a * b, n);
    } else {
        assert((-(a * b)) / n <= n) by (nonlinear_arith)
            requires
                0 <= -(a * b) <= n * n,
                n > 0,
        {
            vstd::arithmetic::div_mod::lemma_div_is_ordered(-(a * b), n * n, n);
            vstd::arithmetic::div_mod::lemma_div_by_multiple(n, n);
        }
        vstd::arithmetic::div_mod::lemma_div_pos_is_pos(-(a * b), n);
    }
}

/// `v` rescaled by the odd powers of the series, `v` bounded by `NAD`.
fn odd_power_series(v: i128) -> (s: i128)
    requires
        -(NAD as int) <= v <= NAD,
    ensures
        s == atanh_series(v as int),
{
    let n: i128 = NAD as i128;
    proof {
        lemma_rescaled_product_bounded(v as int, v as int);
    }
    let v2 = (v * v) / n;
    proof {
        lemma_rescaled_product_bounded(v2 as int, v as int);
    }
    let v3 = (v2 * v) / n;
    proof {
        lemma_rescaled_product_bounded(v3 as int, v2 as int);
    }
    let v5 = (v3 * v2) / n;
    proof {
        lemma_rescaled_product_bounded(v5 as int, v2 as int);
    }
    let v7 = (v5 * v2) / n;
    proof {
        lemma_rescaled_product_bounded(v7 as int, v2 as int);
    }
    let v9 = (v7 * v2) / n;
    v + v3 / 3 + v5 / 5 + v7 / 7 + v9 / 9
}

/// `(z - n) * n / (z + n)` lies in `[-n, n]` for `z >= 0`.
proof fn lemma_ratio_bounded(z: int, n: int)
    requires
        0 <= z,
        n > 0,
    ensures
        -n <= trunc_div((z - n) * n, z + n) <= n,
{
    let a = z - n;
    let d = z + n;
    if a >= 0 {
        assert(0 <= a * n <= d * n) by (nonlinear_arith)
            requires
                0 <= a <= d,
                n > 0,
        ;
        vstd::arithmetic::div_mod::lemma_div_is_ordered(a * n, d * n, d);
        vstd::arithmetic::div_mod::lemma_div_by_multiple(n, d);
        vstd::arithmetic::div_mod::lemma_div_pos_is_pos(a * n, d);
    } else {
        assert(0 <= -(a * n) <= d * n) by (nonlinear_arith)
            requires
                -d <= a < 0,
                n > 0,
        ;
        vstd::arithmetic::div_mod::lemma_div_is_ordered(-(a * n), d * n, d);
        vstd::arithmetic::div_mod::lemma_div_by_multiple(n, d);
        vstd::arithmetic::div_mod::lemma_div_pos_is_pos(-(a * n), d);
    }
}

/// Brings `x` into `[NAD/2, 2 NAD)` by powers of two: returns `normalize(x)`.
fn normalize_exec(x_nad: u64) -> (res: (u128, i128))
    requires
        x_nad > 0,
    ensures
        (res.0, res.1 as int) == normalize(x_nad),
        NAD / 2 <= res.0 < 2 * NAD,
        -(NAD as int) <= res.1 <= u64::MAX,
{
    let nad = NAD as u128;
    let mut z = x_nad as u128;
    let mut k: i128 = 0;

    while z < nad / 2
        invariant
            nad == NAD,
            z >= 1,
            k <= 0,
            -k <= z - x_nad,
            (k == 0 && z == x_nad) || (k < 0 && z < NAD),
            normalize_up(z, k as int) == normalize_up(x_nad as u128, 0),
        decreases NAD - z,
    {
        z = z * 2;
        k -= 1;
    }
    let ghost z1 = z;
    let ghost k1 = k;
    while z >= nad * 2
        invariant
            nad == NAD,
            z1 <= u64::MAX,
            k1 >= -(NAD as int),
            k1 <= 0,
            z <= z1,
            z1 >= NAD / 2,
            z >= NAD / 2,
            k - k1 <= z1 - z,
            k >= k1,
            normalize_down(z, k as int) == normalize_down(z1, k1 as int),
        decreases z,
    {
        z /= 2;
        k += 1;
    }
    (z, k)
}

/// Fixed-point natural logarithm: `ln(x_nad / NAD)` scaled by `NAD`.
///
/// The argument must be positive.
pub fn ln_nad(x_nad: u64) -> (r: i128)
    requires
        x_nad > 0,
    ensures
        r == ln_nad_spec(x_nad),
        r > i128::MIN,
{
    let (z, k) = normalize_exec(x_nad);

    let n: i128 = NAD as i128;
    let z_i = z as i128;
    proof {
        assert((z_i - n) * n <= 2 * n * n) by (nonlinear_arith)
            requires
                0 <= z_i < 2 * n,
                n > 0,
        ;
        assert((z_i - n) * n >= -(n * n)) by (nonlinear_arith)
            requires
                0 <= z_i,
                n > 0,
        ;
        lemma_ratio_bounded(z_i as int, n as int);
    }
    let num = (z_i - n) * n;
    let den = (z_i + n).max(1);
    let v = num / den;
    let series = odd_power_series(v);

    let ln2 = NATURAL_LOG_OF_TWO_NAD as i128;
    proof {
        assert(-(4 * n) <= series <= 4 * n) by {
            lemma_rescaled_product_bounded(v as int, v as int);
            let v2 = trunc_div(v * v, n as int);
            lemma_rescaled_product_bounded(v2, v as int);
            let v3 = trunc_div(v2 * v, n as int);
            lemma_rescaled_product_bounded(v3, v2);
            let v5 = trunc_div(v3 * v2, n as int);
            lemma_rescaled_product_bounded(v5, v2);
            let v7 = trunc_div(v5 * v2, n as int);
            lemma_rescaled_product_bounded(v7, v2);
        }
        assert(-(NAD as int) * 693_147_180 <= k * ln2 <= (u64::MAX as int) * 693_147_180) by (nonlinear_arith)
            requires
                -(NAD as int) <= k <= u64::MAX,
                ln2 == 693_147_180,
        ;
    }
    2 * series + k * ln2
}

/// With a zero argument every term after the first vanishes.
proof fn lemma_series_at_zero(scale: u64, i: nat)
    ensures
        series_sum(0, scale, i) == scale,
        i > 0 ==> series_term(0, scale, i) == 0,
    decreases i,
{
    if i > 0 {
        lemma_series_at_zero(scale, (i - 1) as nat);
    }
}

/// `scale` is a fixed point of the rescaled power.
proof fn lemma_scaled_power_of_scale(scale: u64, k: nat)
    requires
        scale > 0,
    ensures
        scaled_power(scale as u128, scale, k) == scale,
    decreases k,
{
    if k > 0 {
        lemma_scaled_power_of_scale(scale, (k - 1) as nat);
        assert(scale * scale <= u128::MAX) by (nonlinear_arith)
            requires
                scale <= u64::MAX,
        ;
        vstd::arithmetic::div_mod::lemma_div_by_multiple(scale as int, scale as int);
    }
}

/// `e^0 = 1`: with a positive scale, `taylor_exp(0, scale, precision)` is
/// exactly `scale`.
pub proof fn lemma_exp_of_zero(scale: u64, precision: u64)
    requires
        scale > 0,
    ensures
        taylor_exp_spec(0, scale, precision) == scale,
{
    lemma_series_at_zero(scale, precision as nat);
    lemma_scaled_power_of_scale(scale, EXP_REDUCTION as nat);
}

/// A negative exponent gives a factor of at most one:
/// `taylor_exp(x, scale, precision) <= scale` for `x < 0`.
pub proof fn lemma_exp_of_negative_at_most_one(x: int, scale: u64, precision: u64)
    requires
        i64::MIN < x < 0,
    ensures
        taylor_exp_spec(x, scale, precision) <= scale,
{
    let r = (abs_int(x) / 10) as u128;
    let sum = series_sum(r, scale, precision as nat);
    lemma_series_sum_ge_scale(r, scale, precision as nat);
    lemma_scaled_power_positive(sum, scale, EXP_REDUCTION as nat);
    if scale > 0 {
        lemma_scaled_power_ge_scale(sum, scale, EXP_REDUCTION as nat);
        let e = scaled_power(sum, scale, EXP_REDUCTION as nat);
        assert((scale * scale) / (e as int) <= scale) by (nonlinear_arith)
            requires
                e >= scale,
                scale > 0,
        {
            vstd::arithmetic::div_mod::lemma_div_is_ordered_by_denominator(
                scale * scale,
                scale as int,
                e as int,
            );
            vstd::arithmetic::div_mod::lemma_div_by_multiple(scale as int, scale as int);
        }
    }
}

/// The sign of the atanh series is the sign of `v`.
proof fn lemma_atanh_series_sign(v: int)
    ensures
        v >= 0 ==> atanh_series(v) >= 0,
        v <= 0 ==> atanh_series(v) <= 0,
{
    let n = NAD as int;
    assert(v * v >= 0) by (nonlinear_arith);
    let v2 = trunc_div(v * v, n);
    assert(v2 >= 0);
    assert(v >= 0 ==> v2 * v >= 0) by (nonlinear_arith)
        requires
            v2 >= 0,
    ;
    assert(v <= 0 ==> v2 * v <= 0) by (nonlinear_arith)
        requires
            v2 >= 0,
    ;
    let v3 = trunc_div(v2 * v, n);
    assert(v >= 0 ==> v3 * v2 >= 0 && v3 >= 0) by (nonlinear_arith)
        requires
            v2 >= 0,
            v >= 0 ==> v3 >= 0,
    ;
    assert(v <= 0 ==> v3 * v2 <= 0 && v3 <= 0) by (nonlinear_arith)
        requires
            v2 >= 0,
            v <= 0 ==> v3 <= 0,
    ;
    let v5 = trunc_div(v3 * v2, n);
    assert(v >= 0 ==> v5 * v2 >= 0 && v5 >= 0) by (nonlinear_arith)
        requires
            v2 >= 0,
            v >= 0 ==> v5 >= 0,
    ;
    assert(v <= 0 ==> v5 * v2 <= 0 && v5 <= 0) by (nonlinear_arith)
        requires
            v2 >= 0,
            v <= 0 ==> v5 <= 0,
    ;
    let v7 = trunc_div(v5 * v2, n);
    assert(v >= 0 ==> v7 * v2 >= 0 && v7 >= 0) by (nonlinear_arith)
        requires
            v2 >= 0,
            v >= 0 ==> v7 >= 0,
    ;
    assert(v <= 0 ==> v7 * v2 <= 0 && v7 <= 0) by (nonlinear_arith)
        requires
            v2 >= 0,
            v <= 0 ==> v7 <= 0,
    ;
}

/// Doubling stops in `[NAD/2, NAD)` with a negative exponent, or leaves an
/// already large enough value alone.
proof fn lemma_normalize_up(z: u128, k: int)
    requires
        z >= 1,
    ensures
        z >= NAD / 2 ==> normalize_up(z, k) == (z, k),
        z < NAD / 2 ==> NAD / 2 <= normalize_up(z, k).0 < NAD && normalize_up(z, k).1 < k,
    decreases NAD - z,
{
    if z < NAD / 2 {
        lemma_normalize_up((2 * z) as u128, k - 1);
    }
}

/// Halving stops in `[NAD, 2 NAD)` with a positive exponent, or leaves a
/// small enough value alone.
proof fn lemma_normalize_down(z: u128, k: int)
    ensures
        z < 2 * NAD ==> normalize_down(z, k) == (z, k),
        z >= 2 * NAD ==> NAD <= normalize_down(z, k).0 < 2 * NAD && normalize_down(z, k).1 > k,
    decreases z,
{
    if z >= 2 * NAD {
        lemma_normalize_down(z / 2, k + 1);
    }
}

/// The logarithm has the sign of `ln(x / NAD)`: non-negative from `NAD` up,
/// non-positive below it.
pub proof fn lemma_ln_sign(x: u64)
    requires
        x > 0,
    ensures
        x >= NAD ==> ln_nad_spec(x) >= 0,
        x < NAD ==> ln_nad_spec(x) <= 0,
{
    lemma_normalize_up(x as u128, 0);
    let (z0, k0) = normalize_up(x as u128, 0);
    lemma_normalize_down(z0, k0);
    let (z, k) = normalize(x);
    let n = NAD as int;
    let num = (z - n) * n;
    let den = z + n;
    let v = trunc_div(num, den);
    if x >= NAD {
        assert(z >= n && k >= 0);
        assert(num >= 0) by (nonlinear_arith)
            requires
                z >= n,
                n > 0,
                num == (z - n) * n,
        ;
        vstd::arithmetic::div_mod::lemma_div_pos_is_pos(num, den);
        lemma_atanh_series_sign(v);
        assert(k * (NATURAL_LOG_OF_TWO_NAD as int) >= 0) by (nonlinear_arith)
            requires
                k >= 0,
        ;
    } else {
        assert(z < n && k <= 0);
        assert(num <= 0) by (nonlinear_arith)
            requires
                z < n,
                n > 0,
                num == (z - n) * n,
        ;
        vstd::arithmetic::div_mod::lemma_div_pos_is_pos(-num, den);
        lemma_atanh_series_sign(v);
        assert(k * (NATURAL_LOG_OF_TWO_NAD as int) <= 0) by (nonlinear_arith)
            requires
                k <= 0,
        ;
    }
}

/// `100^i`.
pub open spec fn pow100(i: nat) -> nat
    decreases i,
{
    if i == 0 {
        1
    } else {
        100 * pow100((i - 1) as nat)
    }
}

/// For `r <= 100 * scale` each term grows by at most a factor of 100.
proof fn lemma_series_term_bound(r: u128, scale: u64, i: nat)
    requires
        scale > 0,
        r <= 100 * scale,
    ensures
        series_term(r, scale, i) <= scale * pow100(i),
    decreases i,
{
    if i > 0 {
        lemma_series_term_bound(r, scale, (i - 1) as nat);
        let prev = series_term(r, scale, (i - 1) as nat);
        let b = scale * pow100((i - 1) as nat);
        assert(scale * pow100(i) >= 0) by (nonlinear_arith)
            requires
                scale >= 0,
        ;
        if !(prev * r > u128::MAX || i * scale == 0) {
            assert((prev * r) / (i * scale) <= scale * pow100(i)) by (nonlinear_arith)
                requires
                    prev <= b,
                    b == scale * pow100((i - 1) as nat),
                    pow100(i) == 100 * pow100((i - 1) as nat),
                    r <= 100 * scale,
                    scale > 0,
                    i >= 1,
                    prev >= 0,
                    r >= 0,
            {
                assert(prev * r <= b * (100 * scale));
                assert(i * scale >= scale);
                vstd::arithmetic::div_mod::lemma_div_is_ordered_by_denominator(
                    prev * r,
                    scale as int,
                    i * scale,
                );
                vstd::arithmetic::div_mod::lemma_div_is_ordered(prev * r, b * (100 * scale), scale as int);
                assert(b * (100 * scale) == (100 * b) * scale);
                vstd::arithmetic::div_mod::lemma_div_by_multiple(100 * b, scale as int);
            }
            assert((prev * r) / (i * scale) <= prev * r) by (nonlinear_arith)
                requires
                    prev * r >= 0,
                    i * scale >= 1,
            {
                vstd::arithmetic::div_mod::lemma_div_is_ordered_by_denominator(prev * r, 1, i * scale);
            }
        }
    } else {
        assert(scale * pow100(0) == scale) by (nonlinear_arith)
            requires
                pow100(0) == 1,
        ;
    }
}

/// Terms grow with the argument while the larger argument's products fit.
proof fn lemma_series_term_monotone(r1: u128, r2: u128, scale: u64, i: nat)
    requires
        r1 <= r2,
        forall|j: nat| j < i ==> #[trigger] series_term(r2, scale, j) * r2 <= u128::MAX,
    ensures
        series_term(r1, scale, i) <= series_term(r2, scale, i),
    decreases i,
{
    if i > 0 {
        lemma_series_term_monotone(r1, r2, scale, (i - 1) as nat);
        let p1 = series_term(r1, scale, (i - 1) as nat);
        let p2 = series_term(r2, scale, (i - 1) as nat);
        assert(p2 * r2 <= u128::MAX);
        assert(p1 * r1 <= p2 * r2) by (nonlinear_arith)
            requires
                0 <= p1 <= p2,
                0 <= r1 <= r2,
        ;
        if i * scale != 0 {
            vstd::arithmetic::div_mod::lemma_div_is_ordered(p1 * r1, p2 * r2, i * scale);
        }
    }
}

/// Partial sums grow with the argument while the larger argument's products
/// fit.
proof fn lemma_series_sum_monotone(r1: u128, r2: u128, scale: u64, i: nat)
    requires
        r1 <= r2,
        forall|j: nat| j < i ==> #[trigger] series_term(r2, scale, j) * r2 <= u128::MAX,
    ensures
        series_sum(r1, scale, i) <= series_sum(r2, scale, i),
    decreases i,
{
    if i > 0 {
        lemma_series_sum_monotone(r1, r2, scale, (i - 1) as nat);
        lemma_series_term_monotone(r1, r2, scale, i);
    }
}

/// The rescaled power grows with its base.
proof fn lemma_scaled_power_monotone(b1: u128, b2: u128, scale: u64, k: nat)
    requires
        b1 <= b2,
    ensures
        scaled_power(b1, scale, k) <= scaled_power(b2, scale, k),
    decreases k,
{
    if k > 0 {
        lemma_scaled_power_monotone(b1, b2, scale, (k - 1) as nat);
        let p1 = scaled_power(b1, scale, (k - 1) as nat);
        let p2 = scaled_power(b2, scale, (k - 1) as nat);
        assert(p1 * b1 <= p2 * b2) by (nonlinear_arith)
            requires
                0 <= p1 <= p2,
                0 <= b1 <= b2,
        ;
        if scale != 0 && p2 * b2 <= u128::MAX {
            vstd::arithmetic::div_mod::lemma_div_is_ordered(p1 * b1, p2 * b2, scale as int);
        }
        if scale != 0 && p1 * b1 <= u128::MAX {
            assert((p1 * b1) / (scale as int) <= u128::MAX) by (nonlinear_arith)
                requires
                    0 <= p1 * b1 <= u128::MAX,
                    scale >= 1,
            {
                vstd::arithmetic::div_mod::lemma_div_is_ordered_by_denominator(p1 * b1, 1, scale as int);
            }
        }
    }
}

/// `taylor_exp(x, NAD, TAYLOR_TERMS)` is non-decreasing in `x` for
/// `-10^12 <= x <= 0`, where no Taylor product overflows.
pub proof fn lemma_exp_monotone_on_negatives(x1: int, x2: int)
    requires
        -1_000_000_000_000 <= x1 <= x2 <= 0,
    ensures
        taylor_exp_spec(x1, NAD, TAYLOR_TERMS) <= taylor_exp_spec(x2, NAD, TAYLOR_TERMS),
{
    let r1 = (abs_int(x1) / 10) as u128;
    let r2 = (abs_int(x2) / 10) as u128;
    assert(r2 <= r1 <= 100 * NAD);
    assert forall|j: nat| j < TAYLOR_TERMS implies #[trigger] series_term(r1, NAD, j) * r1
        <= u128::MAX by {
        lemma_series_term_bound(r1, NAD, j);
        assert(pow100(j) <= 100_000_000) by {
            reveal_with_fuel(pow100, 5);
        }
        assert(series_term(r1, NAD, j) * r1 <= u128::MAX) by (nonlinear_arith)
            requires
                series_term(r1, NAD, j) <= NAD * pow100(j),
                pow100(j) <= 100_000_000,
                r1 <= 100 * NAD,
                NAD == 1_000_000_000,
        ;
    }
    lemma_series_sum_monotone(r2, r1, NAD, TAYLOR_TERMS as nat);
    let s1 = series_sum(r1, NAD, TAYLOR_TERMS as nat);
    let s2 = series_sum(r2, NAD, TAYLOR_TERMS as nat);
    lemma_scaled_power_monotone(s2, s1, NAD, EXP_REDUCTION as nat);
    if x2 == 0 {
        lemma_exp_of_zero(NAD, TAYLOR_TERMS);
        if x1 < 0 {
            lemma_exp_of_negative_at_most_one(x1, NAD, TAYLOR_TERMS);
        }
    } else {
        lemma_series_sum_ge_scale(r2, NAD, TAYLOR_TERMS as nat);
        lemma_scaled_power_ge_scale(s2, NAD, EXP_REDUCTION as nat);
        let e1 = scaled_power(s1, NAD, EXP_REDUCTION as nat);
        let e2 = scaled_power(s2, NAD, EXP_REDUCTION as nat);
        let n2 = (NAD * NAD) as int;
        vstd::arithmetic::div_mod::lemma_div_is_ordered_by_denominator(n2, e2 as int, e1 as int);
        lemma_exp_of_negative_at_most_one(x1, NAD, TAYLOR_TERMS);
        lemma_exp_of_negative_at_most_one(x2, NAD, TAYLOR_TERMS);
    }
}

/// Normalising upwards shifts the exponent and nothing else.
proof fn lemma_normalize_up_shift(z: u128, k: int, c: int)
    ensures
        normalize_up(z, k + c) == (normalize_up(z, k).0, normalize_up(z, k).1 + c),
    decreases NAD - z,
{
    if !(z == 0 || z >= NAD / 2) {
        lemma_normalize_up_shift((2 * z) as u128, k - 1, c);
        assert(k + c - 1 == (k - 1) + c);
    }
}

/// Normalising downwards shifts the exponent and nothing else.
proof fn lemma_normalize_down_shift(z: u128, k: int, c: int)
    ensures
        normalize_down(z, k + c) == (normalize_down(z, k).0, normalize_down(z, k).1 + c),
    decreases z,
{
    if z >= 2 * NAD {
        lemma_normalize_down_shift(z / 2, k + 1, c);
        assert(k + c + 1 == (k + 1) + c);
    }
}

/// Doubling the argument adds `ln 2`: `ln_nad(2x) == ln_nad(x) + ln 2`,
/// except for `x` in `[NAD/2, NAD)`, where `x` and `2x` normalise to
/// different mantissas.
pub proof fn lemma_ln_of_double(x: u64)
    requires
        x > 0,
        2 * x <= u64::MAX,
        !(NAD / 2 <= x < NAD),
    ensures
        ln_nad_spec((2 * x) as u64) == ln_nad_spec(x) + NATURAL_LOG_OF_TWO_NAD,
{
    let x2 = (2 * x) as u64;
    if x < NAD / 2 {
        assert(normalize_up(x as u128, 0) == normalize_up(x2 as u128, -1));
        lemma_normalize_up_shift(x2 as u128, 0, -1);
        let (z, k) = normalize_up(x2 as u128, 0);
        lemma_normalize_down_shift(z, k, -1);
        assert(normalize(x) == (normalize(x2).0, normalize(x2).1 - 1));
    } else {
        assert(normalize_up(x as u128, 0) == (x as u128, 0int));
        assert(normalize_up(x2 as u128, 0) == (x2 as u128, 0int));
        assert(normalize_down(x2 as u128, 0) == normalize_down(x as u128, 1));
        lemma_normalize_down_shift(x as u128, 0, 1);
        assert(normalize(x2) == (normalize(x).0, normalize(x).1 + 1));
    }
    let (z, k) = normalize(x);
    assert((k + 1) * (NATURAL_LOG_OF_TWO_NAD as int) == k * (NATURAL_LOG_OF_TWO_NAD as int)
        + NATURAL_LOG_OF_TWO_NAD) by (nonlinear_arith);
}

} // verus!
