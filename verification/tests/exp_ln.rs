use omnipair_amm_sdk::exp_ln::{ln_nad, taylor_exp};
use omnipair_amm_sdk::NAD;

#[test]
fn exp_of_zero_is_scale() {
    assert_eq!(taylor_exp(0, NAD, 5), NAD);
}

#[test]
fn exp_of_minus_one() {
    // e^-1 = 0.36787944...
    assert_eq!(taylor_exp(-(NAD as i64), NAD, 5), 367_879_452);
}

#[test]
fn exp_of_plus_one() {
    // e = 2.71828182...
    assert_eq!(taylor_exp(NAD as i64, NAD, 5), 2_718_281_744);
}

#[test]
fn exp_of_minus_five() {
    assert_eq!(taylor_exp(-5 * NAD as i64, NAD, 5), 6_738_901);
}

#[test]
fn exp_of_small_negative() {
    assert_eq!(taylor_exp(-12_345, NAD, 5), 999_987_660);
}

#[test]
fn exp_negative_never_exceeds_scale() {
    for x in [1i64, 10, 1_000, 1_000_000, 1_000_000_000, 50_000_000_000, i64::MAX] {
        assert!(taylor_exp(-x, NAD, 5) <= NAD);
    }
}

#[test]
fn exp_with_zero_scale_saturates_to_low_bits() {
    // Every rescaling divides by zero, so the power saturates at u128::MAX,
    // whose low 64 bits are u64::MAX.
    assert_eq!(taylor_exp(7, 0, 5), u64::MAX);
}

#[test]
fn ln_of_one_is_zero() {
    assert_eq!(ln_nad(NAD), 0);
}

#[test]
fn ln_of_two() {
    assert_eq!(ln_nad(2 * NAD), 693_147_180);
}

#[test]
fn ln_of_half() {
    assert_eq!(ln_nad(NAD / 2), -693_146_044);
}

#[test]
fn ln_of_e_and_ten() {
    assert_eq!(ln_nad(2_718_281_828), 999_999_992);
    assert_eq!(ln_nad(10 * NAD), 2_302_585_088);
}

#[test]
fn ln_of_extremes() {
    assert_eq!(ln_nad(1), -20_723_265_448);
    assert_eq!(ln_nad(u64::MAX), 23_638_153_696);
}

#[test]
fn ln_sign_follows_argument() {
    for x in [1u64, 7, 499_999_999, 999_999_999] {
        assert!(ln_nad(x) <= 0);
    }
    for x in [NAD, NAD + 1, 1_999_999_999, 3 * NAD, u64::MAX] {
        assert!(ln_nad(x) >= 0);
    }
}

#[test]
fn exp_with_zero_scale_and_negative_argument_is_zero() {
    // The power saturates at u128::MAX and 0 * 0 / u128::MAX is 0.
    assert_eq!(taylor_exp(-7, 0, 5), 0);
    assert_eq!(taylor_exp(-(NAD as i64), 0, 5), 0);
}

#[test]
fn exp_is_monotone_on_negative_arguments() {
    let xs = [
        -1_000_000_000_000i64,
        -999_999_999_999,
        -30_000_000_000,
        -5_000_000_000,
        -1_000_000_001,
        -1_000_000_000,
        -12_345,
        -10,
        -9,
        -1,
        0,
    ];
    for w in xs.windows(2) {
        assert!(taylor_exp(w[0], NAD, 5) <= taylor_exp(w[1], NAD, 5));
    }
}

#[test]
fn ln_of_double_adds_ln_two() {
    for x in [1u64, 1_000, NAD / 2 - 1, NAD, 3 * NAD, 1_000_000_000_000_000] {
        assert_eq!(ln_nad(2 * x), ln_nad(x) + 693_147_180);
    }
}
