use omnipair_amm_sdk::OmnipairRateModel;

const HOUR_MS: u64 = 3_600_000;

fn model() -> OmnipairRateModel {
    OmnipairRateModel {
        exp_rate: 192,
        target_util_start: 500_000_000,
        target_util_end: 850_000_000,
        half_life_ms: 3_600_000,
        min_rate: 10_000_000,
        max_rate: 5_000_000_000,
        initial_rate: 100_000_000,
    }
}

#[test]
fn no_elapsed_time_keeps_rate_and_accrues_nothing() {
    assert_eq!(model().calculate_rate(123, 0, 900_000_000), (123, 0));
    assert_eq!(model().calculate_rate(5, 0, 0), (5, 0));
}

#[test]
fn rate_holds_inside_band() {
    assert_eq!(model().calculate_rate(100_000_000, HOUR_MS, 600_000_000), (100_000_000, 11_416));
}

#[test]
fn rate_inside_band_is_lifted_to_min_rate() {
    assert_eq!(model().calculate_rate(1_000, HOUR_MS, 700_000_000), (10_000_000, 1_142));
}

#[test]
fn rate_rises_above_band() {
    assert_eq!(model().calculate_rate(100_000_000, HOUR_MS, 900_000_000), (199_610_939, 16_452));
}

#[test]
fn rate_reaches_cap_above_band() {
    assert_eq!(
        model().calculate_rate(4_000_000_000, 2 * HOUR_MS, 900_000_000),
        (5_000_000_000, 1_122_442)
    );
}

#[test]
fn rate_already_over_cap_comes_down_to_cap() {
    assert_eq!(
        model().calculate_rate(6_000_000_000, HOUR_MS, 900_000_000),
        (5_000_000_000, 570_777)
    );
}

#[test]
fn rate_uncapped_without_max_rate() {
    let mut m = model();
    m.max_rate = 0;
    assert_eq!(
        m.calculate_rate(4_000_000_000, 2 * HOUR_MS, 900_000_000),
        (15_937_809_646, 1_971_591)
    );
}

#[test]
fn rate_decays_below_band() {
    assert_eq!(model().calculate_rate(100_000_000, HOUR_MS, 100_000_000), (50_097_454, 8_242));
}

#[test]
fn rate_decay_stops_at_floor() {
    assert_eq!(model().calculate_rate(15_000_000, 2 * HOUR_MS, 100_000_000), (10_000_000, 2_440));
}

#[test]
fn rate_below_floor_is_lifted_to_floor() {
    assert_eq!(model().calculate_rate(5_000_000, HOUR_MS, 100_000_000), (10_000_000, 1_142));
}

#[test]
fn checked_rate_matches_unchecked() {
    let m = model();
    for (rate, dt, util) in [
        (100_000_000u64, HOUR_MS, 600_000_000u64),
        (100_000_000, HOUR_MS, 900_000_000),
        (4_000_000_000, 2 * HOUR_MS, 900_000_000),
        (15_000_000, 2 * HOUR_MS, 100_000_000),
    ] {
        assert_eq!(m.checked_calculate_rate(rate, dt, util), Some(m.calculate_rate(rate, dt, util)));
    }
}

#[test]
fn zero_exp_rate_fails_outside_band() {
    let mut m = model();
    m.exp_rate = 0;
    assert_eq!(m.checked_calculate_rate(100_000_000, 1_000, 900_000_000), None);
    assert_eq!(m.checked_calculate_rate(100_000_000, 1_000, 100_000_000), None);
    assert_eq!(m.checked_calculate_rate(100_000_000, 1_000, 600_000_000), Some((100_000_000, 4)));
    // Above the band but already over the cap, nothing divides by exp_rate.
    assert_eq!(m.checked_calculate_rate(6_000_000_000, 1_000, 900_000_000), Some((5_000_000_000, 159)));
}

#[test]
fn exponent_wrapping_to_i64_min_fails() {
    let m = OmnipairRateModel {
        exp_rate: 1 << 31,
        target_util_start: 0,
        target_util_end: 0,
        half_life_ms: 0,
        min_rate: 0,
        max_rate: 0,
        initial_rate: 0,
    };
    assert_eq!(m.checked_calculate_rate(100_000_000, 1 << 32, 10), None);
}

#[test]
fn time_to_reach_a_higher_rate() {
    assert_eq!(OmnipairRateModel::time_to_reach_closed_form(100_000_000, 200_000_000, 192, true), 3_610_141);
    assert_eq!(
        OmnipairRateModel::time_to_reach_closed_form(4_000_000_000, 5_000_000_000, 192, true),
        1_162_205
    );
}

#[test]
fn time_to_reach_a_lower_rate() {
    assert_eq!(OmnipairRateModel::time_to_reach_closed_form(200_000_000, 100_000_000, 192, false), 3_610_141);
    assert_eq!(OmnipairRateModel::time_to_reach_closed_form(15_000_000, 10_000_000, 192, false), 2_111_797);
}

#[test]
fn time_to_reach_is_symmetric() {
    for (a, b) in [(1u128, 7u128), (100_000_000, 200_000_000), (7, 1), (5, 5), (0, 3_000_000_000)] {
        assert_eq!(
            OmnipairRateModel::time_to_reach_closed_form(a, b, 192, true),
            OmnipairRateModel::time_to_reach_closed_form(b, a, 192, false)
        );
    }
}

#[test]
fn time_to_reach_a_reached_target_is_zero_even_without_exp_rate() {
    assert_eq!(OmnipairRateModel::time_to_reach_closed_form(5, 3, 0, true), 0);
    assert_eq!(OmnipairRateModel::time_to_reach_closed_form(5, 5, 0, true), 0);
    assert_eq!(OmnipairRateModel::time_to_reach_closed_form(3, 5, 0, false), 0);
    assert_eq!(OmnipairRateModel::time_to_reach_closed_form(5, 3, 192, true), 0);
}

#[test]
fn time_to_reach_with_exp_rate_beyond_i128() {
    // exp_rate is reinterpreted as an i128: u128::MAX becomes -1.
    assert_eq!(OmnipairRateModel::time_to_reach_closed_form(100_000_000, 200_000_000, u128::MAX, true), 0);
    // Here the ratio saturates to 1 (ln is negative); divided by -1 it is positive.
    assert_eq!(
        OmnipairRateModel::time_to_reach_closed_form(u128::MAX - 1, u128::MAX, u128::MAX, true),
        20_723_265_448
    );
    assert_eq!(
        OmnipairRateModel::time_to_reach_closed_form(u128::MAX, u128::MAX - 1, u128::MAX, false),
        20_723_265_448
    );
    assert_eq!(OmnipairRateModel::time_to_reach_closed_form(u128::MAX - 1, u128::MAX, 1u128 << 127, true), 0);
    assert_eq!(OmnipairRateModel::time_to_reach_closed_form(100_000_000, 200_000_000, 1u128 << 64, true), 0);
}
