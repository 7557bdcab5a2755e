use omnipair_amm_sdk::{ceil_div, slots_to_ms, OmnipairPair, OmnipairRateModel};

fn model() -> OmnipairRateModel {
    OmnipairRateModel {
        exp_rate: 192,
        target_util_start: 500_000_000,
        target_util_end: 850_000_000,
        half_life_ms: 3_600_000,
        min_rate: 10_000_000,
        max_rate: 5_000_000_000,
        initial_rate: 100_000_000,
    }
}

fn pair() -> OmnipairPair {
    OmnipairPair {
        token0: [1u8; 32],
        token1: [2u8; 32],
        reserve0: 1_000_000_000_000,
        reserve1: 1_000_000_000_000,
        cash_reserve0: 200_000_000_000,
        cash_reserve1: 1_000,
        total_debt0: 500_000_000_000,
        total_debt1: 900_000_000_000,
        last_rate0: 100_000_000,
        last_rate1: 200_000_000,
        last_update: 1_000,
    }
}

#[test]
fn slots_convert_to_milliseconds() {
    assert_eq!(slots_to_ms(5, 10), Some(2_000));
    assert_eq!(slots_to_ms(10, 10), Some(0));
    assert_eq!(slots_to_ms(10, 5), None);
    assert_eq!(slots_to_ms(0, u64::MAX), None);
}

#[test]
fn ceil_div_rounds_up() {
    assert_eq!(ceil_div(10, 3), Some(4));
    assert_eq!(ceil_div(9, 3), Some(3));
    assert_eq!(ceil_div(0, 3), Some(0));
    assert_eq!(ceil_div(5, 0), None);
    assert_eq!(ceil_div(u128::MAX, 2), None);
    assert_eq!(ceil_div(u128::MAX, 1), Some(u128::MAX));
}

#[test]
fn update_accrues_interest() {
    let mut p = pair();
    p.simulate_update(10_000, &model(), 1_000);
    assert_eq!(p.reserve0, 1_000_005_708_000);
    assert_eq!(p.reserve1, 1_000_032_572_970);
    assert_eq!(p.cash_reserve0, 199_999_429_200);
    assert_eq!(p.cash_reserve1, 0);
    assert_eq!(p.total_debt0, 500_006_278_800);
    assert_eq!(p.total_debt1, 900_032_573_970);
    assert_eq!(p.last_rate0, 100_000_000);
    assert_eq!(p.last_rate1, 399_221_879);
    assert_eq!(p.last_update, 10_000);
    assert_eq!(p.token0, [1u8; 32]);
    assert_eq!(p.token1, [2u8; 32]);
}

#[test]
fn update_twice_to_same_slot_is_once() {
    let mut p = pair();
    p.simulate_update(10_000, &model(), 1_000);
    let once = p;
    p.simulate_update(10_000, &model(), 1_000);
    assert_eq!(p, once);
}

#[test]
fn update_to_past_slot_changes_nothing() {
    let mut p = pair();
    p.simulate_update(999, &model(), 1_000);
    assert_eq!(p, pair());
    p.simulate_update(1_000, &model(), 1_000);
    assert_eq!(p, pair());
}

#[test]
fn update_span_overflowing_milliseconds_changes_nothing() {
    let mut p = pair();
    p.simulate_update(1_000 + (1u64 << 62), &model(), 1_000);
    assert_eq!(p, pair());
}

#[test]
fn update_without_protocol_share_keeps_cash() {
    let mut p = pair();
    p.simulate_update(10_000, &model(), 0);
    assert_eq!(p.cash_reserve0, 200_000_000_000);
    assert_eq!(p.cash_reserve1, 1_000);
    assert_eq!(p.total_debt0, 500_005_708_000);
    assert_eq!(p.reserve0, 1_000_005_708_000);
    assert_eq!(p.total_debt1, 900_029_612_700);
    assert_eq!(p.reserve1, 1_000_029_612_700);
}

#[test]
fn update_without_debt_accrues_nothing() {
    let mut p = pair();
    p.total_debt0 = 0;
    p.total_debt1 = 0;
    p.simulate_update(10_000, &model(), 1_000);
    assert_eq!(p.reserve0, 1_000_000_000_000);
    assert_eq!(p.reserve1, 1_000_000_000_000);
    assert_eq!(p.cash_reserve0, 200_000_000_000);
    assert_eq!(p.cash_reserve1, 1_000);
    assert_eq!(p.total_debt0, 0);
    assert_eq!(p.total_debt1, 0);
    assert_eq!(p.last_rate0, 50_097_454);
    assert_eq!(p.last_rate1, 100_194_909);
    assert_eq!(p.last_update, 10_000);
}

#[test]
fn update_with_empty_reserve_uses_zero_utilization() {
    let mut p = pair();
    p.reserve0 = 0;
    p.simulate_update(10_000, &model(), 1_000);
    assert_eq!(p.reserve0, 4_121_000);
    assert_eq!(p.cash_reserve0, 199_999_587_900);
    assert_eq!(p.total_debt0, 500_004_533_100);
    assert_eq!(p.last_rate0, 50_097_454);
}

#[test]
fn update_charges_are_conserved() {
    let before = pair();
    let mut p = before;
    p.simulate_update(10_000, &model(), 1_000);
    assert_eq!(
        p.total_debt0 - before.total_debt0,
        (p.reserve0 - before.reserve0) + (before.cash_reserve0 - p.cash_reserve0)
    );
    assert_eq!(
        p.total_debt1 - before.total_debt1,
        (p.reserve1 - before.reserve1) + (before.cash_reserve1 - p.cash_reserve1)
    );
}

#[test]
fn update_whose_reserve_increment_overflows_fails_unchanged() {
    let start = OmnipairPair {
        token0: [0u8; 32],
        token1: [0u8; 32],
        reserve0: 1,
        reserve1: 1_000_000_000_000,
        cash_reserve0: 0,
        cash_reserve1: 0,
        total_debt0: u64::MAX,
        total_debt1: 0,
        last_rate0: 5_000_000_000,
        last_rate1: 100_000_000,
        last_update: 0,
    };
    let mut p = start;
    assert!(!p.checked_simulate_update(1_000_000_000, &model(), 1_000));
    assert_eq!(p, start);
    // Without a protocol fee the same update completes, saturating.
    assert!(p.checked_simulate_update(1_000_000_000, &model(), 0));
    assert_eq!(p.reserve0, u64::MAX);
    assert_eq!(p.total_debt0, u64::MAX);
    assert_eq!(p.last_rate0, 5_000_000_000);
    assert_eq!(p.last_rate1, 10_000_000);
    assert_eq!(p.last_update, 1_000_000_000);
}
