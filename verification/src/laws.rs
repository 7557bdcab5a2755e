//! Properties that hold of every input: of the rate model across its three
//! regimes, and of the pair update across calls.
use vstd::prelude::*;

use crate::constants::{MILLISECONDS_PER_YEAR, NAD, TAYLOR_TERMS, TARGET_MS_PER_SLOT};
use crate::exp_ln::{lemma_exp_of_negative_at_most_one, lemma_exp_of_zero};
use crate::fixed_math::{max_u128, sat_mul};
use crate::pair::{interest_owed, protocol_fee, sat_add_u64, OmnipairPair};
use crate::rate_model::{target_reached, time_to_reach_spec, OmnipairRateModel};

verus! {

/// When `exp_rate * dt` fits in an `i64`, the decay factor is at most one.
proof fn lemma_decay_factor_at_most_one(model: OmnipairRateModel, dt: u128)
    requires
        model.exp_rate * dt <= i64::MAX,
    ensures
        model.decay_factor(dt) <= NAD,
{
    let x = sat_mul(model.exp_rate as u128, dt);
    assert(x == model.exp_rate * dt);
    assert((x as i64) == x);
    if x == 0 {
        lemma_exp_of_zero(NAD, TAYLOR_TERMS);
    } else {
        lemma_exp_of_negative_at_most_one(-(x as i64), NAD, TAYLOR_TERMS);
    }
}

/// With no elapsed time the rate is returned unchanged and nothing accrues.
pub proof fn law_no_time_no_accrual(model: OmnipairRateModel, last_rate: u64, last_util: u64)
    ensures
        model.rate_defined(last_rate, 0, last_util),
        model.rate_after(last_rate, 0, last_util) == (last_rate, 0u64),
{
}

/// Inside the target band the rate holds at `max(last_rate, min_rate)`.
pub proof fn law_rate_holds_in_band(
    model: OmnipairRateModel,
    last_rate: u64,
    time_elapsed: u64,
    last_util: u64,
)
    requires
        time_elapsed > 0,
        model.target_util_start <= last_util <= model.target_util_end,
    ensures
        model.rate_after(last_rate, time_elapsed, last_util).0 == max_u128(
            last_rate as u128,
            model.min_rate as u128,
        ),
{
}

/// Above the target band, a non-zero `max_rate` caps the rate.
pub proof fn law_rate_capped_above_band(
    model: OmnipairRateModel,
    last_rate: u64,
    time_elapsed: u64,
    last_util: u64,
)
    requires
        time_elapsed > 0,
        last_util > model.target_util_end,
        model.max_rate > 0,
    ensures
        model.rate_after(last_rate, time_elapsed, last_util).0 <= model.max_rate,
{
}

/// Below the target band the rate never falls under `min_rate`.
pub proof fn law_rate_floored_below_band(
    model: OmnipairRateModel,
    last_rate: u64,
    time_elapsed: u64,
    last_util: u64,
)
    requires
        time_elapsed > 0,
        last_util < model.target_util_start,
        last_util <= model.target_util_end,
    ensures
        model.rate_after(last_rate, time_elapsed, last_util).0 >= model.min_rate,
{
}

/// Above the target band the rate does not fall below where accrual started
/// (`max(last_rate, min_rate)`), except to come down to the cap, provided
/// `exp_rate * time_elapsed` fits in an `i64`.
pub proof fn law_rate_rises_above_band(
    model: OmnipairRateModel,
    last_rate: u64,
    time_elapsed: u64,
    last_util: u64,
)
    requires
        time_elapsed > 0,
        last_util > model.target_util_end,
        model.exp_rate * time_elapsed <= i64::MAX,
    ensures
        model.rate_after(last_rate, time_elapsed, last_util).0 >= model.start_rate(last_rate)
            || model.rate_after(last_rate, time_elapsed, last_util).0 == model.max_rate,
{
    let dt = time_elapsed as u128;
    lemma_decay_factor_at_most_one(model, dt);
    let last = model.start_rate(last_rate);
    let g = max_u128(model.decay_factor(dt), 1);
    assert(sat_mul(last, NAD as u128) == last * NAD);
    assert((last * NAD) / (g as int) >= last) by (nonlinear_arith)
        requires
            1 <= g <= NAD,
            last >= 0,
    {
        vstd::arithmetic::div_mod::lemma_div_is_ordered_by_denominator(last * NAD, g as int, NAD as int);
        vstd::arithmetic::div_mod::lemma_div_by_multiple(last as int, NAD as int);
    }
}

/// Below the target band the rate does not rise above where accrual started
/// (`max(last_rate, min_rate)`), provided `exp_rate * time_elapsed` fits in
/// an `i64`.
pub proof fn law_rate_falls_below_band(
    model: OmnipairRateModel,
    last_rate: u64,
    time_elapsed: u64,
    last_util: u64,
)
    requires
        time_elapsed > 0,
        last_util < model.target_util_start,
        last_util <= model.target_util_end,
        model.exp_rate * time_elapsed <= i64::MAX,
    ensures
        model.rate_after(last_rate, time_elapsed, last_util).0 <= model.start_rate(last_rate),
{
    let dt = time_elapsed as u128;
    lemma_decay_factor_at_most_one(model, dt);
    let last = model.start_rate(last_rate);
    let g = model.decay_factor(dt);
    assert(last * g <= last * NAD) by (nonlinear_arith)
        requires
            g <= NAD,
            last >= 0,
    ;
    assert(sat_mul(last, g) <= last * NAD);
    assert(sat_mul(last, g) / (NAD as u128) <= last) by (nonlinear_arith)
        requires
            0 <= sat_mul(last, g) <= last * NAD,
    {
        vstd::arithmetic::div_mod::lemma_div_is_ordered(sat_mul(last, g) as int, last * NAD, NAD as int);
        vstd::arithmetic::div_mod::lemma_div_by_multiple(last as int, NAD as int);
    }
}

/// Updating to a slot that is not after the last update changes nothing.
pub proof fn law_update_to_past_slot_is_noop(
    pair: OmnipairPair,
    current_slot: u64,
    rate_model: OmnipairRateModel,
    interest_bps: u16,
)
    requires
        current_slot <= pair.last_update,
    ensures
        pair.update_defined(current_slot, rate_model, interest_bps),
        pair.updated(current_slot, rate_model, interest_bps) == pair,
{
}

/// Updating twice to the same slot is the same as updating once.
pub proof fn law_update_is_idempotent(
    pair: OmnipairPair,
    current_slot: u64,
    rate_model: OmnipairRateModel,
    interest_bps: u16,
)
    ensures
        pair.updated(current_slot, rate_model, interest_bps).update_defined(
            current_slot,
            rate_model,
            interest_bps,
        ),
        pair.updated(current_slot, rate_model, interest_bps).updated(
            current_slot,
            rate_model,
            interest_bps,
        ) == pair.updated(current_slot, rate_model, interest_bps),
{
}

/// An update never lowers a debt or a reserve, never raises a cash reserve,
/// never moves `last_update` backwards, and keeps the token keys.
pub proof fn law_update_is_monotone(
    pair: OmnipairPair,
    current_slot: u64,
    rate_model: OmnipairRateModel,
    interest_bps: u16,
)
    ensures
        ({
            let p = pair.updated(current_slot, rate_model, interest_bps);
            &&& p.total_debt0 >= pair.total_debt0
            &&& p.total_debt1 >= pair.total_debt1
            &&& p.reserve0 >= pair.reserve0
            &&& p.reserve1 >= pair.reserve1
            &&& p.cash_reserve0 <= pair.cash_reserve0
            &&& p.cash_reserve1 <= pair.cash_reserve1
            &&& p.last_update >= pair.last_update
            &&& p.token0 == pair.token0
            &&& p.token1 == pair.token1
        }),
{
}

/// A token with no debt accrues no interest: its debt, reserve and cash
/// reserve are left as they were.
pub proof fn law_no_debt_no_interest(
    pair: OmnipairPair,
    current_slot: u64,
    rate_model: OmnipairRateModel,
    interest_bps: u16,
)
    ensures
        ({
            let p = pair.updated(current_slot, rate_model, interest_bps);
            &&& pair.total_debt0 == 0 ==> p.total_debt0 == 0 && p.reserve0 == pair.reserve0
                && p.cash_reserve0 == pair.cash_reserve0
            &&& pair.total_debt1 == 0 ==> p.total_debt1 == 0 && p.reserve1 == pair.reserve1
                && p.cash_reserve1 == pair.cash_reserve1
        }),
{
    assert forall|integral: u64| #[trigger] interest_owed(0, integral) == 0 by {
        assert(0 * integral == 0);
        assert((0 + NAD - 1) / (NAD as int) == 0);
    }
    assert forall|bps: u16| #[trigger] protocol_fee(0, bps) == 0 by {
        assert(0 * bps == 0);
    }
}

/// Without a protocol share, cash reserves are untouched and each debt grows
/// by the same (saturating) amount as its reserve.
pub proof fn law_no_protocol_share(
    pair: OmnipairPair,
    current_slot: u64,
    rate_model: OmnipairRateModel,
)
    ensures
        ({
            let p = pair.updated(current_slot, rate_model, 0);
            &&& p.cash_reserve0 == pair.cash_reserve0
            &&& p.cash_reserve1 == pair.cash_reserve1
            &&& exists|g: u64|
                #![trigger sat_add_u64(pair.total_debt0, g)]
                p.total_debt0 == sat_add_u64(pair.total_debt0, g) && p.reserve0 == sat_add_u64(
                    pair.reserve0,
                    g,
                )
            &&& exists|g: u64|
                #![trigger sat_add_u64(pair.total_debt1, g)]
                p.total_debt1 == sat_add_u64(pair.total_debt1, g) && p.reserve1 == sat_add_u64(
                    pair.reserve1,
                    g,
                )
        }),
{
    let p = pair.updated(current_slot, rate_model, 0);
    match pair.accrual_time(current_slot) {
        None => {
            assert(sat_add_u64(pair.total_debt0, 0) == pair.total_debt0);
            assert(sat_add_u64(pair.total_debt1, 0) == pair.total_debt1);
        },
        Some(t) => {
            let (_, i0) = rate_model.rate_after(
                pair.last_rate0,
                t,
                crate::pair::utilization(pair.total_debt0, pair.reserve0),
            );
            let (_, i1) = rate_model.rate_after(
                pair.last_rate1,
                t,
                crate::pair::utilization(pair.total_debt1, pair.reserve1),
            );
            let w0 = crate::fixed_math::clamp_to_u64(crate::pair::interest_owed(pair.total_debt0, i0));
            let w1 = crate::fixed_math::clamp_to_u64(crate::pair::interest_owed(pair.total_debt1, i1));
            assert(p.total_debt0 == sat_add_u64(pair.total_debt0, w0));
            assert(p.total_debt1 == sat_add_u64(pair.total_debt1, w1));
        },
    }
}

/// Conservation: what borrowers of a token are charged equals what its
/// reserve gains plus what its cash reserve pays, whenever none of that
/// token's additions saturates.
pub proof fn law_charges_are_conserved(
    pair: OmnipairPair,
    current_slot: u64,
    rate_model: OmnipairRateModel,
    interest_bps: u16,
)
    ensures
        ({
            let p = pair.updated(current_slot, rate_model, interest_bps);
            &&& pair.token0_unsaturated(current_slot, rate_model, interest_bps) ==> p.total_debt0
                - pair.total_debt0 == (p.reserve0 - pair.reserve0) + (pair.cash_reserve0
                - p.cash_reserve0)
            &&& pair.token1_unsaturated(current_slot, rate_model, interest_bps) ==> p.total_debt1
                - pair.total_debt1 == (p.reserve1 - pair.reserve1) + (pair.cash_reserve1
                - p.cash_reserve1)
        }),
{
}

/// Rising from `a` to `b` takes as long as decaying from `b` to `a`, and
/// the closed form is defined for one exactly when for the other.
pub proof fn law_time_to_reach_is_symmetric(a: u128, b: u128, exp_rate: u128)
    ensures
        time_to_reach_spec(a, b, exp_rate, true) == time_to_reach_spec(b, a, exp_rate, false),
        target_reached(a, b, true) == target_reached(b, a, false),
{
}

/// `a / MILLISECONDS_PER_YEAR` rounded up (down when the rounding addition
/// leaves `u128`), then saturated to `u64`.
pub open spec fn annual_share(a: int) -> int {
    let y = MILLISECONDS_PER_YEAR as int;
    let q = if a + y - 1 <= u128::MAX {
        (a + y - 1) / y
    } else {
        a / y
    };
    if q > u64::MAX {
        u64::MAX as int
    } else {
        q
    }
}

/// `v` capped at `u128::MAX`.
pub open spec fn cap_u128(v: int) -> int {
    if v > u128::MAX {
        u128::MAX as int
    } else {
        v
    }
}

/// `max(last_rate, min_rate)`, written out.
pub open spec fn lifted_rate(model: OmnipairRateModel, last_rate: u64) -> int {
    if last_rate >= model.min_rate {
        last_rate as int
    } else {
        model.min_rate as int
    }
}

/// Above the target band, when the rate is not held at the cap, the integral
/// is the area of the exponential growth from `max(last_rate, min_rate)` to
/// the returned rate: `⌈(rate - max(last_rate, min_rate)) * NAD / exp_rate /
/// MILLISECONDS_PER_YEAR⌉`.
pub proof fn law_integral_of_growth(
    model: OmnipairRateModel,
    last_rate: u64,
    time_elapsed: u64,
    last_util: u64,
)
    requires
        time_elapsed > 0,
        last_util > model.target_util_end,
        model.exp_rate > 0,
        model.rate_after(last_rate, time_elapsed, last_util).0 < u64::MAX,
        model.max_rate == 0 || model.rate_after(last_rate, time_elapsed, last_util).0
            < model.max_rate,
    ensures
        ({
            let (rate, integral) = model.rate_after(last_rate, time_elapsed, last_util);
            let start = lifted_rate(model, last_rate);
            let rise = if rate > start {
                rate - start
            } else {
                0
            };
            integral == annual_share(cap_u128(rise * NAD) / (model.exp_rate as int))
        }),
{
}

/// Below the target band, when the rate stays above `min_rate`, the integral
/// is the area of the exponential decay from `max(last_rate, min_rate)` down
/// to the returned rate: `⌈(max(last_rate, min_rate) - rate) * NAD /
/// exp_rate / MILLISECONDS_PER_YEAR⌉`.
pub proof fn law_integral_of_decay(
    model: OmnipairRateModel,
    last_rate: u64,
    time_elapsed: u64,
    last_util: u64,
)
    requires
        time_elapsed > 0,
        last_util < model.target_util_start,
        last_util <= model.target_util_end,
        model.exp_rate > 0,
        model.rate_after(last_rate, time_elapsed, last_util).0 > model.min_rate,
    ensures
        ({
            let (rate, integral) = model.rate_after(last_rate, time_elapsed, last_util);
            let start = lifted_rate(model, last_rate);
            let fall = if start > rate {
                start - rate
            } else {
                0
            };
            integral == annual_share(cap_u128(fall * NAD) / (model.exp_rate as int))
        }),
{
}

/// Inside the target band the rate is `max(last_rate, min_rate)` and the
/// integral is the flat area `⌈max(last_rate, min_rate) * time_elapsed /
/// MILLISECONDS_PER_YEAR⌉`.
pub proof fn law_integral_in_band(
    model: OmnipairRateModel,
    last_rate: u64,
    time_elapsed: u64,
    last_util: u64,
)
    requires
        time_elapsed > 0,
        model.target_util_start <= last_util <= model.target_util_end,
    ensures
        ({
            let (rate, integral) = model.rate_after(last_rate, time_elapsed, last_util);
            &&& rate == lifted_rate(model, last_rate)
            &&& integral == annual_share(cap_u128(lifted_rate(model, last_rate) * time_elapsed))
        }),
{
}

/// `debt * NAD / reserve` (floor), saturated to `u64`; 0 for an empty
/// reserve.
pub open spec fn debt_ratio(debt: u64, reserve: u64) -> u64 {
    if reserve == 0 {
        0
    } else if (debt * NAD) / (reserve as int) > u64::MAX {
        u64::MAX
    } else {
        ((debt * NAD) / (reserve as int)) as u64
    }
}

/// Interest on `debt` for an annualized rate integral: `⌈debt * integral /
/// NAD⌉`.
pub open spec fn interest_on(debt: u64, integral: u64) -> int {
    (debt * integral + NAD - 1) / (NAD as int)
}

/// The protocol's fee on `interest`: `interest * interest_bps / 10_000`,
/// saturated to `u64`.
pub open spec fn fee_on(interest: int, interest_bps: u16) -> int {
    let fee_raw = (interest * interest_bps) / 10_000;
    if fee_raw > u64::MAX {
        u64::MAX as int
    } else {
        fee_raw
    }
}

/// `v` capped at `u64::MAX`.
pub open spec fn cap_u64(v: int) -> int {
    if v > u64::MAX {
        u64::MAX as int
    } else {
        v
    }
}

/// The debt after one accrual at rate integral `integral`: grown by the
/// interest plus the protocol fee, saturated to `u64`.
pub open spec fn debt_after_charge(debt: u64, integral: u64, interest_bps: u16) -> int {
    let interest = interest_on(debt, integral);
    cap_u64(debt + interest + fee_on(interest, interest_bps))
}

/// The cash reserve after one accrual: it pays as much of the protocol fee
/// as it holds.
pub open spec fn cash_after_charge(debt: u64, integral: u64, interest_bps: u16, cash: u64) -> int {
    let fee = fee_on(interest_on(debt, integral), interest_bps);
    if fee <= cash {
        cash - fee
    } else {
        0
    }
}

/// The reserve after one accrual: it gains the interest (saturated to `u64`)
/// and the part of the protocol fee the cash reserve did not pay, the sum
/// saturated to `u64`.
pub open spec fn reserve_after_charge(
    debt: u64,
    integral: u64,
    interest_bps: u16,
    cash: u64,
    reserve: u64,
) -> int {
    let interest = interest_on(debt, integral);
    let fee = fee_on(interest, interest_bps);
    let paid = if fee <= cash {
        fee
    } else {
        cash as int
    };
    cap_u64(reserve + cap_u64(interest) + fee - paid)
}

/// An update that accrues moves each token's rate as the rate model does at
/// that token's utilization `debt * NAD / reserve`, charges the debt the
/// interest on the resulting integral plus the protocol fee, pays the fee
/// from cash as far as cash goes, credits the reserve with the interest and
/// the unpaid fee, and records `current_slot`.
pub proof fn law_update_accrues_at_utilization(
    pair: OmnipairPair,
    current_slot: u64,
    rate_model: OmnipairRateModel,
    interest_bps: u16,
)
    requires
        current_slot > pair.last_update,
        (current_slot - pair.last_update) * TARGET_MS_PER_SLOT <= u64::MAX,
    ensures
        ({
            let p = pair.updated(current_slot, rate_model, interest_bps);
            let t = ((current_slot - pair.last_update) * TARGET_MS_PER_SLOT) as u64;
            let (rate0, integral0) = rate_model.rate_after(
                pair.last_rate0,
                t,
                debt_ratio(pair.total_debt0, pair.reserve0),
            );
            let (rate1, integral1) = rate_model.rate_after(
                pair.last_rate1,
                t,
                debt_ratio(pair.total_debt1, pair.reserve1),
            );
            &&& p.last_update == current_slot
            &&& p.last_rate0 == rate0
            &&& p.last_rate1 == rate1
            &&& p.total_debt0 == debt_after_charge(pair.total_debt0, integral0, interest_bps)
            &&& p.total_debt1 == debt_after_charge(pair.total_debt1, integral1, interest_bps)
            &&& p.cash_reserve0 == cash_after_charge(
                pair.total_debt0,
                integral0,
                interest_bps,
                pair.cash_reserve0,
            )
            &&& p.cash_reserve1 == cash_after_charge(
                pair.total_debt1,
                integral1,
                interest_bps,
                pair.cash_reserve1,
            )
            &&& pair.update_defined(current_slot, rate_model, interest_bps) ==> {
                &&& p.reserve0 == reserve_after_charge(
                    pair.total_debt0,
                    integral0,
                    interest_bps,
                    pair.cash_reserve0,
                    pair.reserve0,
                )
                &&& p.reserve1 == reserve_after_charge(
                    pair.total_debt1,
                    integral1,
                    interest_bps,
                    pair.cash_reserve1,
                    pair.reserve1,
                )
            }
        }),
{
    let t = ((current_slot - pair.last_update) * TARGET_MS_PER_SLOT) as u64;
    assert(pair.accrual_time(current_slot) == Some(t));
    assert(crate::pair::utilization(pair.total_debt0, pair.reserve0) == debt_ratio(
        pair.total_debt0,
        pair.reserve0,
    ));
    assert(crate::pair::utilization(pair.total_debt1, pair.reserve1) == debt_ratio(
        pair.total_debt1,
        pair.reserve1,
    ));
    lemma_charge(pair.total_debt0, rate_model.rate_after(pair.last_rate0, t, debt_ratio(pair.total_debt0, pair.reserve0)).1, interest_bps);
    lemma_charge(pair.total_debt1, rate_model.rate_after(pair.last_rate1, t, debt_ratio(pair.total_debt1, pair.reserve1)).1, interest_bps);
}

/// The charge on a debt, computed as the update does, is `debt_after_charge`.
proof fn lemma_charge(debt: u64, integral: u64, interest_bps: u16)
    ensures
        ({
            let interest = interest_owed(debt, integral);
            let fee = protocol_fee(interest, interest_bps);
            let cost = if interest + fee > u128::MAX {
                u128::MAX
            } else {
                (interest + fee) as u128
            };
            &&& interest == interest_on(debt, integral)
            &&& fee == fee_on(interest_on(debt, integral), interest_bps)
            &&& sat_add_u64(debt, crate::fixed_math::clamp_to_u64(cost)) == debt_after_charge(
                debt,
                integral,
                interest_bps,
            )
        }),
{
    let owed = debt * integral;
    assert(0 <= owed <= (u64::MAX as int) * (u64::MAX as int)) by (nonlinear_arith)
        requires
            debt <= u64::MAX,
            integral <= u64::MAX,
            owed == debt * integral,
    ;
    assert((owed as u128) as int == owed);
    let interest = (owed + NAD - 1) / (NAD as int);
    crate::fixed_math::lemma_ceil_div_bounds(owed as u128, NAD as u128);
    let m = (u64::MAX as int) * (u64::MAX as int);
    vstd::arithmetic::div_mod::lemma_div_is_ordered(owed, m, NAD as int);
    assert(interest * interest_bps <= u128::MAX) by (nonlinear_arith)
        requires
            0 <= interest <= owed / (NAD as int) + 1,
            owed / (NAD as int) <= m / (NAD as int),
            m == (u64::MAX as int) * (u64::MAX as int),
            NAD == 1_000_000_000,
            interest_bps <= u16::MAX,
    ;
    assert(interest * interest_bps >= 0) by (nonlinear_arith)
        requires
            interest >= 0,
    ;
}

/// Above the target band, a rate that already starts over a non-zero cap
/// comes back to the cap at once and accrues the flat area at the cap,
/// `⌈max_rate * time_elapsed / MILLISECONDS_PER_YEAR⌉`, provided
/// `exp_rate * time_elapsed` fits in an `i64`.
pub proof fn law_rate_over_cap_accrues_flat(
    model: OmnipairRateModel,
    last_rate: u64,
    time_elapsed: u64,
    last_util: u64,
)
    requires
        time_elapsed > 0,
        last_util > model.target_util_end,
        0 < model.max_rate < lifted_rate(model, last_rate),
        model.exp_rate * time_elapsed <= i64::MAX,
    ensures
        model.rate_after(last_rate, time_elapsed, last_util) == (
            model.max_rate,
            annual_share(cap_u128(model.max_rate * time_elapsed)) as u64,
        ),
{
    law_rate_rises_above_band(model, last_rate, time_elapsed, last_util);
    let dt = time_elapsed as u128;
    lemma_decay_factor_at_most_one(model, dt);
    let last = model.start_rate(last_rate);
    let g = max_u128(model.decay_factor(dt), 1);
    assert((last * NAD) / (g as int) >= last) by (nonlinear_arith)
        requires
            1 <= g <= NAD,
            last >= 0,
    {
        vstd::arithmetic::div_mod::lemma_div_is_ordered_by_denominator(last * NAD, g as int, NAD as int);
        vstd::arithmetic::div_mod::lemma_div_by_multiple(last as int, NAD as int);
    }
}

} // verus!
