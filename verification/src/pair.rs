//! A pair's lending state and its projection to a later slot.
use vstd::prelude::*;

use crate::constants::{BPS_DENOMINATOR, NAD, TARGET_MS_PER_SLOT};
use crate::fixed_math::{ceil_div, ceil_div_spec, clamp_to_u64, lemma_ceil_div_bounds, saturate_to_u64};
use crate::rate_model::OmnipairRateModel;

verus! {

/// The lending state of a pair: per token, the reserve, the part of it held
/// as cash, the outstanding debt and the last borrow rate; plus the slot of
/// the last accrual. Token mints are kept as raw 32-byte keys.
#[derive(Debug, Clone, Copy, PartialEq, Eq, Default)]
pub struct OmnipairPair {
    pub token0: [u8; 32],
    pub token1: [u8; 32],
    pub reserve0: u64,
    pub reserve1: u64,
    pub cash_reserve0: u64,
    pub cash_reserve1: u64,
    pub total_debt0: u64,
    pub total_debt1: u64,
    pub last_rate0: u64,
    pub last_rate1: u64,
    pub last_update: u64,
}

/// Milliseconds between two slots at `TARGET_MS_PER_SLOT` per slot; `None`
/// when `end_slot < start_slot` or the product overflows `u64`.
pub open spec fn slots_to_ms_spec(start_slot: u64, end_slot: u64) -> Option<u64> {
    if end_slot < start_slot || (end_slot - start_slot) * TARGET_MS_PER_SLOT > u64::MAX {
        None
    } else {
        Some(((end_slot - start_slot) * TARGET_MS_PER_SLOT) as u64)
    }
}

/// Milliseconds between two slots; `None` when `end_slot < start_slot` or the
/// result does not fit in `u64`.
pub fn slots_to_ms(start_slot: u64, end_slot: u64) -> (r: Option<u64>)
    ensures
        r == slots_to_ms_spec(start_slot, end_slot),
{
    match end_slot.checked_sub(start_slot) {
        Some(d) => d.checked_mul(TARGET_MS_PER_SLOT),
        None => None,
    }
}

/// `a + b` saturating at `u64::MAX`.
pub open spec fn sat_add_u64(a: u64, b: u64) -> u64 {
    if a + b > u64::MAX {
        u64::MAX
    } else {
        (a + b) as u64
    }
}

/// `debt / reserve` scaled by `NAD`, saturating to `u64`; 0 for an empty
/// reserve.
pub open spec fn utilization(debt: u64, reserve: u64) -> u64 {
    if reserve == 0 {
        0
    } else {
        clamp_to_u64(((debt * NAD) / (reserve as int)) as u128)
    }
}

/// Interest owed on `debt` for an annualized rate integral: `⌈debt *
/// integral / NAD⌉` (0 where the ceiling division is undefined).
pub open spec fn interest_owed(debt: u64, integral: u64) -> u128 {
    match ceil_div_spec((debt * integral) as u128, NAD as u128) {
        Some(v) => v,
        None => 0,
    }
}

/// The protocol's share of `interest`: `interest * bps / 10_000`, saturating
/// to `u64`.
pub open spec fn protocol_fee(interest: u128, interest_bps: u16) -> u64 {
    clamp_to_u64(((interest * interest_bps) / (BPS_DENOMINATOR as int)) as u128)
}

/// The part of the protocol fee that the cash reserve covers.
pub open spec fn covered_fee(fee: u64, cash: u64) -> u64 {
    if fee <= cash {
        fee
    } else {
        cash
    }
}

/// `(rate, debt, reserve, cash)` of one token after accruing `time_elapsed`
/// ms of interest: the rate model moves the rate; the interest, plus the
/// protocol fee on it, is added to the debt; the interest and the part of the
/// fee not paid from cash are added to the reserve; the cash pays what it can
/// of the fee.
pub open spec fn side_after(
    model: OmnipairRateModel,
    debt: u64,
    reserve: u64,
    cash: u64,
    last_rate: u64,
    time_elapsed: u64,
    interest_bps: u16,
) -> (u64, u64, u64, u64) {
    let (rate, integral) = model.rate_after(last_rate, time_elapsed, utilization(debt, reserve));
    let interest = interest_owed(debt, integral);
    let fee = protocol_fee(interest, interest_bps);
    let lp_interest = clamp_to_u64(interest);
    let borrower_cost = if interest + fee > u128::MAX {
        u128::MAX
    } else {
        (interest + fee) as u128
    };
    let covered = covered_fee(fee, cash);
    (
        rate,
        sat_add_u64(debt, clamp_to_u64(borrower_cost)),
        sat_add_u64(reserve, (lp_interest + (fee - covered)) as u64),
        (cash - covered) as u64,
    )
}

/// Whether one token's accrual completes: the rate model is defined on its
/// inputs and the reserve increment `lp_interest + uncovered_fee` fits in
/// `u64`.
pub open spec fn side_defined(
    model: OmnipairRateModel,
    debt: u64,
    reserve: u64,
    cash: u64,
    last_rate: u64,
    time_elapsed: u64,
    interest_bps: u16,
) -> bool {
    let util = utilization(debt, reserve);
    let (rate, integral) = model.rate_after(last_rate, time_elapsed, util);
    let interest = interest_owed(debt, integral);
    let fee = protocol_fee(interest, interest_bps);
    &&& model.rate_defined(last_rate, time_elapsed, util)
    &&& clamp_to_u64(interest) + (fee - covered_fee(fee, cash)) <= u64::MAX
}

/// Whether one token's accrual saturates nowhere: the interest plus the
/// protocol fee fits in `u64`, and neither adding it to the debt nor adding
/// the reserve's share to the reserve reaches past `u64::MAX`.
pub open spec fn side_unsaturated(
    model: OmnipairRateModel,
    debt: u64,
    reserve: u64,
    cash: u64,
    last_rate: u64,
    time_elapsed: u64,
    interest_bps: u16,
) -> bool {
    let (rate, integral) = model.rate_after(last_rate, time_elapsed, utilization(debt, reserve));
    let interest = interest_owed(debt, integral);
    let fee = protocol_fee(interest, interest_bps);
    &&& interest + fee <= u64::MAX
    &&& debt + interest + fee <= u64::MAX
    &&& reserve + interest + fee - covered_fee(fee, cash) <= u64::MAX
}

impl OmnipairPair {
    /// Whether moving to `current_slot` accrues token 0 without saturating.
    pub open spec fn token0_unsaturated(
        self,
        current_slot: u64,
        rate_model: OmnipairRateModel,
        interest_bps: u16,
    ) -> bool {
        match self.accrual_time(current_slot) {
            None => true,
            Some(t) => side_unsaturated(
                rate_model,
                self.total_debt0,
                self.reserve0,
                self.cash_reserve0,
                self.last_rate0,
                t,
                interest_bps,
            ),
        }
    }

    /// Whether moving to `current_slot` accrues token 1 without saturating.
    pub open spec fn token1_unsaturated(
        self,
        current_slot: u64,
        rate_model: OmnipairRateModel,
        interest_bps: u16,
    ) -> bool {
        match self.accrual_time(current_slot) {
            None => true,
            Some(t) => side_unsaturated(
                rate_model,
                self.total_debt1,
                self.reserve1,
                self.cash_reserve1,
                self.last_rate1,
                t,
                interest_bps,
            ),
        }
    }

    /// Milliseconds to accrue when moving to `current_slot`, or `None` when
    /// the pair is already at or past it or the span overflows.
    pub open spec fn accrual_time(self, current_slot: u64) -> Option<u64> {
        if current_slot <= self.last_update {
            None
        } else {
            match slots_to_ms_spec(self.last_update, current_slot) {
                Some(t) => if t > 0 {
                    Some(t)
                } else {
                    None
                },
                None => None,
            }
        }
    }

    /// Whether `simulate_update` completes on these inputs.
    pub open spec fn update_defined(
        self,
        current_slot: u64,
        rate_model: OmnipairRateModel,
        interest_bps: u16,
    ) -> bool {
        match self.accrual_time(current_slot) {
            None => true,
            Some(t) => {
                &&& side_defined(
                    rate_model,
                    self.total_debt0,
                    self.reserve0,
                    self.cash_reserve0,
                    self.last_rate0,
                    t,
                    interest_bps,
                )
                &&& side_defined(
                    rate_model,
                    self.total_debt1,
                    self.reserve1,
                    self.cash_reserve1,
                    self.last_rate1,
                    t,
                    interest_bps,
                )
            },
        }
    }

    /// The state `simulate_update` leaves: unchanged when there is no time to
    /// accrue, otherwise both tokens accrued over the elapsed time and
    /// `last_update` moved to `current_slot`.
    pub open spec fn updated(
        self,
        current_slot: u64,
        rate_model: OmnipairRateModel,
        interest_bps: u16,
    ) -> OmnipairPair {
        match self.accrual_time(current_slot) {
            None => self,
            Some(t) => {
                let (rate0, debt0, reserve0, cash0) = side_after(
                    rate_model,
                    self.total_debt0,
                    self.reserve0,
                    self.cash_reserve0,
                    self.last_rate0,
                    t,
                    interest_bps,
                );
                let (rate1, debt1, reserve1, cash1) = side_after(
                    rate_model,
                    self.total_debt1,
                    self.reserve1,
                    self.cash_reserve1,
                    self.last_rate1,
                    t,
                    interest_bps,
                );
                OmnipairPair {
                    token0: self.token0,
                    token1: self.token1,
                    reserve0,
                    reserve1,
                    cash_reserve0: cash0,
                    cash_reserve1: cash1,
                    total_debt0: debt0,
                    total_debt1: debt1,
                    last_rate0: rate0,
                    last_rate1: rate1,
                    last_update: current_slot,
                }
            },
        }
    }

    /// Projects the pair's reserves, debts and rates forward to
    /// `current_slot`, accruing interest under `rate_model` with
    /// `interest_bps` of it going to the protocol.
    pub fn simulate_update(
        &mut self,
        current_slot: u64,
        rate_model: &OmnipairRateModel,
        interest_bps: u16,
    )
        requires
            old(self).update_defined(current_slot, *rate_model, interest_bps),
        ensures
            *final(self) == old(self).updated(current_slot, *rate_model, interest_bps),
    {
        let _ = self.checked_simulate_update(current_slot, rate_model, interest_bps);
    }

    /// `simulate_update` where it completes, returning `true`; on exactly the
    /// inputs on which it would fail (see `update_defined`) the pair is left
    /// unchanged and `false` is returned.
    pub fn checked_simulate_update(
        &mut self,
        current_slot: u64,
        rate_model: &OmnipairRateModel,
        interest_bps: u16,
    ) -> (ok: bool)
        ensures
            ok == old(self).update_defined(current_slot, *rate_model, interest_bps),
            ok ==> *final(self) == old(self).updated(current_slot, *rate_model, interest_bps),
            !ok ==> *final(self) == *old(self),
    {
        if current_slot <= self.last_update {
            return true;
        }

        let time_elapsed = match slots_to_ms(self.last_update, current_slot) {
            Some(t) => t,
            None => return true,
        };
        if time_elapsed == 0 {
            return true;
        }

        let side0 = accrue_side(
            rate_model,
            self.total_debt0,
            self.reserve0,
            self.cash_reserve0,
            self.last_rate0,
            time_elapsed,
            interest_bps,
        );
        let side1 = accrue_side(
            rate_model,
            self.total_debt1,
            self.reserve1,
            self.cash_reserve1,
            self.last_rate1,
            time_elapsed,
            interest_bps,
        );
        let ((new_rate0, debt0, reserve0, cash0), (new_rate1, debt1, reserve1, cash1)) = match (
            side0,
            side1,
        ) {
            (Some(a), Some(b)) => (a, b),
            _ => return false,
        };

        self.last_rate0 = new_rate0;
        self.last_rate1 = new_rate1;
        self.total_debt0 = debt0;
        self.total_debt1 = debt1;
        self.reserve0 = reserve0;
        self.reserve1 = reserve1;
        self.cash_reserve0 = cash0;
        self.cash_reserve1 = cash1;

        self.last_update = current_slot;
        true
    }
}

/// One token's accrual: `side_after(..)`, or `None` exactly when it is not
/// defined.
fn accrue_side(
    rate_model: &OmnipairRateModel,
    debt: u64,
    reserve: u64,
    cash: u64,
    last_rate: u64,
    time_elapsed: u64,
    interest_bps: u16,
) -> (r: Option<(u64, u64, u64, u64)>)
    ensures
        r is Some <==> side_defined(
            *rate_model,
            debt,
            reserve,
            cash,
            last_rate,
            time_elapsed,
            interest_bps,
        ),
        r matches Some(v) ==> v == side_after(
            *rate_model,
            debt,
            reserve,
            cash,
            last_rate,
            time_elapsed,
            interest_bps,
        ),
{
    let nad = NAD as u128;
    let util = match reserve {
        0 => 0,
        _ => saturate_to_u64((debt as u128 * nad) / reserve as u128),
    };

    let (new_rate, integral) = match rate_model.checked_calculate_rate(
        last_rate,
        time_elapsed,
        util,
    ) {
        Some(v) => v,
        None => return None,
    };

    proof {
        assert(debt * integral <= (u64::MAX as int) * (u64::MAX as int)) by (nonlinear_arith)
            requires
                debt <= u64::MAX,
                integral <= u64::MAX,
        ;
    }
    let owed = debt as u128 * integral as u128;
    let total_interest = match ceil_div(owed, nad) {
        Some(v) => v,
        None => 0,
    };
    proof {
        if ceil_div_spec(owed, nad) is Some {
            lemma_ceil_div_bounds(owed, nad);
        }
        assert(total_interest * interest_bps <= u128::MAX) by (nonlinear_arith)
            requires
                owed <= (u64::MAX as int) * (u64::MAX as int),
                total_interest <= owed / nad + 1,
                nad == 1_000_000_000,
                interest_bps <= u16::MAX,
        ;
    }

    let protocol_fee = saturate_to_u64((total_interest * interest_bps as u128) / BPS_DENOMINATOR);
    let lp_interest = saturate_to_u64(total_interest);
    let total_borrower_cost = match total_interest.checked_add(protocol_fee as u128) {
        Some(v) => v,
        None => u128::MAX,
    };

    let new_debt = debt.saturating_add(saturate_to_u64(total_borrower_cost));
    let cash_covered_fee = protocol_fee.min(cash);
    let reserve_gain = match lp_interest.checked_add(protocol_fee - cash_covered_fee) {
        Some(g) => g,
        None => return None,
    };
    let new_reserve = reserve.saturating_add(reserve_gain);
    let new_cash = cash - cash_covered_fee;
    Some((new_rate, new_debt, new_reserve, new_cash))
}

} // verus!
