//! The utilization-driven interest-rate model.
use vstd::prelude::*;

use crate::constants::{MILLISECONDS_PER_YEAR, NAD, TAYLOR_TERMS};
use crate::exp_ln::{
    lemma_exp_of_zero, lemma_trunc_div_bounded, ln_nad, ln_nad_spec, taylor_exp,
    taylor_exp_spec, trunc_div,
};
use crate::fixed_math::{
    clamp_to_u64, div_round_up_or_down, div_up_or_down, max_u128, min_u128, sat_mul, sat_sub,
    saturate_to_u64, saturating_mul,
};

verus! {

/// On-chain rate model of a pair. Rates are annual rates scaled by `NAD`;
/// utilizations are scaled by `NAD`; `half_life_ms` is carried but unused by
/// the accrual math.
#[derive(Debug, Clone, Copy, PartialEq, Eq)]
pub struct OmnipairRateModel {
    pub exp_rate: u64,
    pub target_util_start: u64,
    pub target_util_end: u64,
    pub half_life_ms: u64,
    pub min_rate: u64,
    pub max_rate: u64,
    pub initial_rate: u64,
}

/// `amount / MILLISECONDS_PER_YEAR`, rounded up where the rounding addition
/// fits in `u128` and down otherwise.
pub open spec fn annualized(amount: u128) -> u128 {
    div_up_or_down(amount, MILLISECONDS_PER_YEAR as u128)
}

/// Whether a rate at `r0` is already at or past `target` in the direction
/// of travel (upwards when `up`).
pub open spec fn target_reached(r0: u128, target: u128, up: bool) -> bool {
    if up {
        target <= r0
    } else {
        r0 <= target
    }
}

/// The time (in ms) for a rate growing (`up`) or decaying (`!up`) at
/// `exp_rate` to move from `r0` to `target`: `ln(hi / lo) / exp_rate` with
/// `hi / lo` the ratio (scaled by `NAD`, saturating to `u64`), the division
/// truncating and taken with `exp_rate` reinterpreted as an `i128`; 0 when the
/// target is already reached or the quotient is not positive.
pub open spec fn time_to_reach_spec(r0: u128, target: u128, exp_rate: u128, up: bool) -> u128 {
    let lo = if up {
        r0
    } else {
        target
    };
    let hi = if up {
        target
    } else {
        r0
    };
    if hi <= lo {
        0
    } else {
        let ratio = clamp_to_u64(sat_mul(hi, NAD as u128) / max_u128(lo, 1));
        if ratio == 0 {
            0
        } else {
            let t = trunc_div(ln_nad_spec(ratio), (exp_rate as i128) as int);
            if t <= 0 {
                0
            } else {
                t as u128
            }
        }
    }
}

impl OmnipairRateModel {
    /// `e^(-exp_rate * dt)` scaled by `NAD`, as computed on chain: the
    /// saturated product `exp_rate * dt` is reinterpreted as an `i64`
    /// (keeping its low 64 bits) and negated.
    pub open spec fn decay_factor(self, dt: u128) -> u128 {
        let x = sat_mul(self.exp_rate as u128, dt);
        taylor_exp_spec(-(x as i64), NAD, TAYLOR_TERMS) as u128
    }

    /// `max(last_rate, min_rate)`: the rate accrual starts from.
    pub open spec fn start_rate(self, last_rate: u64) -> u128 {
        max_u128(last_rate as u128, self.min_rate as u128)
    }

    /// Above the target band: the start rate grown by `1 / decay_factor`.
    pub open spec fn grown_rate(self, last_rate: u64, dt: u128) -> u128 {
        sat_mul(self.start_rate(last_rate), NAD as u128) / max_u128(self.decay_factor(dt), 1)
    }

    /// Below the target band: the start rate shrunk by `decay_factor`.
    pub open spec fn decayed_rate(self, last_rate: u64, dt: u128) -> u128 {
        sat_mul(self.start_rate(last_rate), self.decay_factor(dt)) / (NAD as u128)
    }

    /// Area under the rate curve for a rate that moves exponentially from
    /// `from` to the bound `bound`, then stays flat there for the rest of
    /// `dt` (before annualization).
    pub open spec fn capped_area(self, from: u128, bound: u128, dt: u128, up: bool) -> int {
        let exp_rate = self.exp_rate as u128;
        let t = min_u128(time_to_reach_spec(from, bound, exp_rate, up), dt);
        let gap = if up {
            sat_sub(bound, from)
        } else {
            sat_sub(from, bound)
        };
        let exp_part = div_up_or_down(sat_mul(gap, NAD as u128), exp_rate);
        let flat_part = sat_mul(bound, sat_sub(dt, t));
        exp_part + flat_part
    }

    /// Whether `calculate_rate` completes on these inputs: the product
    /// `exp_rate * time_elapsed` must not wrap to `i64::MIN`, every branch that
    /// divides by `exp_rate` needs it non-zero, and the area sums of the capped
    /// branches must fit in `u128`.
    pub open spec fn rate_defined(self, last_rate: u64, time_elapsed: u64, last_util: u64) -> bool {
        let dt = time_elapsed as u128;
        let last = self.start_rate(last_rate);
        let max_nad = self.max_rate as u128;
        let min_nad = self.min_rate as u128;
        dt == 0 || {
            &&& (sat_mul(self.exp_rate as u128, dt) as i64) != i64::MIN
            &&& last_util > self.target_util_end ==> if max_nad > 0 && self.grown_rate(
                last_rate,
                dt,
            ) > max_nad {
                last >= max_nad || (self.exp_rate > 0 && self.capped_area(last, max_nad, dt, true)
                    <= u128::MAX)
            } else {
                self.exp_rate > 0
            }
            &&& (last_util <= self.target_util_end && last_util < self.target_util_start) ==> {
                &&& self.exp_rate > 0
                &&& (self.decayed_rate(last_rate, dt) < min_nad && last > min_nad)
                    ==> self.capped_area(last, min_nad, dt, false) <= u128::MAX
            }
        }
    }

    /// The `(current_rate, integral)` pair `calculate_rate` returns, both
    /// scaled by `NAD`; the integral is the annualized area under the rate
    /// over `time_elapsed` ms.
    pub open spec fn rate_after(self, last_rate: u64, time_elapsed: u64, last_util: u64) -> (
        u64,
        u64,
    ) {
        let dt = time_elapsed as u128;
        let exp_rate = self.exp_rate as u128;
        let min_nad = self.min_rate as u128;
        let max_nad = self.max_rate as u128;
        let last = self.start_rate(last_rate);
        if dt == 0 {
            (last_rate, 0)
        } else if last_util > self.target_util_end {
            let curr = self.grown_rate(last_rate, dt);
            if max_nad > 0 && curr > max_nad {
                if last >= max_nad {
                    (self.max_rate, clamp_to_u64(annualized(sat_mul(max_nad, dt))))
                } else {
                    (
                        self.max_rate,
                        clamp_to_u64(annualized(self.capped_area(last, max_nad, dt, true) as u128)),
                    )
                }
            } else {
                let integral = annualized(sat_mul(sat_sub(curr, last), NAD as u128) / exp_rate);
                (clamp_to_u64(curr), clamp_to_u64(integral))
            }
        } else if last_util < self.target_util_start {
            let curr = self.decayed_rate(last_rate, dt);
            if curr >= min_nad {
                let integral = annualized(sat_mul(sat_sub(last, curr), NAD as u128) / exp_rate);
                (clamp_to_u64(curr), clamp_to_u64(integral))
            } else if last <= min_nad {
                (self.min_rate, clamp_to_u64(annualized(sat_mul(min_nad, dt))))
            } else {
                (
                    self.min_rate,
                    clamp_to_u64(annualized(self.capped_area(last, min_nad, dt, false) as u128)),
                )
            }
        } else {
            (clamp_to_u64(last), clamp_to_u64(annualized(sat_mul(last, dt))))
        }
    }

    /// Returns `(current_rate, integral)`, both scaled by `NAD`: the rate
    /// after `time_elapsed` ms at utilization `last_util`, and the annualized
    /// integral of the rate over that time.
    ///
    /// Above the target band the rate grows exponentially (capped at
    /// `max_rate` when that is non-zero), below it decays (floored at
    /// `min_rate`), and inside it stays at `max(last_rate, min_rate)`.
    pub fn calculate_rate(&self, last_rate: u64, time_elapsed: u64, last_util: u64) -> (r: (
        u64,
        u64,
    ))
        requires
            self.rate_defined(last_rate, time_elapsed, last_util),
        ensures
            r == self.rate_after(last_rate, time_elapsed, last_util),
    {
        match self.checked_calculate_rate(last_rate, time_elapsed, last_util) {
            Some(r) => r,
            None => (last_rate, 0),
        }
    }

    /// `calculate_rate` where it completes, `None` on exactly the inputs on
    /// which it would fail (see `rate_defined`).
    pub fn checked_calculate_rate(&self, last_rate: u64, time_elapsed: u64, last_util: u64) -> (r:
        Option<(u64, u64)>)
        ensures
            r is Some <==> self.rate_defined(last_rate, time_elapsed, last_util),
            r matches Some(v) ==> v == self.rate_after(last_rate, time_elapsed, last_util),
    {
        let dt = time_elapsed as u128;
        if dt == 0 {
            return Some((last_rate, 0));
        }
        let nad = NAD as u128;
        let ms_per_year = MILLISECONDS_PER_YEAR as u128;

        let exp_rate = self.exp_rate as u128;
        let x = saturating_mul(exp_rate, dt);
        let x_signed = x as i64;
        if x_signed == i64::MIN {
            return None;
        }
        let gd = taylor_exp(-x_signed, NAD, TAYLOR_TERMS) as u128;
        proof {
            if exp_rate == 0 {
                lemma_exp_of_zero(NAD, TAYLOR_TERMS);
                assert(gd == NAD);
            }
        }

        let min_nad = self.min_rate as u128;
        let max_nad = self.max_rate as u128;
        let has_max_cap = max_nad > 0;
        let last = (last_rate as u128).max(min_nad);

        if (last_util as u128) > (self.target_util_end as u128) {
            let curr_unclamped = saturating_mul(last, nad) / gd.max(1);

            if has_max_cap && curr_unclamped > max_nad {
                if last >= max_nad {
                    let integral = div_round_up_or_down(saturating_mul(max_nad, dt), ms_per_year);
                    return Some((saturate_to_u64(max_nad), saturate_to_u64(integral)));
                }
                if exp_rate == 0 {
                    return None;
                }
                let t_to_max = Self::time_to_reach_closed_form(last, max_nad, exp_rate, true).min(
                    dt,
                );
                let exp_part = div_round_up_or_down(
                    saturating_mul(max_nad.saturating_sub(last), nad),
                    exp_rate,
                );
                let flat_part = saturating_mul(max_nad, dt.saturating_sub(t_to_max));
                let area = match exp_part.checked_add(flat_part) {
                    Some(a) => a,
                    None => return None,
                };
                let integral = div_round_up_or_down(area, ms_per_year);
                return Some((saturate_to_u64(max_nad), saturate_to_u64(integral)));
            }
            let curr = curr_unclamped;
            let numer = saturating_mul(curr.saturating_sub(last), nad);
            if exp_rate == 0 {
                return None;
            }
            let integral_pre = numer / exp_rate;
            let integral = div_round_up_or_down(integral_pre, ms_per_year);
            return Some((saturate_to_u64(curr), saturate_to_u64(integral)));
        }
        if (last_util as u128) < (self.target_util_start as u128) {
            let r1_unclamped = saturating_mul(last, gd) / nad;

            if r1_unclamped >= min_nad {
                let curr = r1_unclamped;
                let numer = saturating_mul(last.saturating_sub(curr), nad);
                if exp_rate == 0 {
                    return None;
                }
                let integral_pre = numer / exp_rate;
                let integral = div_round_up_or_down(integral_pre, ms_per_year);
                return Some((saturate_to_u64(curr), saturate_to_u64(integral)));
            } else {
                if last <= min_nad {
                    let integral = div_round_up_or_down(saturating_mul(min_nad, dt), ms_per_year);
                    return Some((saturate_to_u64(min_nad), saturate_to_u64(integral)));
                }
                if exp_rate == 0 {
                    return None;
                }
                let t_to_min = Self::time_to_reach_closed_form(last, min_nad, exp_rate, false).min(
                    dt,
                );
                let exp_part = div_round_up_or_down(
                    saturating_mul(last.saturating_sub(min_nad), nad),
                    exp_rate,
                );
                let flat_part = saturating_mul(min_nad, dt.saturating_sub(t_to_min));
                let area = match exp_part.checked_add(flat_part) {
                    Some(a) => a,
                    None => return None,
                };
                let integral = div_round_up_or_down(area, ms_per_year);
                return Some((saturate_to_u64(min_nad), saturate_to_u64(integral)));
            }
        }
        let integral = div_round_up_or_down(saturating_mul(last, dt), ms_per_year);
        Some((saturate_to_u64(last), saturate_to_u64(integral)))
    }

    /// Time in ms for a rate moving at `exp_rate` to go from `r0` to `target`
    /// (upwards when `up`), from the closed form `ln(ratio) / exp_rate`.
    ///
    /// A zero `exp_rate` is only admitted when the target is already reached,
    /// since otherwise the logarithm is divided by it.
    pub fn time_to_reach_closed_form(r0: u128, target: u128, exp_rate: u128, up: bool) -> (t:
        u128)
        requires
            exp_rate == 0 ==> target_reached(r0, target, up),
        ensures
            t == time_to_reach_spec(r0, target, exp_rate, up),
            target_reached(r0, target, up) ==> t == 0,
    {
        let nad = NAD as u128;
        if up {
            if target <= r0 {
                return 0;
            }
            let ratio_nad = saturating_mul(target, nad) / r0.max(1);
            let ratio_nad_u64 = saturate_to_u64(ratio_nad);
            if ratio_nad_u64 == 0 {
                return 0;
            }
            let ln_ratio = ln_nad(ratio_nad_u64);
            assert(exp_rate != 0 ==> (exp_rate as i128) != 0) by (bit_vector);
            proof {
                lemma_trunc_div_bounded(ln_ratio as int, (exp_rate as i128) as int);
            }
            let t = ln_ratio / (exp_rate as i128);
            if t <= 0 {
                0
            } else {
                t as u128
            }
        } else {
            if r0 <= target {
                return 0;
            }
            let ratio_nad = saturating_mul(r0, nad) / target.max(1);
            let ratio_nad_u64 = saturate_to_u64(ratio_nad);
            if ratio_nad_u64 == 0 {
                return 0;
            }
            let ln_ratio = ln_nad(ratio_nad_u64);
            assert(exp_rate != 0 ==> (exp_rate as i128) != 0) by (bit_vector);
            proof {
                lemma_trunc_div_bounded(ln_ratio as int, (exp_rate as i128) as int);
            }
            let t = ln_ratio / (exp_rate as i128);
            if t <= 0 {
                0
            } else {
                t as u128
            }
        }
    }
}

} // verus!
