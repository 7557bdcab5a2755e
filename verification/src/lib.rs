//! Interest-accrual math for Omnipair pairs: the utilization-driven rate
//! model, its fixed-point exponential and logarithm, and the projection of a
//! pair's reserves and debts to a later slot.

pub mod constants;
pub mod fixed_math;
pub mod exp_ln;
pub mod rate_model;
pub mod pair;
pub mod accounts;
pub mod laws;
pub mod swap_accounts;
pub mod derived_accounts;

pub use accounts::{
    account_payload, OmnipairError, OmnipairFutarchyAuthority, RevenueDistribution,
    RevenueRecipients, RevenueShare,
};
pub use derived_accounts::{DerivedAccounts, OmnipairProgram};
pub use constants::{BPS_DENOMINATOR, MILLISECONDS_PER_YEAR, NAD};
pub use fixed_math::ceil_div;
pub use pair::{slots_to_ms, OmnipairPair};
pub use rate_model::OmnipairRateModel;
pub use swap_accounts::{OmnipairSwapAccounts, SwapAccountMeta};
