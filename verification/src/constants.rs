use vstd::prelude::*;

verus! {

/// Fixed-point unit: rates, utilizations and exponentials are scaled by 1e9.
pub const NAD: u64 = 1_000_000_000;

/// Nominal slot duration used to convert slots to milliseconds.
pub const TARGET_MS_PER_SLOT: u64 = 400;

/// ln(2) scaled by `NAD`.
pub const NATURAL_LOG_OF_TWO_NAD: u64 = 693_147_180;

/// Number of Taylor terms used by the exponential.
pub const TAYLOR_TERMS: u64 = 5;

/// Milliseconds in a 365-day year.
pub const MILLISECONDS_PER_YEAR: u64 = 31_536_000_000;

/// Denominator of basis-point quantities.
pub const BPS_DENOMINATOR: u128 = 10_000;

} // verus!
