//! Protocol-wide revenue settings and the framing of on-chain account data.
use vstd::prelude::*;

verus! {

/// Length of the type discriminator that prefixes every account's data.
pub const DISCRIMINATOR_LEN: usize = 8;

/// Share of swap fees and of interest that goes to the protocol, in bps.
#[derive(Debug, Clone, Copy, Default, PartialEq, Eq)]
pub struct RevenueShare {
    pub swap_bps: u16,
    pub interest_bps: u16,
}

/// Accounts that receive protocol revenue, as raw 32-byte keys.
#[derive(Debug, Clone, Copy, Default, PartialEq, Eq)]
pub struct RevenueRecipients {
    pub futarchy_treasury: [u8; 32],
    pub buybacks_vault: [u8; 32],
    pub team_treasury: [u8; 32],
}

/// How protocol revenue is split between the recipients, in bps.
#[derive(Debug, Clone, Copy, Default, PartialEq, Eq)]
pub struct RevenueDistribution {
    pub futarchy_treasury_bps: u16,
    pub buybacks_vault_bps: u16,
    pub team_treasury_bps: u16,
}

/// The protocol's governance account: its authority, revenue recipients and
/// revenue settings.
#[derive(Debug, Clone, Copy, Default, PartialEq, Eq)]
pub struct OmnipairFutarchyAuthority {
    pub version: u8,
    pub authority: [u8; 32],
    pub recipients: RevenueRecipients,
    pub revenue_share: RevenueShare,
    pub revenue_distribution: RevenueDistribution,
    pub global_reduce_only: bool,
    pub bump: u8,
}

/// Errors of account decoding.
#[derive(Debug, Clone, Copy, PartialEq, Eq)]
pub enum OmnipairError {
    /// The account data is too short to hold a discriminator.
    InvalidAccountData,
}

/// The serialized fields of an account: everything after the
/// discriminator, or `InvalidAccountData` when the data is shorter than it.
pub fn account_payload(data: &[u8]) -> (r: Result<&[u8], OmnipairError>)
    ensures
        data@.len() < DISCRIMINATOR_LEN ==> r == Err::<&[u8], OmnipairError>(
            OmnipairError::InvalidAccountData,
        ),
        data@.len() >= DISCRIMINATOR_LEN ==> (r matches Ok(body) && body@ == data@.subrange(
            DISCRIMINATOR_LEN as int,
            data@.len() as int,
        )),
{
    if data.len() < DISCRIMINATOR_LEN {
        return Err(OmnipairError::InvalidAccountData);
    }
    Ok(vstd::slice::slice_subrange(data, DISCRIMINATOR_LEN, data.len()))
}

} // verus!
