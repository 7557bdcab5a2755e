//! The accounts of a swap instruction, in instruction order, with their
//! writable and signer flags.
use vstd::prelude::*;

verus! {

/// One account of an instruction: its key and how the instruction uses it.
#[derive(Debug, Clone, Copy, PartialEq, Eq)]
pub struct SwapAccountMeta {
    pub pubkey: [u8; 32],
    pub is_signer: bool,
    pub is_writable: bool,
}

/// A writable account.
pub open spec fn writable(pubkey: [u8; 32], is_signer: bool) -> SwapAccountMeta {
    SwapAccountMeta { pubkey, is_signer, is_writable: true }
}

/// A read-only account.
pub open spec fn readonly(pubkey: [u8; 32], is_signer: bool) -> SwapAccountMeta {
    SwapAccountMeta { pubkey, is_signer, is_writable: false }
}

/// The keys a swap instruction needs, as raw 32-byte keys.
#[derive(Debug, Clone, Copy, PartialEq, Eq)]
pub struct OmnipairSwapAccounts {
    pub pair: [u8; 32],
    pub rate_model: [u8; 32],
    pub futarchy_authority: [u8; 32],
    pub token_in_vault: [u8; 32],
    pub token_out_vault: [u8; 32],
    pub user_token_in_account: [u8; 32],
    pub user_token_out_account: [u8; 32],
    pub token_in_mint: [u8; 32],
    pub token_out_mint: [u8; 32],
    pub user: [u8; 32],
    pub token_program: [u8; 32],
    pub token_2022_program: [u8; 32],
    pub event_authority: [u8; 32],
    pub omnipair_program: [u8; 32],
}

impl OmnipairSwapAccounts {
    /// The instruction's account list: the pair, rate model, vaults and user
    /// token accounts are written; the user signs; mints, programs, the
    /// futarchy authority and the event authority are only read.
    pub open spec fn metas(self) -> Seq<SwapAccountMeta> {
        seq![
            writable(self.pair, false),
            writable(self.rate_model, false),
            readonly(self.futarchy_authority, false),
            writable(self.token_in_vault, false),
            writable(self.token_out_vault, false),
            writable(self.user_token_in_account, false),
            writable(self.user_token_out_account, false),
            readonly(self.token_in_mint, false),
            readonly(self.token_out_mint, false),
            writable(self.user, true),
            readonly(self.token_program, false),
            readonly(self.token_2022_program, false),
            readonly(self.event_authority, false),
            readonly(self.omnipair_program, false),
        ]
    }

    /// The swap instruction's accounts in order (see `metas`).
    pub fn account_metas(&self) -> (r: Vec<SwapAccountMeta>)
        ensures
            r@ == self.metas(),
            r@.len() == 14,
            r@[3].pubkey == self.token_in_vault && r@[3].is_writable,
            r@[4].pubkey == self.token_out_vault && r@[4].is_writable,
    {
        let mut v: Vec<SwapAccountMeta> = Vec::new();
        v.push(SwapAccountMeta { pubkey: self.pair, is_signer: false, is_writable: true });
        v.push(SwapAccountMeta { pubkey: self.rate_model, is_signer: false, is_writable: true });
        v.push(
            SwapAccountMeta {
                pubkey: self.futarchy_authority,
                is_signer: false,
                is_writable: false,
            },
        );
        v.push(SwapAccountMeta { pubkey: self.token_in_vault, is_signer: false, is_writable: true });
        v.push(
            SwapAccountMeta { pubkey: self.token_out_vault, is_signer: false, is_writable: true },
        );
        v.push(
            SwapAccountMeta {
                pubkey: self.user_token_in_account,
                is_signer: false,
                is_writable: true,
            },
        );
        v.push(
            SwapAccountMeta {
                pubkey: self.user_token_out_account,
                is_signer: false,
                is_writable: true,
            },
        );
        v.push(SwapAccountMeta { pubkey: self.token_in_mint, is_signer: false, is_writable: false });
        v.push(
            SwapAccountMeta { pubkey: self.token_out_mint, is_signer: false, is_writable: false },
        );
        v.push(SwapAccountMeta { pubkey: self.user, is_signer: true, is_writable: true });
        v.push(SwapAccountMeta { pubkey: self.token_program, is_signer: false, is_writable: false });
        v.push(
            SwapAccountMeta {
                pubkey: self.token_2022_program,
                is_signer: false,
                is_writable: false,
            },
        );
        v.push(
            SwapAccountMeta { pubkey: self.event_authority, is_signer: false, is_writable: false },
        );
        v.push(
            SwapAccountMeta { pubkey: self.omnipair_program, is_signer: false, is_writable: false },
        );
        assert(v@ =~= self.metas());
        v
    }
}

/// The swap instruction lists, whatever the keys and mints, exactly these
/// fourteen accounts in this order: pair, rate model, futarchy authority,
/// input vault, output vault, user input account, user output account, input
/// mint, output mint, user, token program, token-2022 program, event
/// authority, Omnipair program; the user alone signs, and the pair, rate
/// model, both vaults, both user token accounts and the user are written.
pub proof fn law_swap_account_order(a: OmnipairSwapAccounts)
    ensures
        a.metas().len() == 14,
        a.metas()[0] == (SwapAccountMeta { pubkey: a.pair, is_signer: false, is_writable: true }),
        a.metas()[1] == (SwapAccountMeta { pubkey: a.rate_model, is_signer: false, is_writable: true }),
        a.metas()[2] == (SwapAccountMeta { pubkey: a.futarchy_authority, is_signer: false, is_writable: false }),
        a.metas()[3] == (SwapAccountMeta { pubkey: a.token_in_vault, is_signer: false, is_writable: true }),
        a.metas()[4] == (SwapAccountMeta { pubkey: a.token_out_vault, is_signer: false, is_writable: true }),
        a.metas()[5] == (SwapAccountMeta { pubkey: a.user_token_in_account, is_signer: false, is_writable: true }),
        a.metas()[6] == (SwapAccountMeta { pubkey: a.user_token_out_account, is_signer: false, is_writable: true }),
        a.metas()[7] == (SwapAccountMeta { pubkey: a.token_in_mint, is_signer: false, is_writable: false }),
        a.metas()[8] == (SwapAccountMeta { pubkey: a.token_out_mint, is_signer: false, is_writable: false }),
        a.metas()[9] == (SwapAccountMeta { pubkey: a.user, is_signer: true, is_writable: true }),
        a.metas()[10] == (SwapAccountMeta { pubkey: a.token_program, is_signer: false, is_writable: false }),
        a.metas()[11] == (SwapAccountMeta { pubkey: a.token_2022_program, is_signer: false, is_writable: false }),
        a.metas()[12] == (SwapAccountMeta { pubkey: a.event_authority, is_signer: false, is_writable: false }),
        a.metas()[13] == (SwapAccountMeta { pubkey: a.omnipair_program, is_signer: false, is_writable: false }),
{
}

} // verus!
