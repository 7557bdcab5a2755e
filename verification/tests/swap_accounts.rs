use omnipair_amm_sdk::{OmnipairSwapAccounts, SwapAccountMeta};

fn key(b: u8) -> [u8; 32] {
    [b; 32]
}

#[test]
fn swap_accounts_in_instruction_order() {
    let accounts = OmnipairSwapAccounts {
        pair: key(1),
        rate_model: key(2),
        futarchy_authority: key(3),
        token_in_vault: key(4),
        token_out_vault: key(5),
        user_token_in_account: key(6),
        user_token_out_account: key(7),
        token_in_mint: key(8),
        token_out_mint: key(9),
        user: key(10),
        token_program: key(11),
        token_2022_program: key(12),
        event_authority: key(13),
        omnipair_program: key(14),
    };
    let metas = accounts.account_metas();
    assert_eq!(metas.len(), 14);
    let writable = [1u8, 2, 4, 5, 6, 7, 10];
    for (i, m) in metas.iter().enumerate() {
        let b = (i + 1) as u8;
        assert_eq!(
            *m,
            SwapAccountMeta {
                pubkey: key(b),
                is_signer: b == 10,
                is_writable: writable.contains(&b),
            }
        );
    }
}
