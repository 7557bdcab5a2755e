use anchor_lang::prelude::Pubkey;
use omnipair_amm_sdk::{DerivedAccounts, OmnipairPair, OmnipairProgram};

fn pda(seeds: &[&[u8]], program_id: [u8; 32]) -> [u8; 32] {
    Pubkey::find_program_address(seeds, &Pubkey::new_from_array(program_id)).0.to_bytes()
}

#[test]
fn derived_accounts_are_program_addresses_of_their_seeds() {
    let program = OmnipairProgram {
        program_id: [7u8; 32],
        reserve_vault_seed_prefix: b"reserve_vault".to_vec(),
        futarchy_authority_seed_prefix: b"futarchy_authority".to_vec(),
    };
    let pair_key = [9u8; 32];
    let state = OmnipairPair { token0: [1u8; 32], token1: [2u8; 32], ..Default::default() };
    let d = DerivedAccounts::compute(&program, pair_key, &state).unwrap();
    assert_eq!(d.reserve_vault0, pda(&[b"reserve_vault", &pair_key, &state.token0], program.program_id));
    assert_eq!(d.reserve_vault1, pda(&[b"reserve_vault", &pair_key, &state.token1], program.program_id));
    assert_eq!(d.futarchy_authority, pda(&[b"futarchy_authority"], program.program_id));
    assert_eq!(d.event_authority, pda(&[b"__event_authority"], program.program_id));
    assert_ne!(d.reserve_vault0, d.reserve_vault1);
    assert_ne!(d.reserve_vault0, pair_key);
    assert_ne!(d.event_authority, program.program_id);
}

#[test]
fn derivation_with_an_overlong_seed_fails() {
    let program = OmnipairProgram {
        program_id: [7u8; 32],
        reserve_vault_seed_prefix: vec![0u8; 33],
        futarchy_authority_seed_prefix: b"futarchy_authority".to_vec(),
    };
    let state = OmnipairPair::default();
    assert_eq!(DerivedAccounts::compute(&program, [9u8; 32], &state), None);
}
