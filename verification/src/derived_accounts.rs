//! Program-derived addresses of a pair's vaults and of the protocol's
//! authorities.
use anchor_lang::prelude::Pubkey;
use vstd::prelude::*;

use crate::pair::OmnipairPair;

verus! {

/// The program-derived address (with its bump seed dropped) that
/// `Pubkey::try_find_program_address` finds for `seeds` under `program_id`,
/// or `None` when the seeds are invalid or no bump seed yields an address.
/// It is a hash-based function of the seeds and the program id alone.
pub uninterp spec fn program_address(seeds: Seq<Seq<u8>>, program_id: Seq<u8>) -> Option<Seq<u8>>;

/// `Pubkey::try_find_program_address` on raw 32-byte keys. The contract
/// claims only that the outcome is `program_address` of the seeds and the
/// program id; which address that is, is not stated here.
#[verifier::external_body]
fn try_program_address(seeds: &Vec<Vec<u8>>, program_id: [u8; 32]) -> (r: Option<[u8; 32]>)
    ensures
        match r {
            Some(k) => program_address(seeds.deep_view(), program_id@) == Some(k@),
            None => program_address(seeds.deep_view(), program_id@) is None,
        },
{
    let refs: Vec<&[u8]> = seeds.iter().map(|s| s.as_slice()).collect();
    Pubkey::try_find_program_address(&refs, &Pubkey::new_from_array(program_id)).map(
        |(k, _)| k.to_bytes(),
    )
}

/// The Omnipair program and the seed prefixes its accounts are derived from.
#[derive(Debug, PartialEq, Eq)]
pub struct OmnipairProgram {
    pub program_id: [u8; 32],
    pub reserve_vault_seed_prefix: Vec<u8>,
    pub futarchy_authority_seed_prefix: Vec<u8>,
}

/// The accounts a client derives for a pair.
#[derive(Debug, Clone, Copy, PartialEq, Eq)]
pub struct DerivedAccounts {
    pub reserve_vault0: [u8; 32],
    pub reserve_vault1: [u8; 32],
    pub futarchy_authority: [u8; 32],
    pub event_authority: [u8; 32],
}

/// The bytes of `"__event_authority"`, the event authority's seed.
pub open spec fn event_authority_seed() -> Seq<u8> {
    seq![95u8, 95, 101, 118, 101, 110, 116, 95, 97, 117, 116, 104, 111, 114, 105, 116, 121]
}

/// Seeds of a reserve vault: the prefix, the pair and the token mint.
pub open spec fn reserve_vault_seeds(prefix: Seq<u8>, pair_key: [u8; 32], token: [u8; 32]) -> Seq<
    Seq<u8>,
> {
    seq![prefix, pair_key@, token@]
}

/// A copy of `bytes` as a `Vec`.
fn bytes_vec(bytes: &[u8]) -> (v: Vec<u8>)
    ensures
        v@ == bytes@,
{
    vstd::slice::slice_to_vec(bytes)
}

/// The seed list `[a]`.
fn seeds_of_one(a: &[u8]) -> (v: Vec<Vec<u8>>)
    ensures
        v.deep_view() == seq![a@],
{
    let mut v: Vec<Vec<u8>> = Vec::new();
    v.push(bytes_vec(a));
    assert(v.deep_view()[0] == a@);
    assert(v.deep_view() =~= seq![a@]);
    v
}

/// The seed list `[a, b, c]`.
fn seeds_of_three(a: &[u8], b: &[u8], c: &[u8]) -> (v: Vec<Vec<u8>>)
    ensures
        v.deep_view() == seq![a@, b@, c@],
{
    let mut v: Vec<Vec<u8>> = Vec::new();
    v.push(bytes_vec(a));
    v.push(bytes_vec(b));
    v.push(bytes_vec(c));
    assert(v.deep_view()[0] == a@);
    assert(v.deep_view()[1] == b@);
    assert(v.deep_view()[2] == c@);
    assert(v.deep_view() =~= seq![a@, b@, c@]);
    v
}

impl DerivedAccounts {
    /// The two reserve vaults of the pair `pair_key`, the futarchy authority
    /// and the event authority, each derived under `program.program_id`;
    /// `None` when any derivation fails.
    pub fn compute(program: &OmnipairProgram, pair_key: [u8; 32], state: &OmnipairPair) -> (r:
        Option<DerivedAccounts>)
        ensures
            ({
                let pid = program.program_id@;
                let v0 = program_address(
                    reserve_vault_seeds(program.reserve_vault_seed_prefix@, pair_key, state.token0),
                    pid,
                );
                let v1 = program_address(
                    reserve_vault_seeds(program.reserve_vault_seed_prefix@, pair_key, state.token1),
                    pid,
                );
                let fa = program_address(seq![program.futarchy_authority_seed_prefix@], pid);
                let ea = program_address(seq![event_authority_seed()], pid);
                &&& r is Some <==> (v0 is Some && v1 is Some && fa is Some && ea is Some)
                &&& r matches Some(d) ==> {
                    &&& v0 == Some(d.reserve_vault0@)
                    &&& v1 == Some(d.reserve_vault1@)
                    &&& fa == Some(d.futarchy_authority@)
                    &&& ea == Some(d.event_authority@)
                }
            }),
            r matches Some(d) ==> program_address(
                seq![program.reserve_vault_seed_prefix@, pair_key@, state.token0@],
                program.program_id@,
            ) == Some(d.reserve_vault0@) && program_address(
                seq![program.reserve_vault_seed_prefix@, pair_key@, state.token1@],
                program.program_id@,
            ) == Some(d.reserve_vault1@),
    {
        broadcast use vstd::array::group_array_axioms;

        let prefix = program.reserve_vault_seed_prefix.as_slice();
        let pair = pair_key.as_slice();
        let reserve_vault0 = try_program_address(
            &seeds_of_three(prefix, pair, state.token0.as_slice()),
            program.program_id,
        );
        let reserve_vault1 = try_program_address(
            &seeds_of_three(prefix, pair, state.token1.as_slice()),
            program.program_id,
        );
        let futarchy_authority = try_program_address(
            &seeds_of_one(program.futarchy_authority_seed_prefix.as_slice()),
            program.program_id,
        );
        let event_seed: Vec<u8> = vec![
            95u8, 95, 101, 118, 101, 110, 116, 95, 97, 117, 116, 104, 111, 114, 105, 116, 121,
        ];
        assert(event_seed@ =~= event_authority_seed());
        let event_authority = try_program_address(
            &seeds_of_one(event_seed.as_slice()),
            program.program_id,
        );

        match (reserve_vault0, reserve_vault1, futarchy_authority, event_authority) {
            (Some(v0), Some(v1), Some(fa), Some(ea)) => Some(
                DerivedAccounts {
                    reserve_vault0: v0,
                    reserve_vault1: v1,
                    futarchy_authority: fa,
                    event_authority: ea,
                },
            ),
            _ => None,
        }
    }
}

/// A reserve vault is derived from exactly three seeds, in this order and
/// for every key: the vault prefix, the pair's key, the token's mint.
pub proof fn law_reserve_vault_seed_order(prefix: Seq<u8>, pair_key: [u8; 32], token: [u8; 32])
    ensures
        reserve_vault_seeds(prefix, pair_key, token).len() == 3,
        reserve_vault_seeds(prefix, pair_key, token)[0] == prefix,
        reserve_vault_seeds(prefix, pair_key, token)[1] == pair_key@,
        reserve_vault_seeds(prefix, pair_key, token)[2] == token@,
{
}

} // verus!
