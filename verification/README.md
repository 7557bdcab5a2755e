# omnipair-amm-sdk

Interest-accrual math for Omnipair lending pairs, verified with Verus.

- `src/rate_model.rs`: the utilization-driven rate model. `calculate_rate`
  returns the new rate and the annualized rate integral; its contract is the
  spec function `rate_after`, and `rate_defined` states exactly when it
  completes (`checked_calculate_rate` returns `None` otherwise).
- `src/exp_ln.rs`: the fixed-point exponential (`taylor_exp`) and logarithm
  (`ln_nad`) the model is built on, with their sign and bound properties.
- `src/pair.rs`: `OmnipairPair::simulate_update`, which projects reserves,
  debts, cash reserves and rates to a later slot (`updated`,
  `update_defined`).
- `src/fixed_math.rs`: saturating and rounding helpers (`ceil_div`).
- `src/accounts.rs`, `src/swap_accounts.rs`: revenue settings, account-data
  framing, and the swap instruction's account list.
- `src/derived_accounts.rs`: the pair's reserve vaults and the protocol
  authorities as program-derived addresses, through one trusted wrapper over
  `Pubkey::try_find_program_address`.
- `src/laws.rs`: properties proved over all inputs (the three rate regimes,
  idempotence and monotonicity of updates, conservation of charges).
- `app/`: Borsh decoding with Anchor and conversion to Solana types.
