# yield_vault

Verified share accounting for a Soroban yield vault.

- `src/` — the library, verified with Verus:
  - `address.rs`: addresses as the bytes of their strkey, compared bytewise.
  - `error.rs`: the refusals and the numbers callers see for them.
  - `math.rs`: share minting and redemption arithmetic (division toward zero).
  - `model.rs`: the vault's state in mathematical terms, its invariant, and
    each operation as a function from state to result and next state.
  - `ledger.rs`: lemmas on the list of share entries.
  - `laws.rs`: the properties the vault keeps across operations.
  - `vault.rs`: `YieldVault`, the executable ledger, each operation proved
    to follow its step in `model.rs`.
  - `record.rs`: the plain-value form of the state kept between calls.
- `app/` — the Soroban contracts: storage, authorisation, token transfers
  and events around the library.
- `tests/` — tests of the library.
