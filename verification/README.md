# vault_contract

The storage layer of a staking vault contract on the Soroban host, verified
with Verus.

- `src/host.rs`: the host as the library uses it: the environment and address
  types, a model of the running contract's instance and persistent storage,
  and the storage and ledger-clock calls, each with the contract it is trusted
  to meet.
- `src/keys.rs`: the storage keys and the vault's view of storage through them.
- `src/types.rs`: positions, snapshots and errors.
- `src/rewards.rs`: reward-index, accrual and vesting arithmetic.
- `src/storage.rs`: reads, writes and the deposit, withdrawal, distribution,
  claim and preview operations.
- `src/laws.rs`: properties that span operations.
- `app/lib.rs`: copies of the stored types with the host encoding derived.
- `tests/`: the arithmetic on its own, and the operations against a test host.
