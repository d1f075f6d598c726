# fluxity

Token lockups for a Soroban contract: linear streams and vesting schedules
that a sender funds and a receiver draws from over time, with a monthly fee
paid to the contract's admin.

- `src/` is the verified library. `contract::Fluxity` holds the contract's
  state (admin, fee token, monthly fee, next id, lockups) and its operations
  (create, cancel, withdraw, top up, and the getters). Each operation returns
  the work it hands to the host as a list of `effects::Effect`s:
  authorization checks, token transfers, storage writes and events.
  `utils` holds the arithmetic of the schedules and of the fee, `model` the
  specification of each operation, `laws` the properties proved of them,
  and `guards` tells when an operation would make the contract panic.
- `app/` is the Soroban contract: it loads the state from storage, calls the
  library, and performs the effects with `soroban-sdk`.
- `tests/` exercises the library.
