# ceres

The logic of Ceres, parametric crop insurance on Soroban, as a Verus-verified
library, and the Soroban contracts that run it.

- `src/` — the verified library.
  - `oracle.rs`: the latest weather reading per map cell and kind.
  - `policy.rs`: registration, lookup, listing, expiry and state changes of policies.
  - `trigger.rs`: drought evaluation and the once-per-policy payout record.
  - `address.rs`, `keyed.rs`: addresses as strkey bytes; keyed record lists read as maps.

  Each contract has a mathematical view with an invariant, spec functions for
  its operations, an in-memory store whose methods are proved to follow them,
  `*_step` functions that decide a call from the stored entries it reads, and
  `law_*` proof functions relating the operations.
- `app/` — the Soroban contracts: they read the ledger storage a call needs,
  let the `*_step` functions decide, write the result back and publish events.
- `tests/` — tests of the library.
