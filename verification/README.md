# middleware

A canister that creates, registers and removes middleware instances (one
canister per user) on the Internet Computer, and forwards calls to them.

- `src/` is the verified library: the canister's state and the decisions of
  each endpoint (`methods`), address normalisation (`utils::address`), the
  retry rule for failed calls (`utils::retry`), number conversions
  (`utils::natural`), the framing of the data kept across upgrades
  (`migrations`), and the example instance (`instance_example`).
- `app/` holds the canister itself: endpoints, calls to the management
  canister, stable memory, serialisation and the upgrade hooks. It drives the
  library's decision functions and performs the calls they ask for.
- `tests/` exercises the library on concrete values.
