# shieldcoinbase

The decisions behind `z_shieldcoinbase`, the wallet RPC method that sweeps
transparent coinbase outputs into a shielded address, written and proved in Verus.

A call alternates between deciding and asking. `call::call` starts it and gives the
first `step::Step`: something that only the wallet database, the keystore, the
configuration or the transaction builder can do. Resuming the step with the answer
gives the next one, until `Step::Done` holds either all that the transaction is built
from or the error that the caller gets.

## Layout

- `src/call.rs`, `src/resolve.rs`, `src/collect.rs`: the steps. The contract of each
  one says exactly which step follows which answer.
- `src/proposal.rs`, `src/preflight.rs`, `src/amount.rs`: counting and summing what is
  selected, eligible and left over.
- `src/keys.rs`, `src/account.rs`, `src/address.rs`, `src/json.rs`, `src/error.rs`,
  `src/params.rs`: the values that the steps work on.
- `src/run.rs`: building and broadcasting, after the caller has been answered.
- `src/step.rs`: the steps as data, each with its model.
- `src/world.rs`: the call as a whole, given how everything is answered.
- `src/outcome.rs`: how a call ends, said without its steps, and the proof that the
  steps lead there.
- `src/laws.rs`, `src/asking.rs`, `src/eligible.rs`: what holds of every call.
- `tests/`: scenarios.
- `app/`: the JSON-RPC method, which performs the steps against a wallet.

## What is trusted

Functions marked `#[verifier::external_body]` call into the `uuid`, `zcash_address`,
`zcash_keys`, `zcash_script`, `zcash_transparent` and `zcash_client_sqlite` crates and
the standard library. The comment on each says what is claimed of the call.
