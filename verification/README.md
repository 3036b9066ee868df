# factoring

A verified model of an invoice-factoring smart contract for MultiversX.

Companies register with the protocol; a supplier opens a factoring contract
with a client and uploads invoices against it; the client validates them; the
protocol advances 70% of a valid invoice to the supplier, collects the full
amount from the client, and forwards the rest minus a 1% commission and
Euribor-based financing fees. Idle liquidity can be supplied to the Hatom
money market.

Layout:

- `src/` — the library, verified with Verus. `storage.rs` holds the contract's
  state as plain values and its mathematical model; `admin_config.rs`,
  `account_manager.rs`, `stable_farming.rs` and `factoring.rs` hold the
  endpoints, each with a contract that states the error it fails with (and
  that a failure changes nothing) or the new state and the effects to
  perform; `fees.rs` holds the arithmetic; `laws.rs` the properties that
  relate several calls; `amount.rs` the token amounts, natural numbers of any
  size held as 64-bit limbs, with addition, subtraction, comparison and
  multiplication and division by a 64-bit number, each proved against the
  arithmetic on the numbers it denotes.
- `tests/` — tests of the library on concrete values.
- `app/` — the MultiversX contract around the library: it reads the caller,
  owner, time, payments and balances from the chain, keeps the state in
  storage (checking on every load that it is consistent), and performs the
  transfers, Hatom calls and events the library returns.
