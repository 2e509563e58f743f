# fluxapay

The core of the FluxaPay payment contracts as a verified library: payment
charges and their lifecycle, refunds and disputes, payment links (with
fiat-denominated amounts converted at an oracle rate), merchant
pre-authorizations, the exchange-rate oracle, and the role-based access
control they share. Every function carries a contract that Verus proves.

Layout:

- `src/` — the library. Each contract's state is a plain value (byte strings
  for addresses, symbols and ledger strings); operations take the ledger time
  as an argument and hand back the token transfers to make. `store.rs` holds
  the keyed records with unique keys, `text.rs` the byte strings and the
  decimal identifiers, `math.rs` the saturating and truncating arithmetic.
- `tests/` — tests of the library on concrete values.
- `app/` — the ledger contracts: they load state, check signatures, call the
  library, store the result, publish events, move tokens and ask the oracle.
