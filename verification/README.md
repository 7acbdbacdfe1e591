# ic_dex

A token exchange for the Internet Computer, with its logic verified by Verus.

- `src/` is the verified library. `dex` is the exchange canister (its balance
  book in `dex::exchange`, the ICRC-2 argument records in `dex::icrc2`),
  `backend` an earlier form of it, `ledger` the token ledger the exchange trades
  against, and `publisher` a subscription registry. `principal`, `amount` and
  `principal_map` give the plain values these work on: principals as bytes,
  unbounded token amounts (whose arithmetic `candid::Nat` carries out), and a
  finite map keyed by principals.
- `app/` holds the canister endpoints: the state kept between calls, the calls
  to other canisters, and the Candid types of the interfaces.
- `tests/` runs the library on concrete values.
