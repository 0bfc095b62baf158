# predmarket

The core of a prediction-market trading back end, written in Verus: every
function in `src/` carries a contract that Verus proves, except the small
functions marked `#[verifier::external_body]` that call outside crates
(`rust_decimal`, `uuid`, `base64`, `hmac`, `argon2`, `chrono`, `dashmap`)
or std's `to_lowercase`.  Their contracts are trusted, not
proved, and each one's doc comment says what it claims of the call.

- `src/` — the verified library: fixed-point prices and quantities
  (`types`, `decimal`), pre-trade risk checks (`risk`), profit and loss
  bookkeeping (`pnl`), position monitoring (`monitor`), the circuit breaker
  (`circuit_breaker`), session tokens and passwords (`auth`), request
  validation and HTTP decisions (`http`, `error`), fill settlement
  (`fills`), order reconciliation (`reconcile`), the trading engine's and
  transaction manager's decisions (`engine`, `chain`), and the integer side
  of the market analytics (`analytics`).
- `tests/` — tests of the library on concrete values.
- `app/` — the server around it: configuration, HTTP routing and handlers,
  PostgreSQL queries, background workers, and the analytics rules that
  compare floating-point ratios.
