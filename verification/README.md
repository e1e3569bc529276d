# price_oracle

The StellarFlow price oracle for Soroban, with its decision logic verified in Verus.

- `src/` is the verified library. `PriceOracle` holds the contract's storage as plain
  values (admin list, provider whitelist, pause flag, per-asset price and bounds
  tables); every entry point of the contract is a method on it with a contract that
  states the result and the new storage exactly. `src/laws.rs` proves properties that
  relate the operations (read-after-write, staleness, the update circuit breaker,
  bounds, admin and provider bookkeeping).
- `app/` is the Soroban contract itself: it loads storage into the model, calls the
  library, writes the changed tables back, publishes events, checks authorization
  signatures and aborts where the contract panics.
- `tests/` runs the library on concrete scenarios.
