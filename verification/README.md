# landfall_server

The Landfall server: ingestion of Solana transaction-lifecycle events, the
trace read models, the project control plane, interactive accounts, report
exports, x402 payment controls and the durable observation worker.

- `src/` is the library, verified with Verus. It holds every rule the server
  applies: batch admission and privacy screening, the stored form of events,
  bearer-token authorization, access checks and request validation, rate
  windows, redaction and secret scanning, report rendering, retention plans,
  pagination cursors, the worker's retry schedule and counters, and the
  registries behind them. Calls into `sha2`, `time`, `uuid`, `getrandom`,
  `argon2`, `password-hash` and `aes-gcm` go through small trusted wrappers
  whose contracts state what those crates document.
- `app/` is the process around it: the axum router and middleware, the
  PostgreSQL queries, the tokio workers, configuration from the environment,
  logging, the JSON forms of the request and response types, and the
  floating-point benchmark and cohort rates. It also calls the workspace's
  `landfall_core`, `landfall_protocol`, `landfall_storage` and
  `landfall_observer` crates for the event protocol, the event store, the
  trace reducer and the RPC observer.
- `tests/` exercises the library on concrete values.
