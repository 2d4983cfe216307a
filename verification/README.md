# athenas_pallas

An event-driven trading engine core for live, paper and backtest trading, verified with
Verus.

- `src/` is the verified library: decimals and timestamps, keyed maps, the engine state and
  its updates, risk rules, the per-event engine cycle (market -> passive fills -> strategy ->
  risk -> execution, plus pause/resume/cancel-all/flatten), the paper and simulation
  gateways, Binance message decoding and signed-request construction, replay sources, the
  control-plane decisions and profit and loss. Calls into `rust_decimal`, `time`, `uuid`,
  `serde_json`, `hmac`/`sha2` and `hex` go through small trusted wrappers whose contracts
  are stated in their doc comments.
- `app/` is the runtime around it: async gateways (Binance REST over `reqwest`), the Tokio
  engine task and its handle, WebSocket connectors, the `axum` control server, CSV loading
  and float statistics (drawdown, Sharpe, Sortino).
- `tests/` exercises the library on concrete values.
