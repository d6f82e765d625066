# solana-balanced-client

Balances Solana JSON-RPC requests over several RPC clients, each with its own rate limits
(requests per second, credits per month, ...), and falls back on a default client when every
RPC client is out of budget.

Layout:

- `src/` — the library, verified with Verus:
  - `endpoint.rs`: `RpcEndpoint`, the endpoints that requests are metered by, and their codes;
  - `limits.rs`: `SolanaClientRateLimit`, what a batch of requests costs in a limit, how a new
    interval resets the consumption, and the check / charge operations;
  - `methods.rs`: the amounts and ignore list that a limit keeps for custom methods, by name;
  - `rpc.rs`: `SolanaClientRpc`, an RPC client with its list of limits, all of which must admit
    a batch before any is charged;
  - `client.rs`: `SolanaClientInner`, which RPC client serves a batch (in turn from
    `next_rpc_index`, falling back on `default_rpc`).
- `app/` — the asynchronous `SolanaClient`: it holds the library state behind a lock, picks a
  client through the library and awaits the request on it.
- `tests/` — tests of the library on concrete configurations.
