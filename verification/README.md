# relaybox

A webhook delivery queue: clients enqueue a delivery (a target URL and a
JSON payload) under an `Idempotency-Key`, and query deliveries by id.

- `src/` is the verified library (Verus):
  - `idempotency_key` — reading the key header (UTF-8, ASCII-whitespace
    trimming, 1–128 bytes) and its laws;
  - `json` — JSON values, their equality (objects compared as maps) and
    member lookup, and the parse of JSON text through `serde_json`;
  - `domain` — deliveries, enqueue requests, store errors;
  - `formats` — URL, UUID and RFC 3339 parsing through the `url`, `uuid`
    and `chrono` crates, and the target-URL rule;
  - `store` — the store's decisions around an insert (create, replay,
    conflict) and the decoding of stored rows;
  - `api` — request validation, refusals, and replies.
- `app/` is the service around it: axum routes, SQLite storage (sqlx),
  the payload's JSON serialisation, and `main`.
- `tests/` exercises the library.
