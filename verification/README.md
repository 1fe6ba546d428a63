# rambit

The core logic of the Rambit cache service, verified with Verus.

## Layout

- `src/` — the verified library.
  - `slug.rs` — strict slugs and `strict_slugify`, with the laws that every
    result is a well-formed slug and that slugifying is idempotent.
  - `starc.rs`, `key.rs`, `value.rs`, `order.rs` — store keys (slug segments
    joined by `:`), their byte encoding and parsing, and their total order.
  - `keymap.rs`, `kv.rs`, `mock.rs` — an in-memory transactional store with
    optimistic and pessimistic transactions, range scans, and the laws of
    conflict detection and lock exclusivity.
  - `models.rs`, `services.rs`, `api_errors.rs` — permissions, tokens,
    compression settings, the decisions of the token and store services,
    and the errors returned to API users.
  - `storage.rs`, `counted.rs` — storage credentials, the path rules of
    local and object storage, and byte counting for readers.
  - `tasks.rs` — the keys and the status decisions of the task queue.
  - `text.rs` — the few `String` and UTF-8 operations used throughout.
- `tests/` — tests that run the compiled library.
- `app/` — the I/O around the library: environment variables, filesystem
  and S3 clients, HTTP error responses, an async shared store, keys on lazy
  statics, and the Redis task queue.
