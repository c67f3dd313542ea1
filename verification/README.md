# snapshot_hash

Snapshot hashes of stored configurations, verified with Verus.

- `src/numeric.rs` — the model: big-endian byte strings, decimal text, decimal
  literals and lowercase hex as spec functions, with their lemmas.
- `src/bignum.rs`, `src/digest.rs` — trusted wrappers around `num_bigint`,
  `hex` and `blake3`.
- `src/snapshot.rs` — `SnapshotHashScheme` and `SnapshotHash`: construction from
  bytes, the decimal / bytes / hex / prefixed text forms, and parsing.
- `src/laws.rs` — round trips and other properties across those functions.
- `src/migration.rs` — the decisions and statements of the migration that adds
  `canonical_hash` to `ConfigSnapshot`.
- `src/config_queries.rs` — lookup, write and backfill statements, and the
  decisions taken on ClickHouse's answers.
- `app/` — serde, sqlx and `Display` on a wire copy of the hash, and the async
  ClickHouse plumbing (not verified).
