# heirloom_backend

The backend of an inheritance-vault service: caching, resilience, deployment,
audit and persistence logic, written in Rust and verified with Verus.

- `src/` is the library. Verus proves what its functions promise; a few, such as
  readings of the clock, promise nothing. What is taken on trust of other crates
  is marked "Trusted" where it stands.
- `tests/` runs the library on concrete values.
- `app/` is the ordinary Rust around it: HTTP handlers, SQLite, Redis, the
  environment, and the little floating point arithmetic that there is.

## How the library is laid out

| Modules | What they are about |
|---|---|
| `cache`, `cache_metrics`, `cache_partition`, `cache_recovery`, `cache_invalidation`, `cache_warming` | the vault cache and what is built on it |
| `consensus`, `distributed_tx`, `deadlock`, `consistency` | nodes, shards, locks and database checks |
| `circuit_breaker`, `bulkhead`, `fallback`, `degradation`, `dlq`, `chaos` | resilience |
| `canary`, `dependency_map`, `contract_version_check` | deployment |
| `batch`, `batching`, `decompression`, `error_context` | requests |
| `acl`, `audit`, `compliance`, `cdc`, `backup_validation` | access, audit trail, change capture, backups |
| `cost_estimation`, `cost_tracking`, `custom_metrics`, `metrics` | figures |
| `db`, `records`, `rows`, `models` | in-memory stores, database rows, records and statements |
| `doc_generator`, `scan` | the API documentation generator |
| `clock`, `text`, `json`, `strmap`, `order`, `ratio`, `ring`, `graph`, `sequences` | foundations |

Functions that read the clock or draw an identifier come in pairs: `record`
reads the clock and says what holds of every reading, `record_at` takes the
moment and says exactly what comes of it. The laws that relate several
functions are the public proof functions whose names begin with `law_`.

Floating point numbers appear in the library only by their place in the order
of the numbers, or as a quotient of two integers.
