# druid

A database connection-pool toolkit whose logic is specified and proved with
Verus: SQL lexing, parsing and formatting, a SQL firewall with a result cache,
per-statement statistics, interceptor chains, prepared-statement caching, pool
bookkeeping, weighted round-robin among data sources, and the encrypted storage
of passwords.

## Layout

- `src/` — the verified library.
  - `text.rs` — character-level helpers and the std text functions it relies on.
  - `base/` — error type, database kinds, pool settings.
  - `sql/` — tokens, lexer, AST, grammar (as spec functions), parser, formatter,
    schema visitor.
  - `wall/` — firewall rules, checker, caching provider, and the firewall
    interceptor.
  - `filter/` — the interceptor trait, chains and their management.
  - `stat/` — SQL and data-source statistics, pool counters.
  - `pool/` — prepared-statement cache and the pool's connection bookkeeping.
  - `proxy.rs`, `ha.rs`, `console.rs` — proxied connections, node selection,
    HTML escaping.
  - `util/` — SQL and string helpers, time, Base64, AES-GCM password storage.
- `tests/` — tests run against the compiled library.
- `app/` — the asynchronous pool, the HTTP console, serde/thiserror copies of
  library types, key management and float-valued reports.
