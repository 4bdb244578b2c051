# malkuth

A service-supervision toolkit whose decision logic is verified with Verus:
graceful-drain state, NDJSON framing, JSON-RPC envelopes and reply routing,
the consistent-hash sticky proxy, pod-port assignment, file-lease and lock
rules, leader terms, the in-memory instance registry, health probes, restart
policies with a sliding-window budget, the method table of the RPC server,
the steps of a gradual rolling update, and the argument handling of the
command-line tools.

Layout:

- `src/` — the verified library. Each module states its contracts over
  mathematical models (`Seq`, `Map`, spec functions); laws that relate
  several operations are public proof functions (`law_*`).
- `tests/` — executable tests of the library.
- `app/` — the `malkuth` binary and the async runtime around the library:
  sockets and WebSockets, local IPC, process spawning, signals, file and
  database locks, the HTTP probe routes, the MCP server and the reference
  worker program (`malkuth test-app worker | supervise | rolling`).

Tables keyed by names (the RPC method table, the instance registry, the
proxy's sticky table) are `Vec`s of entries whose invariant is that no key
occurs twice. vstd specifies the contents of a `HashMap` only for key types
it knows to hash and compare faithfully (`obeys_key_model`: the integer types
and `bool`), and establishing that for `String` would take an unproved
assumption; with a `HashMap<String, _>` the calls type-check but nothing can
be proved about what the map holds. The `Vec` forms carry the same
behaviour (one entry per key, insert replaces, lookup finds) as proved
contracts.
