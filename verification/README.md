# generic_search

A concurrent file-name search. Producers list directories, an
orchestrator hands each listed batch to a consumer and each listed
subdirectory to a new producer, and consumers report every entry whose
path holds the query (case-insensitively). A server runs the same search
for remote clients over gRPC with mutual TLS.

## Layout

- `src/` — the verified library (Verus):
  - `text` — substring search over characters, Unicode lower-casing;
  - `matching` — when a path is a hit, how a hit is reported;
  - `defs` — directory entries, file-system kinds, hits;
  - `producer`, `orchestrator`, `local_consumer`, `remote_consumer` —
    the decisions of the concurrent search;
  - `traversal` — a whole search over a finite file tree, and its laws;
  - `handler` — the per-path step of the recursive search;
  - `config` — server endpoint, certificate paths, configuration loading;
  - `cli` — which searches a run performs.
- `app/` — the program: command line, file system, channels and tasks,
  printing, gRPC and TLS. It runs as the client by default, as the server
  when invoked as `zombie_hunt_server`, and as the recursive search when
  invoked as `zombie_hunt_recursive`.
- `tests/` — tests of the library.
