# depgraph-store

The store of a dependency-graph scanner. Scans of a workspace are written as events, checked as
a whole and published as immutable completed snapshots. Builds and runtime sessions are later
laid over a snapshot as further layers. A snapshot is named by its content, sealed against
changes of its stored rows, and can be loaded, paged, summarised, collected and recovered.

## Layout

`src/` is the library. Every decision of the store is made there, over plain values, and is
proved with [Verus](https://github.com/verus-lang/verus) against the contract that it states.

| Modules | Subject |
| --- | --- |
| `text`, `order`, `sort`, `keyed`, `digest`, `json`, `written` | Strings, orders, digests and JSON values |
| `records` | The records that the store keeps |
| `schema`, `ownership` | Migrations, and the tables that say which operation owns what |
| `ingest`, `coverage`, `coverage_report`, `scan_validation` | Events, coverage, and when a scan is complete |
| `operations`, `staging` | Scans that an operation owns until they are decided |
| `snapshots`, `seal`, `identities` | Completed snapshots, their names, their seals and their identities |
| `layers`, `loading`, `node_page`, `projection` | How a graph is put together from its layers, and pages of its nodes |
| `observed`, `build_attempt`, `build_staging`, `build_union` | Builds, and what they may add to a graph |
| `runtime_session`, `runtime_union`, `runtime_merge`, `runtime_import`, `import_laws` | Runtime sessions, and how they are imported |
| `profile_matrix`, `matrix_facts`, `matrix_build`, `matrix_refresh`, `matrix_laws`, `matrix_origin`, `correlation`, `conditions` | The profile matrix of a graph |
| `summary`, `summary_rows`, `diagnostic_summary` | Bounded summaries of a scan |

What holds of several functions together is stated as public proof functions, at the end of the
modules that they speak of: for instance that loading a snapshot and naming it apply the same
layers in the same order and that the topology of a snapshot is the shape of its graph (`loading`),
that a page of nodes shows the loaded graph (`projection`),
that a seal covers every row (`seal`), that a migrated store is current (`schema`), that
refreshing a profile matrix again changes nothing (`matrix_origin`), that importing a session again
gives what the first import gave (`import_laws`) and that garbage collection keeps what is
referenced (`snapshots`).

`app/` is ordinary Rust around the library: the SQLite database, its statements and its
transactions, JSON text, and the clock. It reads rows, hands them to the library and carries out
what the library decides. What the rest of the workspace supplies (stable identities, canonical
conditions, the contract of a build) enters through the trait `Workspace`.

`tests/` holds the tests of the library.

## What is not proved

The contracts of a few functions of `std` (prefixes, UTF-8 decoding, `String::push`) and of SHA-256
from the crate `sha2` are taken as given. They stand in `text` and `digest`, with what is claimed of
each.
