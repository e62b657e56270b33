# rustci

Building blocks of an optimizing compiler, written in Verus with their
behaviour stated as contracts and proved.

- `src/collections`: economic maps and sets (tree-backed, wrapped and
  always-empty), pairs, equivalence strategies, cursors; laws relating reads
  and writes.
- `src/compiler_core`: compilation requests and results, phase suites and
  tiers, the compilation wrapper's failure handling, the watch dog, the
  printer, requested crashes.
- `src/debug`: debug context, counters, timers, memory trackers, method
  metrics, key registry, filters, indentation, scopes, log streams, CSV
  formatting, options.
- `src/graph`: the node graph with id reuse and compression, node bit maps,
  union-find, flood fill, work lists, source positions.
- `src/text.rs`: string helpers and their specifications.
- `app/`: terminal output, the process-wide key registry, build switches and
  floating-point reports, which stay outside the verified library.
