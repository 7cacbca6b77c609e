# chronos_core

The core of Chronos, a compiler from natural-language descriptions to code,
written in Verus with its behaviour stated in contracts and proved.

- `src/ir/graph.rs`: the graph intermediate representation (nodes keyed by
  id, edges), the boolean adjacency matrix and the numeric node features.
- `src/parser/llm.rs`: description → code (templates, or the remote-model
  stub when an API client is configured) → graph, with a per-description
  cache.
- `src/checking/report.rs`: which nodes get memory-safety and overflow
  queries, and how solver answers become errors and warnings.
- `src/lib.rs`: configuration, targets, and the schedule of a compilation
  (`CompileSession`): optimization passes, then checks, then code generation.
- `src/text.rs`: decimal rendering, substring search and the string helpers.
- `app/`: the command-line program; it runs the Z3 queries, the optimizer and
  the code generators that the schedule asks for, builds the floating-point
  matrices with `ndarray`, and loads local models with `ort`.
