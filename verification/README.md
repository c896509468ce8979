# cerebro

The core of CerebroCortex, a brain-inspired memory system for agents, as a
Verus-verified library: typed memories and visibility scopes, the association
graph and its searches, ingestion planning (chunking, markdown, CSV, JSON,
HTML, PDF text), concept extraction and gating, the dream cycle's control
flow as a step function and the decision rules of its phases, the session
bootstrap assembler, and the MCP tool surface: the tool catalog, the
router's argument checks, and its tag rules.

- `src/` — the verified library. Every executable function carries a
  contract; laws of the library are public proof functions named `law_*`.
  Calls into `petgraph`, `lopdf`, `base64`, `subtle`, `uuid`, `chrono` and a few
  `std` text functions stand behind small trusted wrappers whose contracts
  are documented where they are declared.
- `tests/` — tests of the library on concrete values.
- `app/` — the `cerebro` command line: configuration from the environment,
  ingest previews read from files, an MCP session on stdin/stdout (whose
  per-frame decisions and tool-call checks come from the library), and the
  floating-point scoring (FSRS, ACT-R, spreading activation, Wilson fitness,
  salience and arousal) that the library does not hold.
