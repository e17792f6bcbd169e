# tns

A verified library for read-only "brain packages" and for the ARC admission
engine, written in Verus.

- `src/` — the library, verified by Verus:
  - `digest` — `sha256:`-prefixed content hashes (SHA-256 from the `sha2`
    crate, hex encoding proved here) and the ten-digit short hash;
  - `json` — the compact JSON the hashes are taken over (string escaping and
    integers from `serde_json`, objects and arrays framed here);
  - `text` — the order of strings, sorted string sets;
  - `package` — the package documents, `verify` against the files on disk,
    loading;
  - `adapter` — the read-only projection adapter: `bind`, `read_region`,
    `write_region`;
  - `working` — the working body and its expansion deltas;
  - `traversal` — the demo traversal as steps, and its receipt;
  - `arc` — the ARC physics engine that adjudicates probes;
  - `laws` — properties that span several functions, proved.
- `tests/` — tests over in-memory packages and engines.
- `app/` — the program: file reading, JSON parsing into the library's types,
  the floating-point parts (confidence, output choice, the stochastic probe
  model) and the command line (`tns-mvp` for the package demo, otherwise the
  ARC loop).
