# SDD Navigator Service

A service that scans source trees for requirement annotations such as
`@req(REQ-001)`, stores the scans, and reports how well requirements are
covered.

The crate is written in Verus:

- `src/` is the verified library: annotation extraction and its context
  lines, the rules that pick the files a scan reads, coverage metrics and
  recommendations, the in-memory scan store, validation, the error
  mapping of the HTTP layer, and the small sample project that scans are
  tried on. Calls into `regex`, `glob`, `chrono`, `uuid` and a few std
  functions go through trusted wrappers whose contracts are stated next
  to them.
- `tests/` runs the library on concrete values.
- `app/` is the HTTP server around the library: axum routes, the
  PostgreSQL store, directory walking, file reading, JSON and OpenAPI
  types, and the floating-point coverage figures.
