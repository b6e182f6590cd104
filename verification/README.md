# bugbounty_server

A local research vault for bug-bounty work: a markdown library with full-text
search and a grounded local-model assistant, a job manager, and a set of
reconnaissance tools (WordPress fingerprinting and enumeration, security
headers, CORS, open redirects, JavaScript analysis, CVE and Wordfence
vulnerability intelligence, wrappers around command-line scanners).

## Layout

- `src/` — the library, verified with Verus: input normalization, version
  matching and ranges, severity ranking, the probes' interpretation (each
  takes what the network returned and builds the answer), the reading of the
  command-line scanners' output, the attack-surface graph, the job manager
  and the result cache, the chunking and prompt packing of the assistant,
  the file tree and catalogue of the library. Calls into outside code go
  through trusted wrappers whose contracts say what is assumed of them:
  `serde_json` (which texts parse as JSON, and the items of a report) in
  `src/cli_tools.rs`; `regex` in `src/pattern.rs`; the status reasons of
  `reqwest` in `src/open_redirect.rs`; `chrono` date formatting in
  `src/cve.rs`; `pulldown-cmark` rendering in `src/library.rs`; and a few
  std string operations (`chars`, `collect`, `to_lowercase`, `to_uppercase`,
  `len`, `as_bytes`, `char::from_u32`) in `src/text.rs`, `src/common.rs`,
  `src/cve.rs` and `src/wp_org.rs`.
- `app/` — the server program around it (axum routes, HTTP requests, files,
  processes, the full-text index, the dense-embedding index with its rank
  fusion and reranking (floating-point scores), the model server). It hands the library
  plain values and serves what the library returns; the JSON answers of the
  probed sites and APIs are read there into the library's own types, and
  the scanners' JSON findings, which the library returns as the text it
  found, are turned back into JSON values there.
- `tests/` — tests of the library on concrete values.
