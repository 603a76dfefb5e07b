# kleos

Verified core of the Kleos agent-memory services, written in Verus.

- `src/` is the library. Its logic is verified against the contracts in the
  source. Calls into outside crates (serde_json parsing and writing, ssh-key
  signing, hex coding) sit behind a few `#[verifier::external_body]` wrappers
  whose contracts are trusted, not proved; each says in its doc comment what
  it claims of the outside function. Modules: `watcher` (session-log scanning
  and turn batching), `gate` (memory curator prompt, reply cleaning, batch
  results, store requests), `json` (the JSON value the library reads, and the
  serde_json calls), `broca` (action narration, log requests and SQL
  statements), `axon_stream` (SSE channel selection and per-channel delivery
  cursors), `mcp_tools` (curated tool registry and route schemas),
  `ssh_sign` (OpenSSH signing and the sign request steps), `encryption`
  (at-rest key source), `config`, `judge` and `text` (character-level
  operations with their specifications).
- `app/` holds the I/O around it: file watching, SQLite, HTTP handlers, the
  LLM and vault seams.
- `tests/` exercises the library, including comparisons against the standard
  library's path and string functions.
