# instruckt

The annotation store behind the instruckt UI-feedback tools: annotations that a
user leaves on elements of a web view, kept in a JSON file with their
screenshots, and read and closed by AI coding agents over MCP.

- `src/` is the verified library (Verus): the annotation model and its views,
  every store operation as an exact function on the list of annotations that
  the annotations file holds, data-URL screenshots, Unix path handling (the data directory and the
  paths under it are held as OS-string bytes, so any directory works), the
  choice and ordering of a project's source files, and the answers of the
  agent tools. `src/laws.rs` proves the properties that span operations
  (read after create or update, delete undoes create, closing leaves the
  pending list, a screenshot reads back as the payload it was created from,
  with its type). `src/clock.rs` reads the clock and writes RFC 3339 times.
  `src/bindings.rs` holds every call into `base64`, `chrono`, `ulid`,
  `rand_core`, `dirs` and the `std` calls that `vstd` does not specify, each
  with the contract it is trusted for.
- `app/` is the `instruckt-mcp` program: file locking and I/O, JSON
  (de)serialization through serde forms of the library's types, the MCP tools
  over stdio (`rmcp`), and the IPC command functions of the plugin.
- `tests/` runs the library on concrete values.
