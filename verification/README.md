# memocap

memocap keeps explicit memories for coding agents in SQLite: in the current
repository, in reusable domains attached to it, or in universal memory. Reads
go through one visible stack (repository, attached domains in order, then
universal), where a topic in a higher tier shadows the same topic below it.
Copies and moves between placements are idempotent under an operation ID, and
the same store can be served over HTTP behind one bearer token.

## Layout

- `src/` is the library, verified with Verus. The program's rules live here
  with their contracts (the SQL statements that read and write rows are in
  `app/db.rs`): identifiers and placements, repository identity from
  Git remotes and paths, the visible stack and its shadowing, domain attachment
  order, copy/move fingerprints and the operation ledger, schema versions, the
  server's token gate and routing, request validation, the remote client's
  recovery of lost transfers and the order of the server's transfer steps,
  the menu's key handling and paging, and the texts of the commands' output
  and of the errors these rules decide.  Texts that only report a failed
  system call (the terminal, Git, decoding a reply) stay beside that call in
  `app/`.
- `src/deps.rs` holds the calls into `sha2`, `serde_json` and `url`, each with
  the contract the library relies on.
- `app/` is the program around the library: command-line arguments, the
  environment, SQLite, Git, HTTP server and client, the terminal, and the JSON
  forms of the library's values.
- `tests/` runs the library on concrete values.
