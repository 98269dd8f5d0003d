# openab_core

The decisions of an agent broker, verified with Verus.

- `role_completion_block` finds the one claim with which an agent reports that its part of a
  workflow is done, and holds it against the dispatch that it answers.
- `terminal_delivery` keeps the record of what a user is owed at the end of a turn: created once,
  moved only along approved states, told step by step in an append-only log.
- `autonomous_ingress` decides which human turns are handed to the autonomous runtime, what is
  sent, and what the answer means.
- `acp::pool` keeps agent sessions within a limit, suspends the one that has been idle longest,
  resumes what can be resumed, and keeps projects and native dispatches apart.

`text`, `text_map`, `text_laws`, `decimal`, `json`, `digest`, `clock`, `paths` and `redact` are
what these share. The `laws` and `history` modules state what holds across operations.

Every contract is stated over the views of the data: text is `Seq<char>`, a map is a `Map`.
Functions marked `external_body` call another crate or the standard library; their contracts are
what the proofs rest on.

`app/` is the world around the library: SQLite, HTTP, processes and files.
