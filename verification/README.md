# odd

A content-addressed object store for anything you `remember`: files,
directories, and objects composed from them (`graft`, `ungraft`), kept in a
durable store outside the project.

The library under `src/` is verified with Verus:

- `model` — object ids (`id`), hashing (`digest`), name order (`order`),
  sorted directory entries (`entries`) and objects with their structural
  identity (`object`).
- `storage` — path joining, the data home, stores and workspaces (`root`),
  blob locations (`blobs`) and bindings.
- `resolve` — how a target string becomes an object id.
- `commands` — the decisions of each command: graft, ungraft, resurrect,
  remember, and the default namespace.
- `error` — refusals and their messages.

`app/` is the command-line program around it: argument parsing, the SQLite
metadata database, JSON encoding of stored content, and file system work.
