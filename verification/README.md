# workspaceos

The core of WorkspaceOS, a local workspace runtime that indexes a code base and serves it
to AI tools over the Model Context Protocol, as a library verified with Verus.

- `src/` holds the verified library: workspace lifecycle and configuration, path
  containment and audit entries, ignore rules, symbol and import extraction, content
  hashing and dependency resolution, search filtering, context scoring, ranking and
  packing, the decisions of the MCP server, plugin listing, tunnel state and the handling
  of file-system events. Calls into tree-sitter, BLAKE3, the `ignore` crate and a few std
  functions go through small trusted wrappers whose contracts are stated in their doc
  comments.
- `app/` is the program around it: SQLite and tantivy storage, the file watcher, the
  event bus, file reading and writing, and the stdio server loop.
- `tests/` exercises the library on concrete values.
