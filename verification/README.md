# apm_memory

A memory store for coding agents: project and global rules kept in SQLite,
served over an MCP JSON-RPC server and injected into prompts by an IDE hook.
The logic is a Verus library whose functions carry `requires`/`ensures`
contracts proved by Verus; the program around it does the I/O.

## Layout

- `src/` — the verified library
  - `text.rs`: character-level primitives (words, search, replace, trim,
    UTF-8 lengths) over `Seq<char>`
  - `lexicon.rs`: filler words, synonyms and negation markers
  - `similarity.rs`: keyword sets and the "same rule" relation behind smart
    upserts (keyword overlap with a negation guard), with its laws
  - `tags.rs`: tag extraction and full-text query building
  - `project.rs`: path normal form, MD5-based project ids, IDE install
    directories, project detection
  - `store.rs`: records, read scopes, filters, upsert plans, target
    resolution, links, retention, session keys, with their laws
  - `sql.rs`: statements whose shape depends on how many values they bind
  - `hook_context.rs`: the context text injected before a prompt
  - `protocol.rs`: command-line modes, JSON-RPC routing, tool names,
    messages, installation patches
  - `decimal.rs`: decimal text of integers
- `tests/` — tests of the library
- `app/` — the executable: SQLite, files, processes, stdin/stdout, JSON
