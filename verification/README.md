# flood_mcp

The decision core of the flood.md MCP server, written in Verus: every
function in `src/` carries a contract over a mathematical model and is
proved against it.

## Layout

- `src/` — the verified library, one module per concern:
  - text, paths, decimal, order, stable, unicode, chars, hashing: text
    compaction, path validation and scoping, decimal notation, string order,
    stable sorting, and the few trusted calls (std's character handling,
    `sha2`, `hex`, `chrono`);
  - vocab, resources, materials, context, receipt: task vocabulary, MCP
    resource URIs and pages, project materials, context snapshots and the
    receipts that gate mutations;
  - git, gitctx, diffs, todos, walk: local Git context (status, diffs,
    commits, TODO lines) and the local source reader (listing, search,
    file reads), as decisions taken entry by entry;
  - triage, search, digest, overview, updates, sources, agents, telegram,
    connectors, github: triage plans, task search and digests, project
    overviews and feeds, source access, the agent queue, Telegram views,
    the connector catalog and GitHub links;
  - batch, activity, selfcheck, catalog, json, readiness: task batches and
    their mutation plans, activity provenance, the self-check of the MCP
    surface, the tool catalog and its canonical JSON, workspace readiness.
- `tests/` — tests of the library on concrete values.
- `app/` — a command-line front that reads the disk, runs Git and prints
  JSON around the library (`--version`, `--manifest`, `--self-check`,
  `--local-git`, `--list-files`, `--read-file`, `--search`).

## Scope

Paths are modelled as Unix writes them: components separated by `/`,
absolute locations starting with `/`. Windows paths (drive letters,
backslash separators) are outside the model, so the library and its
front serve Unix hosts.
