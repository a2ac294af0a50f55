# qingjian_shell

The platform-independent core of the Qingjian (青简) input-method shells and
their MCP server, written in Verus: every function in `src/` carries a
contract and is proved against it, except three small wrappers around std
(`String::push`, `str::from_utf8` and `Path::is_file`),
whose contracts are trusted.

- `mode`, `keys`, `session`: the macOS input controller's mode switch, key
  routing, editing commands and candidate navigation (pages, grid, highlight).
- `tsf`, `layout`, `window`, `rows`, `registration`, `shell_state`: the
  Windows text service's key handling, document updates, candidate window
  geometry and painting plan, registration data and COM bookkeeping.
- `protocol`, `mcp`, `data_files`, `text`: the MCP server's framing,
  request handling, tool arguments and data-file choice.
- `settings`, `dictionaries`: configuration notices, the `.env` rewrite and
  the list of extra dictionaries.

`app/` holds the MCP server program (stdio, JSON, the engine calls) and the
parts of the desktop shells that compute in floating point or paint with GDI.
`tests/` exercises the library on concrete values.
