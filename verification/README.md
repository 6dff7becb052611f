# fast_tools

Deterministic developer tools for agent workflows: a file viewer with line
numbers, outline mode, a minified-content guard, a preview cap and a batch byte
budget; boundary-clamped search context; transactional edits with rollback;
process and port polling; git working-tree snapshots; prose style checks; agent
lifecycle hooks that rewrite slow shell commands; and an MCP stdio dispatcher.

Layout:

- `src/` is the verified library. Each tool's decisions are functions from the
  values that I/O produced (file text, command output, observations, parsed
  JSON) to results, with contracts over spec functions:
  `text` (strings, lines, whitespace, decimals), `matcher` (compiled regexes),
  `grep`, `view`, `style`, `edit`, `git`, `poll`, `hooks`, `mcp`, and `laws`
  (properties proved across calls and inputs).
- `app/` is the `fast-tools` program: argument parsing, file and process
  access, sockets, the poll loop, JSON (de)serialisation and the MCP server loop.
- `tests/` runs the library on concrete inputs.
