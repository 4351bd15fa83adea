# ometa

`ometa` is a command-line client for the OpenMetadata catalog: search,
describe a table, walk its lineage, list its data-quality tests, patch its
metadata, or run a local MCP proxy.

- `src/` is the verified library (Verus). It holds what the tool decides and
  computes: request paths and query parameters, percent-encoding, the retry
  policy for HTTP answers (401, 404, 429, 5xx), configuration precedence
  (command line, then environment, then `~/.ometa/config.toml`), and the rows
  and lineage trees read out of catalog JSON.
- `app/` is the program around it: argument parsing, the HTTP exchanges,
  reading and writing the configuration file, and printing.
- `tests/` exercises the library on concrete values.
