# kei

A toolchain for Kei, a small contract-first language that compiles to
TypeScript, written in Verus and verified.

## Layout

- `src/` is the verified library:
  - `lexer`, `parser`, `syntax`: tokens, syntax tree, sorted syntax errors.
  - `checkenv`, `envbuild`, `imports`, `fnstate`, `infer`, `names`,
    `patterns`, `judge`, `fncheck`, `check`: the checker (names, types,
    effects, contracts), with structured diagnostics that each carry a fix.
  - `contracts`, `notation`, `report`: contract folding and contract text.
  - `eval`, `pbt`, `seeds`: the evaluator, generative property tests and
    seed files.
  - `fmt`: the canonical formatter; `emit`, `sourcemap`: TypeScript output
    and its source map.
  - `render`, `diag_json`, `json`: prose, line diffs and JSON output.
  - `hover`, `mcp`, `cli`, `project`, `paths`: the pieces behind the editor
    server, the tool server and the command line.
- `app/` holds what Verus does not see: `main`, file and process I/O, the
  language server and the tool server's stdio loop, the module resolver that
  reads files, and the wire types with their serde derives.
- `tests/` holds the tests, run against the compiled library.

Outside calls go through a few trusted items (`String::push`,
`char::is_alphabetic`/`is_alphanumeric`, `str::to_lowercase`/`to_uppercase`,
`serde_json::to_string`); each has its contract stated beside it.
