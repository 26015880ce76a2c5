# rustimate

The logic of the language server for Rustimate, a DSL for code-based
storytelling, tutorials and presentations, verified with Verus.

- `src/text.rs`: substring search, trimming and line splitting over the
  characters of a string, with the meaning of `str::trim` and `str::lines`.
- `src/syntax.rs`: the boundary to `tree-sitter`: its types and one trusted
  wrapper per method that the library calls.
- `src/parser.rs`: the parser, the block that encloses a node and the mode
  that the enclosing scene declares.
- `src/completion.rs`: the completion items for a block and mode.
- `src/diagnostics.rs`: the error on each top-level scene without a mode.
- `src/requests.rs`: what the server answers to completion, hover and
  document-change requests.
- `src/line_scan.rs`: the same questions answered by scanning lines, without
  a syntax tree.
- `app/main.rs`: the LSP server (tower-lsp over stdio) that keeps the open
  documents and converts the library's results to protocol types.

The Rustimate grammar (`tree-sitter-rustimate`) is not in the crates
registry, so the parser takes the grammar as an argument; the tests use the
Rust grammar to build real syntax trees.
