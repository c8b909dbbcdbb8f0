# Vulgata

Vulgata is a small indentation-based language: a lexer, a parser, name
resolution, a type checker, a typed lowering, an interpreter with execution
modes (`release`, `checked`, `debug`, `tooling`), an extern registry, a Rust
code generator, semantic-layer metadata, an interactive session and a
command-line front end.

The library in `src/` is written in Verus, and every function in it is
verified against its `requires`/`ensures` contract:

- `lexer`, `parser`, `resolver`, `types`, `tir`: the front end, from text to a
  lowered module; each phase reports its failures as diagnostics of its own
  phase.
- `runtime`, `standard_runtime`, `externs`: the interpreter, its values and the
  `console`/`file` actions; a program reaches its environment only through a
  `RuntimeHost`.
- `codegen`: the Rust syntax tree of a module and its exact source text.
- `metadata`: the JSON-shaped semantic metadata of a module.
- `repl`, `cli`: the interactive session and the command-line decisions.

`app/` holds the `vulgata` program: it reads files, runs the library's phases,
prints their results, gives programs a host with file access, and writes
metadata as JSON with `serde_json`.
