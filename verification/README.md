# baml_language_server

The verified core of the BAML language server and of the type checker for
BAML's expression language, written in Verus.

- `src/typecheck.rs`, `src/context.rs`, `src/expr.rs`, `src/validation.rs`:
  the expression types and expressions, the subtype relation, the typing
  context, and the type checker with its exact specification.
- `src/edit.rs`, `src/paths.rs`: position encodings and document keys, built
  on `std::path` and the `url` crate (through `lsp_types`).
- `src/diagnostics.rs`, `src/code_lens.rs`, `src/requests.rs`, `src/lsp.rs`:
  what the server publishes for diagnostics, code lenses, completions, hovers
  and saved or closed documents.
- `app/`: adapters to the protocol types of `lsp_types`, JSON arguments and
  serde copies of library types.
