# fowl

The front end and code-generation planner of the fowl compiler, written in
Verus: every function of the library carries a contract, and Verus proves it.

## Layout

- `src/` — the verified library:
  - `span`, `source_span`, `diagnostic` — source positions and error reports;
  - `token`, `grammar`, `lexer`, `lexer_error` — the lexer, stated over a
    step function on the bytes of the source;
  - `syntax_tree`, `parser` — the concrete-syntax-tree parser, stated over
    the results the lexer hands out (`parse_outcome`); the tree itself is
    built by the `syntree` crate;
  - `parser_ast`, `analyzer_ast`, `analyzer`, `typecheck_ast`, `typecheck` —
    name resolution and type checking, with a proof that analyzed functions
    are well typed;
  - `bir_ast`, `bir` — lowering to the backend representation, naming
    closures and listing what they capture;
  - `codegen`, `plan`, `plan_laws` — code generation as a plan: the exact
    sequence of calls to the code generator for every function, with proofs
    that each call uses only what earlier calls created and that every
    compiled function is declared;
  - `manifest`, `utils`.
- `tests/` — tests of the library on concrete inputs.
- `app/` — the `fowl` command: argument parsing, reading the manifest, running
  a plan against Cranelift, writing the object file and linking it.
