# zelen

A MiniZinc front end whose logic is verified with Verus.

- `src/lexer.rs`, `src/grammar.rs`, `src/parser.rs`: the MiniZinc lexer and
  recursive descent parser. `grammar.rs` states the language as spec
  functions; every parsing function returns exactly what they describe.
- `src/ast.rs`, `src/ast_clone.rs`: the syntax tree, its views, and copies
  of it that keep the view.
- `src/error.rs`: errors, their line and column in the source, and their
  message text.
- `src/compiler.rs`: generates a Selen program from a model; `compile_spec`
  states the generated text and the errors.
- `src/tokenizer.rs`: the FlatZinc tokenizer.
- `src/output.rs`: FlatZinc solution and statistics output.
- `src/exporter.rs`: FlatZinc names as Rust identifiers.
- `src/debug_text.rs`, `src/text.rs`: text helpers; `text.rs` also holds
  the few trusted wrappers around `char` and `str` functions of std.
- `app/main.rs`: the command line program (file reading and printing).
- `tests/`: tests run against the compiled library.

What is not here: solving. The crate has no translation of a model into a
Selen model and no mapping or export of FlatZinc models to Selen, so it
does not solve models; the command line prints the Selen program that
`compiler.rs` generates instead, and `output.rs` formats results that a
solver would report. Floating-point numbers stay out of the verified code:
float literals keep their text, and a solving time arrives as the text
that `{:.3}` makes of its seconds.
