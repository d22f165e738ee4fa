# parcel

Rewrites an ES module into a CommonJS-style function body, reading it with the
lexer of the `esparse` crate, and proves with Verus what the rewriting does.

- `src/lexer.rs`: the lexer seen as the stream of tokens it has still to hand
  out, and the calls into `esparse` (current token, advance, input, skipping
  an expression, string literal values, line and column of a span).
- `src/syntax.rs`: what reading an `export` or `import` declaration gives, as
  spec functions over the token stream.
- `src/es6.rs`: `parse_export` and `parse_import`, proved against those specs.
- `src/cjs.rs`: `module_to_cjs`: the whole module, the prefix that binds the
  imports and defines the exports, and the required modules; `rewrite_module`
  does the same from a source string, after testing what `module_to_cjs`
  requires.
- `src/laws.rs`: properties of the rewriting as a whole.
- `src/decl.rs`, `src/error.rs`, `src/text.rs`, `src/cursor.rs`: the
  declaration and error types, text helpers and token-by-token reading.
