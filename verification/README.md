# tinyvm_qjs

The compiler core of a small JavaScript-subset-to-WebAssembly pipeline,
written in Verus. Every executable function states what it returns in its
contract, and Verus proves it.

## Layout

- `src/diag.rs` — compile diagnostics: the sentence, the byte offset, and the
  capability boundary it ran into.
- `src/lex.rs` and `src/lex/` — the lexer. Each step is a spec function of the
  source's characters; `lex::stream::tokenize` is proved to return exactly
  their composition, followed by automatic semicolon insertion for the
  restricted productions. `lex::laws` holds what every token stream satisfies.
- `src/ast.rs`, `src/ast/m1.rs` — the expression tree and the statement tree.
- `src/ir.rs`, `src/ir/m1.rs` — wasm-shaped modules, and `ir::m1::assemble`,
  which turns the wider one into standard `.wasm` bytes.
- `src/encode.rs` — the binary format: every writer appends exactly the bytes a
  spec function of its input names. `encode::encode` writes a whole module of
  the integer vocabulary.
- `src/leb.rs` — LEB128, with round-trip and minimality laws.
- `src/emit.rs`, `src/emit/m1.rs` — lowering of the integer subset to a module,
  and the tree-only helpers of statement lowering.
- `src/order.rs`, `src/text.rs`, `src/utf8.rs` — byte order, diagnostic text,
  and character/byte offsets.
- `app/lib.rs` — the one thing kept outside the verified library: reading the
  binary64 value of a numeric literal's text.

## Not included

The statement-tree lowering beyond the three helpers in `src/emit/m1.rs`, the
wasm builders for number/string conversion and JSON, and the array builders
are not part of this crate: they are written against value-representation and
runtime modules that are not available to it.
