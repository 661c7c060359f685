# caolc

The cao-lang front end: it lowers a parsed cao-lang script to the card tree of
a cao-lang program, and it prints the disassembly of compiled bytecode. The
library is verified with Verus; the command-line program around it is plain
Rust.

## Layout

- `src/syntax.rs`: the syntax tree the lowering reads, as plain values (kind,
  field name, whether the node is named, its text, its byte range, its
  children).
- `src/cards.rs`: cards, functions and modules, with their mathematical views.
- `src/frontend/`: the lowering. `model.rs` states, node kind by node kind,
  what the lowering yields, which error it reports, or that the tree is out of
  the grammar's shape; `expr.rs`, `stmt.rs` and `mod.rs` are proved to compute
  exactly that; `laws.rs` and `temporaries.rs` hold properties that span several node
  kinds, among them that no two table literals of one function share a
  temporary.
- `src/literals.rs`, `src/text.rs`: integer, float and escape literals, and
  decimal text.
- `src/instruction.rs`, `src/handles.rs`, `src/compiled_program.rs`,
  `src/disassembly.rs`: the compiled program and its disassembly.
- `app/`: argument handling, reading the script, the tree-sitter parser and the
  conversion of its tree into `syntax::SyntaxTree`, and writing disassembly
  with float operands formatted by `f64`'s `Debug`.
