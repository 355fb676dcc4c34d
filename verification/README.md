# challenges

A verified doubly linked list and the verified pieces of a Lox tokenizer.

- `src/list.rs`: `DoublyLinkedList`, whose nodes sit in a dense arena of
  parallel vectors linked by slot indices. Ghost `order` and `rank` fields
  tie the arena to the list's order, and every operation is proved against a
  `Seq` view: insertion at either end or at an index, search, deletion with
  compaction of the arena, and shared, exclusive and consuming iterators.
  `clone_from` makes a deep copy and needs `T: Clone`: a copy that shares its
  elements with the source would need shared mutable nodes, which the arena
  does not have, so the two lists do not share elements afterwards.
- `src/tokenizer/`: source locations, token types and their display text,
  lexemes, literals, and the token builder.
- `src/text.rs`: decimal rendering of integers and lossy UTF-8 decoding.
- `app/`: the error types that derive `thiserror::Error` or carry `anyhow`
  context, and the number literals that need floating point.
