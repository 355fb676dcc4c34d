//! A doubly linked list whose nodes live in an index arena, and the pieces of
//! a Lox tokenizer (source locations, token types, lexemes and literals).

pub mod list;
pub mod text;
pub mod tokenizer;
