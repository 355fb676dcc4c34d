//! The pieces of a Lox tokenizer: source locations, token types, lexemes,
//! literals and the token builder.

pub mod location;
pub mod token_type;
pub mod lexeme;
pub mod literal;
pub mod builder;
