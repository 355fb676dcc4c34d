use vstd::prelude::*;

use crate::tokenizer::lexeme::Lexeme;
use crate::tokenizer::literal::Lit;
use crate::tokenizer::location::Location;
use crate::tokenizer::token_type::{compound_type, single_type, TokenType};

verus! {

/// Gathers what a token is made of before the token is made.
#[derive(Debug)]
pub struct TokenBuilder {
    repr: Option<TokenConfigurator>,
}

/// What is known of the next token: its type and location, and the parts
/// that are only worked out from its bytes.
#[derive(Debug)]
pub struct TokenConfigurator {
    token_type: TokenType,
    loc: Location,
    rest: Delayed,
}

/// The lexeme and the literal value of a token, where it has them.
#[derive(Debug)]
pub struct Delayed {
    lexeme: Option<Lexeme>,
    lit: Option<Lit>,
}

impl Delayed {
    pub closed spec fn lexeme(&self) -> Option<Lexeme> {
        self.lexeme
    }

    pub closed spec fn lit(&self) -> Option<Lit> {
        self.lit
    }

    /// The lexeme of `bytes`, with the string literal of `bytes`.
    pub fn with_lit_str(bytes: &[u8]) -> (d: Self)
        ensures
            d.lexeme() matches Some(lex) && lex@ == bytes@,
            d.lit() matches Some(lit) && lit.repr().is_str_of(bytes@),
    {
        Self { lexeme: Some(Lexeme::from_bytes(bytes)), lit: Some(Lit::from_bytes(bytes)) }
    }

    /// The lexeme of `bytes`, with no literal.
    pub fn new(bytes: &[u8]) -> (d: Self)
        ensures
            d.lexeme() matches Some(lex) && lex@ == bytes@,
            d.lit() is None,
    {
        Self { lexeme: Some(Lexeme::from_bytes(bytes)), lit: None }
    }
}

impl Default for Delayed {
    /// Neither lexeme nor literal.
    fn default() -> (d: Self)
        ensures
            d.lexeme() is None,
            d.lit() is None,
    {
        Self { lexeme: None, lit: None }
    }
}

/// The token types whose literal values are not worked out from their bytes
/// yet: numbers and the two booleans.
pub open spec fn literal_pending(t: TokenType) -> bool {
    t is Num || t is False || t is True
}

impl TokenConfigurator {
    pub closed spec fn token_type(&self) -> TokenType {
        self.token_type
    }

    pub closed spec fn loc(&self) -> Location {
        self.loc
    }

    pub closed spec fn rest(&self) -> Delayed {
        self.rest
    }

    /// Makes this the configuration of a one-byte token at `loc`; the lexeme
    /// and literal stay as they were.
    pub fn recycle_single(&mut self, byte: u8, loc: Location)
        requires
            single_type(byte) is Some,
        ensures
            Some(final(self).token_type()) == single_type(byte),
            final(self).loc() == loc,
            final(self).rest() == old(self).rest(),
    {
        self.token_type = TokenType::single(byte);
        self.loc = loc;
    }

    /// Makes this the configuration of a two-byte token at `loc`; the lexeme
    /// and literal stay as they were.
    pub fn recycle_compound(&mut self, bytes: &[u8], loc: Location)
        requires
            compound_type(bytes@) is Some,
        ensures
            Some(final(self).token_type()) == compound_type(bytes@),
            final(self).loc() == loc,
            final(self).rest() == old(self).rest(),
    {
        self.token_type = TokenType::compound(bytes);
        self.loc = loc;
    }

    /// The configuration of a token of type `token` made of `bytes` at `loc`:
    /// string tokens carry the string literal of their bytes, and every token
    /// carries its bytes as lexeme.
    pub fn multiple(bytes: &[u8], token: TokenType, loc: Location) -> (c: Self)
        requires
            !literal_pending(token),
        ensures
            c.token_type() == token,
            c.loc() == loc,
            c.rest().lexeme() matches Some(lex) && lex@ == bytes@,
            token is String ==> (c.rest().lit() matches Some(lit) && lit.repr().is_str_of(bytes@)),
            !(token is String) ==> c.rest().lit() is None,
    {
        Self {
            token_type: token,
            loc,
            rest: match token {
                TokenType::String => Delayed::with_lit_str(bytes),
                _ => Delayed::new(bytes),
            },
        }
    }

    /// The configuration of a two-byte token at `loc`.
    pub fn compound(bytes: &[u8], loc: Location) -> (c: Self)
        requires
            compound_type(bytes@) is Some,
        ensures
            Some(c.token_type()) == compound_type(bytes@),
            c.loc() == loc,
            c.rest().lexeme() is None,
            c.rest().lit() is None,
    {
        Self { token_type: TokenType::compound(bytes), loc, rest: Delayed::default() }
    }

    /// The configuration of a one-byte token at `loc`.
    pub fn single(byte: u8, loc: Location) -> (c: Self)
        requires
            single_type(byte) is Some,
        ensures
            Some(c.token_type()) == single_type(byte),
            c.loc() == loc,
            c.rest().lexeme() is None,
            c.rest().lit() is None,
    {
        Self { token_type: TokenType::single(byte), loc, rest: Delayed::default() }
    }
}

impl TokenBuilder {
    /// The configuration gathered so far, if any.
    pub closed spec fn config(&self) -> Option<TokenConfigurator> {
        self.repr
    }

    /// Configures a one-byte token at `loc`, reusing the configuration
    /// gathered so far where there is one.
    pub fn single(&mut self, bytes: &[u8], loc: Location) -> (r: &mut Self)
        requires
            bytes@.len() == 1,
            single_type(bytes@[0]) is Some,
        ensures
            r.config() matches Some(c) && Some(c.token_type()) == single_type(bytes@[0])
                && c.loc() == loc
                && (old(self).config() matches Some(o) ==> c.rest() == o.rest())
                && (old(self).config() is None ==> c.rest().lexeme() is None && c.rest().lit() is None),
            *final(self) == *final(r),
    {
        match &mut self.repr {
            Some(config) => config.recycle_single(bytes[0], loc),
            None => self.repr = Some(TokenConfigurator::single(bytes[0], loc)),
        }
        self
    }

    /// Configures a two-byte token at `loc`, reusing the configuration
    /// gathered so far where there is one.
    pub fn compound(&mut self, bytes: &[u8], loc: Location) -> (r: &mut Self)
        requires
            compound_type(bytes@) is Some,
        ensures
            r.config() matches Some(c) && Some(c.token_type()) == compound_type(bytes@)
                && c.loc() == loc
                && (old(self).config() matches Some(o) ==> c.rest() == o.rest())
                && (old(self).config() is None ==> c.rest().lexeme() is None && c.rest().lit() is None),
            *final(self) == *final(r),
    {
        match &mut self.repr {
            Some(config) => config.recycle_compound(bytes, loc),
            None => self.repr = Some(TokenConfigurator::compound(bytes, loc)),
        }
        self
    }

    /// Configures a token of type `hint` made of `bytes` at `loc`.  Only a
    /// builder with nothing gathered yet takes such a token.
    pub fn multiple(&mut self, bytes: &[u8], hint: TokenType, loc: Location) -> (r: &mut Self)
        requires
            old(self).config() is None,
            !literal_pending(hint),
        ensures
            r.config() matches Some(c) && c.token_type() == hint && c.loc() == loc
                && (c.rest().lexeme() matches Some(lex) && lex@ == bytes@)
                && (hint is String ==> (c.rest().lit() matches Some(lit) && lit.repr().is_str_of(bytes@)))
                && (!(hint is String) ==> c.rest().lit() is None),
            *final(self) == *final(r),
    {
        self.repr = Some(TokenConfigurator::multiple(bytes, hint, loc));
        self
    }
}

impl Default for TokenBuilder {
    /// A builder with nothing gathered.
    fn default() -> (b: Self)
        ensures
            b.config() is None,
    {
        Self { repr: None }
    }
}

} // verus!
