use vstd::prelude::*;
use core::cmp::Ordering;

use vstd::std_specs::cmp::{PartialEqSpec, PartialEqSpecImpl, PartialOrdSpec, PartialOrdSpecImpl};
use vstd::string::StringExecFns;

use super::{type_rank, type_text, TokenType};

verus! {

/// Shows a token type, or, for identifiers, strings and numbers, the text of
/// the token that it was made with.
#[derive(Clone)]
pub struct Display<'a> {
    token_type: TokenType,
    displayable: &'a str,
}

impl<'a> Display<'a> {
    pub closed spec fn token_type(&self) -> TokenType {
        self.token_type
    }

    pub closed spec fn displayable(&self) -> &'a str {
        self.displayable
    }

    pub fn new(token_type: TokenType, displayable: &'a str) -> (d: Self)
        ensures
            d.token_type() == token_type,
            d.displayable() == displayable,
    {
        Self { token_type, displayable }
    }

    /// The text shown: that of the token for identifiers, strings and
    /// numbers, that of the token type otherwise.
    pub fn to_display_string(&self) -> (s: String)
        ensures
            s@ == (if self.token_type().is_rich() {
                self.displayable()@
            } else {
                type_text(self.token_type())
            }),
    {
        match self.token_type {
            TokenType::Ident | TokenType::String | TokenType::Num => String::from_str(self.displayable),
            _ => String::from_str(self.token_type.as_str()),
        }
    }
}

/// Two adapters are equal where their token types are, whatever they show.
impl<'a> PartialEq for Display<'a> {
    fn eq(&self, other: &Self) -> (b: bool) {
        self.token_type == other.token_type
    }
}

impl<'a> Eq for Display<'a> {
}

impl<'a> PartialEqSpecImpl for Display<'a> {
    open spec fn obeys_eq_spec() -> bool {
        true
    }

    open spec fn eq_spec(&self, other: &Self) -> bool {
        self.token_type() == other.token_type()
    }
}

/// Adapters are ordered by their token types, in the order in which
/// `TokenType` declares them, whatever they show.
impl<'a> PartialOrd for Display<'a> {
    fn partial_cmp(&self, other: &Self) -> (o: Option<Ordering>) {
        let a = self.token_type.rank();
        let b = other.token_type.rank();
        if a < b {
            Some(Ordering::Less)
        } else if a == b {
            Some(Ordering::Equal)
        } else {
            Some(Ordering::Greater)
        }
    }
}

impl<'a> PartialOrdSpecImpl for Display<'a> {
    open spec fn obeys_partial_cmp_spec() -> bool {
        true
    }

    open spec fn partial_cmp_spec(&self, other: &Self) -> Option<Ordering> {
        let a = type_rank(self.token_type());
        let b = type_rank(other.token_type());
        if a < b {
            Some(Ordering::Less)
        } else if a == b {
            Some(Ordering::Equal)
        } else {
            Some(Ordering::Greater)
        }
    }
}

/// Two adapters compare as equal exactly where they are equal: both go by the
/// token type alone.
pub proof fn law_order_agrees_with_eq<'a>(a: Display<'a>, b: Display<'a>)
    ensures
        (PartialOrdSpec::partial_cmp_spec(&a, &b) == Some(Ordering::Equal)) == PartialEqSpec::eq_spec(&a, &b),
{
}

} // verus!
