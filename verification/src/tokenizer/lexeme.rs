use vstd::prelude::*;

use vstd::slice::slice_to_vec;
use vstd::string::StringSliceAdditionalSpecFns;

use vstd::utf8::{decode_utf8, valid_utf8};

use crate::text::{from_utf8_lossy, lossy_utf8};

verus! {

/// The raw bytes of a token as they stand in the source.  They need not be
/// valid UTF-8.
#[derive(Debug, Clone, PartialEq, Eq, PartialOrd, Ord, Hash)]
pub struct Lexeme {
    repr: Vec<u8>,
}

impl View for Lexeme {
    type V = Seq<u8>;

    closed spec fn view(&self) -> Seq<u8> {
        self.repr@
    }
}

impl Lexeme {
    /// The lexeme made of `value`.
    pub fn from_bytes(value: &[u8]) -> (lex: Self)
        ensures
            lex@ == value@,
    {
        Self { repr: slice_to_vec(value) }
    }

    /// The lexeme made of the UTF-8 encoding of `s`.
    pub fn from_text(s: &str) -> (lex: Self)
        ensures
            lex@ == s.spec_bytes(),
    {
        Self::from_bytes(s.as_bytes())
    }

    /// The lexeme as text, with each invalid UTF-8 sequence replaced by
    /// U+FFFD; valid UTF-8 reads unchanged.
    pub fn to_display_string(&self) -> (s: String)
        ensures
            s@ == lossy_utf8(self@),
            valid_utf8(self@) ==> s@ == decode_utf8(self@),
    {
        from_utf8_lossy(self.repr.as_slice())
    }
}

} // verus!
