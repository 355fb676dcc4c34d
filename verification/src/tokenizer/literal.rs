use vstd::prelude::*;
use vstd::slice::slice_to_vec;
use vstd::string::StringSliceAdditionalSpecFns;

use vstd::utf8::{decode_utf8, valid_utf8};

use crate::text::{from_utf8_lossy, lossy_utf8};

verus! {

/// The value of a literal token of Lox: a string or a number.
#[derive(Debug, Clone)]
pub struct Lit {
    repr: LitRepr,
}

/// A literal is a string or a number.
#[derive(Debug, Clone)]
pub enum LitRepr {
    Str(Str),
    Num(Num),
}

/// A number literal.
#[derive(Debug, Clone, Copy)]
pub struct Num {
    repr: NumRepr,
}

/// A number is a decimal, held here by the bits of its IEEE 754 binary64
/// encoding, or an integer.
#[derive(Debug, Clone, Copy)]
pub enum NumRepr {
    Decimal(u64),
    Integer(usize),
}

/// A string literal: raw bytes, which Lox does not require to be valid UTF-8.
#[derive(Debug, Clone, PartialEq, Eq, PartialOrd, Ord, Hash)]
pub struct Str {
    repr: Vec<u8>,
}

impl View for Str {
    type V = Seq<u8>;

    closed spec fn view(&self) -> Seq<u8> {
        self.repr@
    }
}

impl Str {
    /// The string made of `value`.
    pub fn from_bytes(value: &[u8]) -> (s: Self)
        ensures
            s@ == value@,
    {
        Self { repr: slice_to_vec(value) }
    }

    /// The string made of the UTF-8 encoding of `s`.
    pub fn from_text(s: &str) -> (r: Self)
        ensures
            r@ == s.spec_bytes(),
    {
        Self::from_bytes(s.as_bytes())
    }

    /// The string as text, with each invalid UTF-8 sequence replaced by
    /// U+FFFD; valid UTF-8 reads unchanged.
    pub fn to_display_string(&self) -> (s: String)
        ensures
            s@ == lossy_utf8(self@),
            valid_utf8(self@) ==> s@ == decode_utf8(self@),
    {
        from_utf8_lossy(self.repr.as_slice())
    }
}

impl Default for Str {
    /// The empty string.
    fn default() -> (s: Self)
        ensures
            s@ == Seq::<u8>::empty(),
    {
        Self { repr: Vec::new() }
    }
}

impl NumRepr {
    /// Whether this is the integer `n`.
    pub open spec fn is_integer(self, n: usize) -> bool {
        self matches NumRepr::Integer(m) && m == n
    }
}

impl Default for NumRepr {
    /// The integer zero.
    fn default() -> (r: Self)
        ensures
            r.is_integer(0),
    {
        NumRepr::Integer(0)
    }
}

impl Num {
    pub closed spec fn repr(self) -> NumRepr {
        self.repr
    }

    /// The number that `repr` stands for.
    pub fn new(repr: NumRepr) -> (n: Self)
        ensures
            n.repr() == repr,
    {
        Self { repr }
    }

    /// How the number is held.
    pub fn as_repr(&self) -> (r: NumRepr)
        ensures
            r == self.repr(),
    {
        self.repr
    }
}

impl Default for Num {
    /// The integer zero.
    fn default() -> (n: Self)
        ensures
            n.repr().is_integer(0),
    {
        Self { repr: NumRepr::default() }
    }
}

impl LitRepr {
    /// Whether this is the string literal of the bytes `bytes`.
    pub open spec fn is_str_of(&self, bytes: Seq<u8>) -> bool {
        self matches LitRepr::Str(s) && s@ == bytes
    }

    /// The string literal made of the UTF-8 encoding of `s`.
    pub fn from_text(s: &str) -> (r: Self)
        ensures
            r.is_str_of(s.spec_bytes()),
    {
        LitRepr::Str(Str::from_text(s))
    }
}

impl Default for LitRepr {
    /// The empty string.
    fn default() -> (r: Self)
        ensures
            r.is_str_of(Seq::<u8>::empty()),
    {
        LitRepr::Str(Str::default())
    }
}

impl Lit {
    pub closed spec fn repr(&self) -> &LitRepr {
        &self.repr
    }

    /// The string literal made of `value`.
    pub fn from_bytes(value: &[u8]) -> (lit: Self)
        ensures
            lit.repr().is_str_of(value@),
    {
        Self { repr: LitRepr::Str(Str::from_bytes(value)) }
    }

    /// The string literal made of the UTF-8 encoding of `s`.
    pub fn from_text(s: &str) -> (lit: Self)
        ensures
            lit.repr().is_str_of(s.spec_bytes()),
    {
        Self { repr: LitRepr::from_text(s) }
    }

    /// The number literal `num`.
    pub fn from_num(num: Num) -> (lit: Self)
        ensures
            lit.repr() == LitRepr::Num(num),
    {
        Self { repr: LitRepr::Num(num) }
    }

    /// How the literal is held.
    pub fn as_repr(&self) -> (r: &LitRepr)
        ensures
            r == self.repr(),
    {
        &self.repr
    }
}

impl Default for Lit {
    /// The empty string.
    fn default() -> (lit: Self)
        ensures
            lit.repr().is_str_of(Seq::<u8>::empty()),
    {
        Self { repr: LitRepr::default() }
    }
}

} // verus!
