use vstd::prelude::*;
use vstd::string::StringExecFns;

use crate::text::{decimal, push_decimal};

verus! {

/// A span of a line of source text: the line, the column at which the span
/// starts and its length in columns.
#[derive(Debug, Clone, Copy, PartialEq, Eq, Structural, PartialOrd, Ord, Hash)]
pub struct Location {
    line: usize,
    col: usize,
    len: usize,
}

impl Location {
    pub fn new(line: usize, col: usize, len: usize) -> (loc: Self)
        ensures
            loc.line() == line,
            loc.col() == col,
            loc.len() == len,
    {
        Self { line, col, len }
    }

    /// Whether both locations are on the same line.
    pub fn same_line(self, other: Self) -> (b: bool)
        ensures
            b == (self.line() == other.line()),
    {
        self.line == other.line
    }

    /// Whether both spans end within one column of each other.  They need not
    /// be on the same line.
    pub fn akin_col(self, other: Self) -> (b: bool)
        requires
            self.col() + self.len() <= usize::MAX,
            other.col() + other.len() <= usize::MAX,
        ensures
            b == self.akin(other),
    {
        let a = self.col + self.len;
        let b = other.col + other.len;
        if a >= b {
            a - b <= 1
        } else {
            b - a <= 1
        }
    }

    /// Merges the columns of `other`, a span on the same line, into this span.
    ///
    /// Where `other` starts further right, the span grows to end where `other`
    /// ends; where both start at the same column, the lengths add up; where
    /// `other` starts further left, the span moves to start where `other`
    /// starts and keeps its length.
    pub fn merge_cols(&mut self, other: Self)
        requires
            old(self).line() == other.line(),
            old(self).col() < other.col() ==> other.col() - old(self).col() + other.len() <= usize::MAX,
            old(self).col() == other.col() ==> old(self).len() + other.len() <= usize::MAX,
        ensures
            final(self).line() == old(self).line(),
            old(self).col() < other.col() ==> final(self).col() == old(self).col()
                && final(self).len() == other.col() - old(self).col() + other.len(),
            old(self).col() > other.col() ==> final(self).col() == other.col()
                && final(self).len() == old(self).len(),
            old(self).col() == other.col() ==> final(self).col() == old(self).col()
                && final(self).len() == old(self).len() + other.len(),
    {
        if self.col < other.col {
            self.len = other.col - self.col + other.len;
        } else if self.col > other.col {
            self.col = other.col;
            self.len = self.len + (self.col - other.col);
        } else {
            self.len = self.len + other.len;
        }
    }

    #[verifier::when_used_as_spec(spec_line)]
    pub fn line(self) -> (n: usize)
        ensures
            n == self.spec_line(),
    {
        self.line
    }

    #[verifier::when_used_as_spec(spec_col)]
    pub fn col(self) -> (n: usize)
        ensures
            n == self.spec_col(),
    {
        self.col
    }

    #[verifier::when_used_as_spec(spec_len)]
    pub fn len(self) -> (n: usize)
        ensures
            n == self.spec_len(),
    {
        self.len
    }

    /// The column just past the end of the span.
    pub open spec fn end_col(self) -> int {
        self.col() + self.len()
    }

    /// Both spans end within one column of each other.
    pub open spec fn akin(self, other: Self) -> bool {
        -1 <= self.end_col() - other.end_col() <= 1
    }

    pub closed spec fn spec_line(self) -> usize {
        self.line
    }

    pub closed spec fn spec_col(self) -> usize {
        self.col
    }

    pub closed spec fn spec_len(self) -> usize {
        self.len
    }

    /// The location written as `{line}:{col}`.
    pub fn to_display_string(&self) -> (s: String)
        ensures
            s@ == decimal(self.line() as nat) + seq![':'] + decimal(self.col() as nat),
    {
        let mut s = String::new();
        push_decimal(&mut s, self.line);
        s.append(":");
        proof {
            reveal_strlit(":");
        }
        push_decimal(&mut s, self.col);
        s
    }
}

/// Being akin is symmetric.
pub proof fn law_akin_symmetric(a: Location, b: Location)
    ensures
        a.akin(b) == b.akin(a),
{
}

/// Merging in a span that starts further right makes the span end where that
/// span ends, and merging in one that starts at the same column makes it end
/// past both lengths.
pub proof fn law_merge_end(a: Location, b: Location, merged: Location)
    requires
        a.line() == b.line(),
        merged.line() == a.line(),
        a.col() < b.col() ==> merged.col() == a.col() && merged.len() == b.col() - a.col() + b.len(),
        a.col() == b.col() ==> merged.col() == a.col() && merged.len() == a.len() + b.len(),
    ensures
        a.col() < b.col() ==> merged.end_col() == b.end_col(),
        a.col() == b.col() ==> merged.end_col() == a.end_col() + b.len(),
{
}

} // verus!
