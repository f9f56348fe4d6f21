//! Row/column/byte-offset source positions and spans.
//!
//! A `Position` names a single character in the source: its row and
//! column (for display) and its absolute byte index (for slicing).
//! Advancing over a character grows the byte index by the character's
//! UTF-8 width; a newline resets the column and bumps the row.

use vstd::prelude::*;

verus! {

/// A location in the source text.
#[derive(Clone, Copy, PartialEq, Eq, Structural, Debug)]
pub struct Position {
    pub row: usize,
    pub col: usize,
    pub index: usize,
}

/// A source range: the positions of the first and last character of a
/// lexical unit.  Real tokens always cover at least one character.
#[derive(Clone, Copy, PartialEq, Eq, Structural, Debug)]
pub struct Span {
    pub start: Position,
    pub end: Position,
}

/// Width in bytes of the UTF-8 encoding of `c`.
pub open spec fn spec_utf8_len(c: char) -> nat {
    if c as u32 <= 0x7F {
        1
    } else if c as u32 <= 0x7FF {
        2
    } else if c as u32 <= 0xFFFF {
        3
    } else {
        4
    }
}

/// Executable UTF-8 width of a character.
pub fn utf8_len(c: char) -> (n: usize)
    ensures
        n == spec_utf8_len(c),
        1 <= n <= 4,
{
    let u = c as u32;
    if u <= 0x7F {
        1
    } else if u <= 0x7FF {
        2
    } else if u <= 0xFFFF {
        3
    } else {
        4
    }
}

/// The position just after `c`, when `c` stands at position `p`.
pub open spec fn spec_advanced(p: Position, c: char) -> Position {
    if c == '\n' {
        Position { row: (p.row + 1) as usize, col: 0, index: (p.index + spec_utf8_len(c)) as usize }
    } else {
        Position {
            row: p.row,
            col: (p.col + spec_utf8_len(c)) as usize,
            index: (p.index + spec_utf8_len(c)) as usize,
        }
    }
}

/// The position reached by advancing from `p` over every character of `s`.
pub open spec fn spec_advanced_over(p: Position, s: Seq<char>) -> Position
    decreases s.len(),
{
    if s.len() == 0 {
        p
    } else {
        spec_advanced_over(spec_advanced(p, s[0]), s.drop_first())
    }
}

/// Advancing over `s.push(c)` is advancing over `s`, then over `c`.
pub proof fn lemma_advanced_over_push(p: Position, s: Seq<char>, c: char)
    ensures
        spec_advanced_over(p, s.push(c)) == spec_advanced(spec_advanced_over(p, s), c),
    decreases s.len(),
{
    if s.len() == 0 {
        assert(s.push(c)[0] == c);
        assert(s.push(c).drop_first() =~= Seq::<char>::empty());
        assert(spec_advanced_over(p, s.push(c)) == spec_advanced_over(
            spec_advanced(p, c),
            s.push(c).drop_first(),
        ));
        assert(spec_advanced_over(spec_advanced(p, c), s.push(c).drop_first()) == spec_advanced(
            p,
            c,
        ));
        assert(spec_advanced_over(p, s) == p);
    } else {
        assert(s.push(c)[0] == s[0]);
        assert(s.push(c).drop_first() =~= s.drop_first().push(c));
        assert(spec_advanced_over(p, s.push(c)) == spec_advanced_over(
            spec_advanced(p, s[0]),
            s.drop_first().push(c),
        ));
        lemma_advanced_over_push(spec_advanced(p, s[0]), s.drop_first(), c);
        assert(spec_advanced_over(p, s) == spec_advanced_over(
            spec_advanced(p, s[0]),
            s.drop_first(),
        ));
    }
}

/// Advancing over `s + t` is advancing over `s`, then over `t`.
pub proof fn lemma_advanced_over_concat(p: Position, s: Seq<char>, t: Seq<char>)
    ensures
        spec_advanced_over(p, s + t) == spec_advanced_over(spec_advanced_over(p, s), t),
    decreases s.len(),
{
    if s.len() == 0 {
        assert(s + t =~= t);
    } else {
        assert((s + t)[0] == s[0]);
        assert((s + t).drop_first() =~= s.drop_first() + t);
        lemma_advanced_over_concat(spec_advanced(p, s[0]), s.drop_first(), t);
    }
}

impl Position {
    /// The origin position: first row, first column, byte offset zero.
    pub open spec fn spec_origin() -> Position {
        Position { row: 0, col: 0, index: 0 }
    }

    /// Advance one character.
    pub fn advanced(self, c: char) -> (r: Position)
        requires
            self.row + 1 <= usize::MAX,
            self.col + 4 <= usize::MAX,
            self.index + 4 <= usize::MAX,
        ensures
            r == spec_advanced(self, c),
    {
        let n = utf8_len(c);
        if c == '\n' {
            Position { row: self.row + 1, col: 0, index: self.index + n }
        } else {
            Position { row: self.row, col: self.col + n, index: self.index + n }
        }
    }

    /// Advance by `n` single-byte columns on the same row, as fixed-width
    /// tokens do.
    pub fn advanced_by(self, n: usize) -> (r: Position)
        requires
            self.col + n <= usize::MAX,
            self.index + n <= usize::MAX,
        ensures
            r == (Position { row: self.row, col: (self.col + n) as usize, index: (self.index + n) as usize }),
    {
        Position { row: self.row, col: self.col + n, index: self.index + n }
    }
}

impl Default for Position {
    /// The origin position.
    fn default() -> (r: Self)
        ensures
            r == Position::spec_origin(),
    {
        Position { row: 0, col: 0, index: 0 }
    }
}

} // verus!
