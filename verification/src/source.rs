//! One statement's raw text: its decoded characters and its absolute
//! span within the whole source.
//!
//! The statement splitter (which performs the reading) hands each
//! statement over as a `RawStatement`; `iter` presents it as a
//! forward-only sequence of positioned atoms for the lexer, and `slice`
//! recovers the excerpt a diagnostic span points at, by absolute byte
//! offsets.

use vstd::prelude::*;

use crate::lexer::Atom;
use crate::position::{spec_advanced, spec_advanced_over, spec_utf8_len, Position, Span};

verus! {

/// A statement's text and the source range it came from.
pub struct RawStatement {
    pub content: Vec<char>,
    pub span: Span,
}

/// The characters of `s` whose absolute byte offsets fall within
/// `lo ..= hi`, when `s` starts at byte offset `off`.
pub open spec fn spec_slice_chars(s: Seq<char>, off: int, lo: int, hi: int) -> Seq<char>
    decreases s.len(),
{
    if s.len() == 0 {
        Seq::empty()
    } else {
        let rest = spec_slice_chars(s.drop_first(), off + spec_utf8_len(s[0]), lo, hi);
        if lo <= off <= hi {
            seq![s[0]] + rest
        } else {
            rest
        }
    }
}

impl RawStatement {
    /// The iterator of this statement's atoms.
    pub fn iter(&self) -> (it: RawStatementIterator<'_>)
        requires
            self.span.start.row + self.content@.len() <= usize::MAX,
            self.span.start.col + 4 * self.content@.len() <= usize::MAX,
            self.span.start.index + 4 * self.content@.len() <= usize::MAX,
        ensures
            it.wf(),
            it.rem() == self.content@,
            it.pos() == self.span.start,
    {
        RawStatementIterator { raw: self, cursor: 0, position: self.span.start }
    }

    /// The characters of this statement whose absolute byte offsets lie
    /// within `span`, for rendering the excerpt a diagnostic points at.
    pub fn slice(&self, span: &Span) -> (r: Vec<char>)
        requires
            self.span.start.index + 4 * self.content@.len() <= usize::MAX,
        ensures
            r@ == spec_slice_chars(
                self.content@,
                self.span.start.index as int,
                span.start.index as int,
                span.end.index as int,
            ),
    {
        proof {
            assert(self.content@.skip(0) =~= self.content@);
        }
        self.slice_from(0, self.span.start.index, span)
    }

    /// Collect the sliced characters from char index `i` on, where `i`
    /// stands at byte offset `off`.
    fn slice_from(&self, i: usize, off: usize, span: &Span) -> (r: Vec<char>)
        requires
            i <= self.content@.len(),
            off + 4 * (self.content@.len() - i) <= usize::MAX,
        ensures
            r@ == spec_slice_chars(
                self.content@.skip(i as int),
                off as int,
                span.start.index as int,
                span.end.index as int,
            ),
        decreases self.content@.len() - i,
    {
        if i == self.content.len() {
            proof {
                assert(self.content@.skip(i as int) =~= Seq::<char>::empty());
            }
            Vec::new()
        } else {
            let c = self.content[i];
            proof {
                assert(self.content@.skip(i as int)[0] == self.content@[i as int]);
                assert(self.content@.skip(i as int).drop_first() =~= self.content@.skip(
                    i as int + 1,
                ));
            }
            let w = crate::position::utf8_len(c);
            let mut rest = self.slice_from(i + 1, off + w, span);
            if span.start.index <= off && off <= span.end.index {
                rest.insert(0, c);
                proof {
                    assert(rest@ =~= seq![c] + rest@.drop_first());
                }
            }
            rest
        }
    }
}

/// An in-memory character source: text already decoded from the input,
/// addressed by character index.  The reading itself is the caller's
/// concern; this type hands out characters, positions and excerpts.
pub struct Source {
    pub content: Vec<char>,
}

impl Source {
    /// A source over decoded text.
    pub fn new(content: Vec<char>) -> (s: Source)
        ensures
            s.content@ == content@,
    {
        Source { content }
    }

    /// The iterator of this source's characters with their positions.
    pub fn iter(&self) -> (it: SourceIterator<'_>)
        requires
            self.content@.len() <= usize::MAX / 4,
        ensures
            it.wf(),
            it.rem() == self.content@,
            it.pos() == Position::spec_origin(),
    {
        SourceIterator::new(self)
    }

    /// The character at index `i`, if the source is that long.
    pub fn char_at(&self, i: usize) -> (r: Option<char>)
        ensures
            r == if i < self.content@.len() {
                Some(self.content@[i as int])
            } else {
                None::<char>
            },
    {
        if i < self.content.len() {
            Some(self.content[i])
        } else {
            None
        }
    }

    /// The characters whose byte offsets lie within `span`, counting
    /// offsets from the start of this source.
    pub fn slice(&self, span: Span) -> (r: Vec<char>)
        requires
            4 * self.content@.len() <= usize::MAX,
        ensures
            r@ == spec_slice_chars(
                self.content@,
                0,
                span.start.index as int,
                span.end.index as int,
            ),
    {
        let raw = RawStatement {
            content: self.content.clone(),
            span: Span { start: Position { row: 0, col: 0, index: 0 }, end: Position { row: 0, col: 0, index: 0 } },
        };
        raw.slice(&span)
    }
}

/// A forward-only iterator over a source's characters, carrying the
/// position of the next one.
pub struct SourceIterator<'s> {
    source: &'s Source,
    cursor: usize,
    position: Position,
}

impl<'s> SourceIterator<'s> {
    /// The characters not yet yielded.
    pub closed spec fn rem(&self) -> Seq<char> {
        self.source.content@.skip(self.cursor as int)
    }

    /// The position of the next character.
    pub closed spec fn pos(&self) -> Position {
        self.position
    }

    /// The cursor is in bounds and positions cannot overflow.
    pub closed spec fn wf(&self) -> bool {
        &&& self.cursor <= self.source.content@.len()
        &&& self.position.row + (self.source.content@.len() - self.cursor) <= usize::MAX
        &&& self.position.col + 4 * (self.source.content@.len() - self.cursor) <= usize::MAX
        &&& self.position.index + 4 * (self.source.content@.len() - self.cursor) <= usize::MAX
    }

    /// An iterator over `source` from the origin.
    pub fn new(source: &'s Source) -> (it: SourceIterator<'s>)
        requires
            source.content@.len() <= usize::MAX / 4,
        ensures
            it.wf(),
            it.rem() == source.content@,
            it.pos() == Position::spec_origin(),
    {
        SourceIterator { source, cursor: 0, position: Position { row: 0, col: 0, index: 0 } }
    }

    /// Yield the next character at its position.
    pub fn next(&mut self) -> (r: Option<Atom>)
        requires
            old(self).wf(),
        ensures
            final(self).wf(),
            old(self).rem().len() == 0 ==> r is None && *final(self) == *old(self),
            old(self).rem().len() > 0 ==> {
                &&& r == Some(Atom { value: old(self).rem()[0], position: old(self).pos() })
                &&& final(self).rem() == old(self).rem().drop_first()
                &&& final(self).pos() == spec_advanced(old(self).pos(), old(self).rem()[0])
            },
    {
        if self.cursor < self.source.content.len() {
            let c = self.source.content[self.cursor];
            let a = Atom { value: c, position: self.position };
            self.cursor = self.cursor + 1;
            self.position = self.position.advanced(c);
            proof {
                assert(self.rem() =~= old(self).rem().drop_first());
            }
            Some(a)
        } else {
            None
        }
    }
}

/// A forward-only iterator over a statement's atoms, carrying the
/// absolute position of the next character.
pub struct RawStatementIterator<'r> {
    raw: &'r RawStatement,
    cursor: usize,
    position: Position,
}

impl<'r> RawStatementIterator<'r> {
    /// The characters not yet yielded.
    pub closed spec fn rem(&self) -> Seq<char> {
        self.raw.content@.skip(self.cursor as int)
    }

    /// The position of the next character.
    pub closed spec fn pos(&self) -> Position {
        self.position
    }

    /// The cursor is in bounds and positions cannot overflow.
    pub closed spec fn wf(&self) -> bool {
        &&& self.cursor <= self.raw.content@.len()
        &&& self.position.row + (self.raw.content@.len() - self.cursor) <= usize::MAX
        &&& self.position.col + 4 * (self.raw.content@.len() - self.cursor) <= usize::MAX
        &&& self.position.index + 4 * (self.raw.content@.len() - self.cursor) <= usize::MAX
    }

    /// An iterator over `raw` from its starting position.
    pub fn new(raw: &'r RawStatement) -> (it: RawStatementIterator<'r>)
        requires
            raw.span.start.row + raw.content@.len() <= usize::MAX,
            raw.span.start.col + 4 * raw.content@.len() <= usize::MAX,
            raw.span.start.index + 4 * raw.content@.len() <= usize::MAX,
        ensures
            it.wf(),
            it.rem() == raw.content@,
            it.pos() == raw.span.start,
    {
        RawStatementIterator { raw, cursor: 0, position: raw.span.start }
    }

    /// Yield the next atom: the head character at its position.
    pub fn next(&mut self) -> (r: Option<Atom>)
        requires
            old(self).wf(),
        ensures
            final(self).wf(),
            old(self).rem().len() == 0 ==> r is None && *final(self) == *old(self),
            old(self).rem().len() > 0 ==> {
                &&& r == Some(Atom { value: old(self).rem()[0], position: old(self).pos() })
                &&& final(self).rem() == old(self).rem().drop_first()
                &&& final(self).pos() == spec_advanced(old(self).pos(), old(self).rem()[0])
            },
    {
        if self.cursor < self.raw.content.len() {
            let c = self.raw.content[self.cursor];
            let a = Atom { value: c, position: self.position };
            self.cursor = self.cursor + 1;
            self.position = self.position.advanced(c);
            proof {
                assert(self.rem() =~= old(self).rem().drop_first());
            }
            Some(a)
        } else {
            None
        }
    }
}

} // verus!
