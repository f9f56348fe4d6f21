//! The lexer: positioned atoms in, tokens out, by longest match.
//!
//! `spec_lex_step` is the mathematical model of one `next` call: it
//! skips whitespace and comments, then dispatches on the first
//! significant character exactly as section-by-section below, and says
//! which token or error comes out, what input remains, and where the
//! scan position lands.  `spec_tokens` iterates the model to the full
//! token sequence of an input.  The executable `Lexer` is proved equal
//! to the model on every call.
//!
//! Whitespace is the ASCII set: space, tab, line feed, carriage return.

use vstd::prelude::*;

use crate::position::{lemma_advanced_over_concat, lemma_advanced_over_push, spec_advanced, spec_advanced_over, Position, Span};
use crate::token::{
    spec_bool_literal_of, spec_keyword_of, Literal, SpLiteral, SpToken, SpTokenKind, Symbol, Token,
    TokenKind,
};
use crate::token::Keyword;

verus! {

/// Trusted: `String::push` appends the given character at the end of
/// the string, as its standard documentation says.
pub assume_specification[ std::string::String::push ](s: &mut String, c: char)
    ensures
        final(s)@ == old(s)@.push(c),
;

/// One source character together with its position.
#[derive(Clone, Copy, PartialEq, Eq, Structural, Debug)]
pub struct Atom {
    pub value: char,
    pub position: Position,
}

/// What can go wrong while tokenizing.  Each variant carries the
/// position a diagnostic should point at.
#[derive(Clone, Copy, PartialEq, Eq, Structural, Debug)]
pub enum LexError {
    /// A string literal ran into a newline or the end of input before
    /// its closing quote; the position is the opening quote's.
    UnterminatedStringLiteral(Position),
    /// A digit run was followed by `.` with no digits after it; the
    /// position is the dot's.
    UnterminatedFloat(Position),
    /// An integer literal does not fit in 32 signed bits; the position
    /// is the first digit's.
    NumberExceededSize(Position),
    /// A character no token can start with.
    IllegalCharacter(char, Position),
}

impl LexError {
    /// The phrase a diagnostic shows for this error.
    pub open spec fn spec_describe(self) -> Seq<char> {
        match self {
            LexError::UnterminatedStringLiteral(_) => "unterminated string literal"@,
            LexError::UnterminatedFloat(_) => "digits expected after the decimal point"@,
            LexError::NumberExceededSize(_) => "number exceeds the integer size limit"@,
            LexError::IllegalCharacter(_, _) => "illegal character"@,
        }
    }

    /// The position a diagnostic should point at.
    pub open spec fn spec_position(self) -> Position {
        match self {
            LexError::UnterminatedStringLiteral(p) => p,
            LexError::UnterminatedFloat(p) => p,
            LexError::NumberExceededSize(p) => p,
            LexError::IllegalCharacter(_, p) => p,
        }
    }

    /// Describe this error for a diagnostic.
    pub fn describe(&self) -> (r: String)
        ensures
            r@ == self.spec_describe(),
    {
        match self {
            LexError::UnterminatedStringLiteral(_) => String::from_str(
                "unterminated string literal",
            ),
            LexError::UnterminatedFloat(_) => String::from_str(
                "digits expected after the decimal point",
            ),
            LexError::NumberExceededSize(_) => String::from_str(
                "number exceeds the integer size limit",
            ),
            LexError::IllegalCharacter(_, _) => String::from_str("illegal character"),
        }
    }

    /// The position a diagnostic should point at.
    pub fn position(&self) -> (p: Position)
        ensures
            p == self.spec_position(),
    {
        match self {
            LexError::UnterminatedStringLiteral(p) => *p,
            LexError::UnterminatedFloat(p) => *p,
            LexError::NumberExceededSize(p) => *p,
            LexError::IllegalCharacter(_, p) => *p,
        }
    }
}

/// ASCII whitespace skipped between tokens.
pub open spec fn is_space_char(c: char) -> bool {
    c == ' ' || c == '\t' || c == '\n' || c == '\r'
}

/// An ASCII decimal digit.
pub open spec fn is_digit_char(c: char) -> bool {
    48 <= c as u32 <= 57
}

/// An ASCII letter.
pub open spec fn is_alpha_char(c: char) -> bool {
    (65 <= c as u32 && c as u32 <= 90) || (97 <= c as u32 && c as u32 <= 122)
}

/// A character that may start an identifier or keyword.
pub open spec fn is_word_start_char(c: char) -> bool {
    is_alpha_char(c) || c == '_'
}

/// A character that may continue an identifier or keyword.
pub open spec fn is_ident_char(c: char) -> bool {
    is_alpha_char(c) || is_digit_char(c) || c == '_'
}

/// Executable twin of `is_space_char`.
pub fn is_space(c: char) -> (r: bool)
    ensures
        r == is_space_char(c),
{
    c == ' ' || c == '\t' || c == '\n' || c == '\r'
}

/// Executable twin of `is_digit_char`.
pub fn is_digit(c: char) -> (r: bool)
    ensures
        r == is_digit_char(c),
{
    let u = c as u32;
    48 <= u && u <= 57
}

/// Executable twin of `is_word_start_char`.
pub fn is_word_start(c: char) -> (r: bool)
    ensures
        r == is_word_start_char(c),
{
    let u = c as u32;
    (65 <= u && u <= 90) || (97 <= u && u <= 122) || c == '_'
}




/// The digit predicate, as a single named function value.
pub open spec fn digit_pred() -> spec_fn(char) -> bool {
    |x: char| is_digit_char(x)
}

/// The identifier-continuation predicate, as a single named function value.
pub open spec fn ident_pred() -> spec_fn(char) -> bool {
    |x: char| is_ident_char(x)
}

/// The string-body predicate: characters allowed inside a literal
/// quoted by `q`.
pub open spec fn str_body_pred(q: char) -> spec_fn(char) -> bool {
    |x: char| x != q && x != '\n'
}

/// Length of the longest prefix of `s` whose characters all satisfy `p`.
pub open spec fn spec_scan(s: Seq<char>, p: spec_fn(char) -> bool) -> nat
    decreases s.len(),
{
    if s.len() == 0 || !p(s[0]) {
        0
    } else {
        1 + spec_scan(s.drop_first(), p)
    }
}

/// The scanned prefix is within bounds, all its characters satisfy `p`,
/// and the first character after it (if any) does not.
pub proof fn lemma_scan(s: Seq<char>, p: spec_fn(char) -> bool)
    ensures
        spec_scan(s, p) <= s.len(),
        forall|i: int| 0 <= i < spec_scan(s, p) ==> p(s[i]),
        spec_scan(s, p) < s.len() ==> !p(s[spec_scan(s, p) as int]),
    decreases s.len(),
{
    if s.len() == 0 || !p(s[0]) {
    } else {
        lemma_scan(s.drop_first(), p);
        assert forall|i: int| 0 <= i < spec_scan(s, p) implies p(s[i]) by {
            if i > 0 {
                assert(s.drop_first()[i - 1] == s[i]);
            }
        }
        if spec_scan(s, p) < s.len() {
            assert(s.drop_first()[spec_scan(s, p) - 1] == s[spec_scan(s, p) as int]);
        }
    }
}

/// The portion of input (and the position) left after skipping
/// whitespace and `#`-comments.
pub open spec fn spec_skip_trivia(s: Seq<char>, p: Position) -> (Seq<char>, Position)
    decreases s.len(), 1int,
{
    if s.len() == 0 {
        (s, p)
    } else if is_space_char(s[0]) {
        spec_skip_trivia(s.drop_first(), spec_advanced(p, s[0]))
    } else if s[0] == '#' {
        spec_skip_comment(s.drop_first(), spec_advanced(p, s[0]))
    } else {
        (s, p)
    }
}

/// Inside a comment: discard through the end of the line, then skip
/// further trivia.
pub open spec fn spec_skip_comment(s: Seq<char>, p: Position) -> (Seq<char>, Position)
    decreases s.len(), 0int,
{
    if s.len() == 0 {
        (s, p)
    } else if s[0] == '\n' {
        spec_skip_trivia(s.drop_first(), spec_advanced(p, s[0]))
    } else {
        spec_skip_comment(s.drop_first(), spec_advanced(p, s[0]))
    }
}

/// Trivia skipping leaves a suffix no longer than the input, and what
/// remains starts with a significant character.
pub proof fn lemma_skip_trivia(s: Seq<char>, p: Position)
    ensures
        spec_skip_trivia(s, p).0.len() <= s.len(),
        spec_skip_trivia(s, p).0.len() > 0 ==> !is_space_char(spec_skip_trivia(s, p).0[0])
            && spec_skip_trivia(s, p).0[0] != '#',
    decreases s.len(), 1int,
{
    if s.len() == 0 {
    } else if is_space_char(s[0]) {
        lemma_skip_trivia(s.drop_first(), spec_advanced(p, s[0]));
    } else if s[0] == '#' {
        lemma_skip_comment(s.drop_first(), spec_advanced(p, s[0]));
    }
}

/// Comment skipping leaves a suffix no longer than the input, and what
/// remains starts with a significant character.
pub proof fn lemma_skip_comment(s: Seq<char>, p: Position)
    ensures
        spec_skip_comment(s, p).0.len() <= s.len(),
        spec_skip_comment(s, p).0.len() > 0 ==> !is_space_char(spec_skip_comment(s, p).0[0])
            && spec_skip_comment(s, p).0[0] != '#',
    decreases s.len(), 0int,
{
    if s.len() == 0 {
    } else if s[0] == '\n' {
        lemma_skip_trivia(s.drop_first(), spec_advanced(p, s[0]));
    } else {
        lemma_skip_comment(s.drop_first(), spec_advanced(p, s[0]));
    }
}

/// Value of a digit character.
pub open spec fn spec_digit_val(c: char) -> nat {
    (c as u32 - 48) as nat
}

/// The number spelled by a digit run, most significant digit first.
pub open spec fn spec_digits_val(s: Seq<char>) -> nat
    decreases s.len(),
{
    if s.len() == 0 {
        0
    } else {
        10 * spec_digits_val(s.drop_last()) + spec_digit_val(s.last())
    }
}

/// Symbols spelled by a single character that never joins a compound.
pub open spec fn spec_single_symbol(c: char) -> Option<Symbol> {
    if c == '(' {
        Some(Symbol::OpenParanthesis)
    } else if c == ')' {
        Some(Symbol::CloseParanthesis)
    } else if c == '[' {
        Some(Symbol::OpenSquareBracket)
    } else if c == ']' {
        Some(Symbol::CloseSquareBracket)
    } else if c == '{' {
        Some(Symbol::OpenCurlyBracket)
    } else if c == '}' {
        Some(Symbol::CloseCurlyBracket)
    } else if c == ',' {
        Some(Symbol::Comma)
    } else if c == ';' {
        Some(Symbol::Semicolon)
    } else if c == '^' {
        Some(Symbol::Carret)
    } else if c == '~' {
        Some(Symbol::BitNot)
    } else {
        None
    }
}

/// Characters that may open a two-character operator: the expected
/// second character, the compound symbol, and the single-character
/// fallback.
pub open spec fn spec_compound_symbol(c: char) -> Option<(char, Symbol, Symbol)> {
    if c == '+' {
        Some(('=', Symbol::PlusEquals, Symbol::Plus))
    } else if c == '-' {
        Some(('=', Symbol::MinusEquals, Symbol::Minus))
    } else if c == '*' {
        Some(('=', Symbol::StarEquals, Symbol::Star))
    } else if c == '/' {
        Some(('=', Symbol::DivideEquals, Symbol::Divide))
    } else if c == '%' {
        Some(('=', Symbol::PercentEquals, Symbol::Percent))
    } else if c == '=' {
        Some(('=', Symbol::Equals, Symbol::Equal))
    } else if c == '!' {
        Some(('=', Symbol::NotEquals, Symbol::Not))
    } else if c == '<' {
        Some(('=', Symbol::LessThanOrEquals, Symbol::LessThan))
    } else if c == '>' {
        Some(('=', Symbol::GreaterThanOrEquals, Symbol::GreaterThan))
    } else if c == '&' {
        Some(('&', Symbol::And, Symbol::BitAnd))
    } else if c == '|' {
        Some(('|', Symbol::Or, Symbol::BitOr))
    } else {
        None
    }
}

/// Result of one step of the lexer model: the token or error produced
/// (`None` when the input is exhausted), the input left over, and the
/// position reached.
pub struct LexStep {
    pub out: Option<Result<SpToken, LexError>>,
    pub rest: Seq<char>,
    pub pos: Position,
}

/// A symbol token `w` characters wide starting at `p`.
pub open spec fn spec_symbol_token(sym: Symbol, p: Position, w: nat) -> SpToken {
    SpToken {
        kind: SpTokenKind::Symbol(sym),
        span: Span {
            start: p,
            end: Position {
                row: p.row,
                col: (p.col + w - 1) as usize,
                index: (p.index + w - 1) as usize,
            },
        },
    }
}

/// The model of one `Lexer::next` call on input `chars` at position
/// `pos`: skip trivia, then emit the token or error the first
/// significant character dictates.
pub open spec fn spec_lex_step(chars: Seq<char>, pos: Position) -> LexStep {
    let (r, p) = spec_skip_trivia(chars, pos);
    if r.len() == 0 {
        LexStep { out: None, rest: r, pos: p }
    } else {
        let c = r[0];
        if spec_compound_symbol(c) is Some {
            let (second, comp, single) = spec_compound_symbol(c)->Some_0;
            if r.len() >= 2 && r[1] == second {
                LexStep {
                    out: Some(Ok(spec_symbol_token(comp, p, 2))),
                    rest: r.skip(2),
                    pos: spec_advanced_over(p, r.take(2)),
                }
            } else {
                LexStep {
                    out: Some(Ok(spec_symbol_token(single, p, 1))),
                    rest: r.skip(1),
                    pos: spec_advanced_over(p, r.take(1)),
                }
            }
        } else if spec_single_symbol(c) is Some {
            LexStep {
                out: Some(Ok(spec_symbol_token(spec_single_symbol(c)->Some_0, p, 1))),
                rest: r.skip(1),
                pos: spec_advanced_over(p, r.take(1)),
            }
        } else if c == '"' || c == '\'' {
            let k = spec_scan(r.drop_first(), str_body_pred(c));
            if 1 + k < r.len() && r[1 + k as int] == c {
                LexStep {
                    out: Some(
                        Ok(
                            SpToken {
                                kind: SpTokenKind::Literal(SpLiteral::Str(r.subrange(1, 1 + k as int))),
                                span: Span { start: p, end: spec_advanced_over(p, r.take(1 + k as int)) },
                            },
                        ),
                    ),
                    rest: r.skip(2 + k as int),
                    pos: spec_advanced_over(p, r.take(2 + k as int)),
                }
            } else {
                LexStep {
                    out: Some(Err(LexError::UnterminatedStringLiteral(p))),
                    rest: r.skip(1 + k as int),
                    pos: spec_advanced_over(p, r.take(1 + k as int)),
                }
            }
        } else if is_digit_char(c) {
            let k1 = spec_scan(r, digit_pred());
            if k1 < r.len() && r[k1 as int] == '.' {
                let frac = spec_scan(r.skip(k1 as int + 1), digit_pred());
                if frac == 0 {
                    LexStep {
                        out: Some(Err(LexError::UnterminatedFloat(spec_advanced_over(p, r.take(k1 as int))))),
                        rest: r.skip(k1 as int + 1),
                        pos: spec_advanced_over(p, r.take(k1 as int + 1)),
                    }
                } else {
                    LexStep {
                        out: Some(
                            Ok(
                                SpToken {
                                    kind: SpTokenKind::Literal(SpLiteral::Float(r.take(k1 as int + 1 + frac as int))),
                                    span: Span {
                                        start: p,
                                        end: spec_advanced_over(p, r.take(k1 + frac as int)),
                                    },
                                },
                            ),
                        ),
                        rest: r.skip(k1 as int + 1 + frac as int),
                        pos: spec_advanced_over(p, r.take(k1 as int + 1 + frac as int)),
                    }
                }
            } else {
                if spec_digits_val(r.take(k1 as int)) > i32::MAX {
                    LexStep {
                        out: Some(Err(LexError::NumberExceededSize(p))),
                        rest: r.skip(k1 as int),
                        pos: spec_advanced_over(p, r.take(k1 as int)),
                    }
                } else {
                    LexStep {
                        out: Some(
                            Ok(
                                SpToken {
                                    kind: SpTokenKind::Literal(
                                        SpLiteral::Integer(spec_digits_val(r.take(k1 as int)) as int),
                                    ),
                                    span: Span {
                                        start: p,
                                        end: spec_advanced_over(p, r.take(k1 - 1)),
                                    },
                                },
                            ),
                        ),
                        rest: r.skip(k1 as int),
                        pos: spec_advanced_over(p, r.take(k1 as int)),
                    }
                }
            }
        } else if is_word_start_char(c) {
            let k = spec_scan(r, ident_pred());
            let w = r.take(k as int);
            let kind = match spec_keyword_of(w) {
                Some(kw) => SpTokenKind::Keyword(kw),
                None => match spec_bool_literal_of(w) {
                    Some(b) => SpTokenKind::Literal(SpLiteral::Boolean(b)),
                    None => SpTokenKind::Ident(w),
                },
            };
            LexStep {
                out: Some(
                    Ok(
                        SpToken {
                            kind: kind,
                            span: Span { start: p, end: spec_advanced_over(p, r.take(k - 1)) },
                        },
                    ),
                ),
                rest: r.skip(k as int),
                pos: spec_advanced_over(p, r.take(k as int)),
            }
        } else {
            LexStep {
                out: Some(Err(LexError::IllegalCharacter(c, p))),
                rest: r.skip(1),
                pos: spec_advanced_over(p, r.take(1)),
            }
        }
    }
}

/// A produced token or error always consumes at least one character,
/// and `None` means the input held nothing but trivia.
pub proof fn lemma_lex_step_progress(chars: Seq<char>, pos: Position)
    ensures
        spec_lex_step(chars, pos).out is Some ==> spec_lex_step(chars, pos).rest.len() < chars.len(),
        spec_lex_step(chars, pos).out is None ==> spec_lex_step(chars, pos).rest.len() == 0,
{
    lemma_skip_trivia(chars, pos);
    let (r, p) = spec_skip_trivia(chars, pos);
    if r.len() > 0 {
        let c = r[0];
        lemma_scan(r.drop_first(), str_body_pred(c));
        lemma_scan(r, digit_pred());
        lemma_scan(r, ident_pred());
        if is_digit_char(c) {
            let k1 = spec_scan(r, digit_pred());
            assert(k1 >= 1);
            if k1 < r.len() && r[k1 as int] == '.' {
                lemma_scan(r.skip(k1 as int + 1), digit_pred());
            }
        }
        if is_word_start_char(c) {
            assert(spec_scan(r, ident_pred()) >= 1);
        }
    }
}

/// The full token sequence of an input: the model iterated to
/// exhaustion.
pub open spec fn spec_tokens(chars: Seq<char>, pos: Position) -> Seq<Result<SpToken, LexError>>
    decreases chars.len(),
{
    let step = spec_lex_step(chars, pos);
    match step.out {
        None => Seq::empty(),
        Some(t) => seq![t] + if step.rest.len() < chars.len() {
            spec_tokens(step.rest, step.pos)
        } else {
            Seq::empty()
        },
    }
}

/// View of one lexer output.
pub open spec fn lex_out_view(r: Option<Result<Token, LexError>>) -> Option<
    Result<SpToken, LexError>,
> {
    match r {
        None => None,
        Some(Ok(t)) => Some(Ok(t@)),
        Some(Err(e)) => Some(Err(e)),
    }
}

/// The lexer: a cursor over the decoded characters of one statement,
/// with the position the cursor stands at.
pub struct Lexer {
    content: Vec<char>,
    cursor: usize,
    position: Position,
}

impl Lexer {
    /// The characters not yet consumed.
    pub closed spec fn rem(&self) -> Seq<char> {
        self.content@.skip(self.cursor as int)
    }

    /// The position of the next character.
    pub closed spec fn pos(&self) -> Position {
        self.position
    }

    /// The cursor is in bounds and positions cannot overflow while the
    /// rest of the input is consumed.
    pub closed spec fn wf(&self) -> bool {
        &&& self.cursor <= self.content@.len()
        &&& self.position.row + (self.content@.len() - self.cursor) <= usize::MAX
        &&& self.position.col + 4 * (self.content@.len() - self.cursor) <= usize::MAX
        &&& self.position.index + 4 * (self.content@.len() - self.cursor) <= usize::MAX
    }

    /// A lexer over `content`, whose first character stands at `start`.
    pub fn new(content: Vec<char>, start: Position) -> (l: Lexer)
        requires
            start.row + content@.len() <= usize::MAX,
            start.col + 4 * content@.len() <= usize::MAX,
            start.index + 4 * content@.len() <= usize::MAX,
        ensures
            l.wf(),
            l.rem() == content@,
            l.pos() == start,
    {
        let l = Lexer { content, cursor: 0, position: start };
        proof {
            assert(l.content@.skip(0) =~= l.content@);
        }
        l
    }

    /// The next character, if any, without consuming it.
    fn peek_char(&self) -> (r: Option<char>)
        requires
            self.wf(),
        ensures
            r == if self.rem().len() == 0 {
                None::<char>
            } else {
                Some(self.rem()[0])
            },
    {
        if self.cursor < self.content.len() {
            Some(self.content[self.cursor])
        } else {
            None
        }
    }

    /// Consume and return the next atom: the head character and the
    /// position it stands at.
    pub fn next_character(&mut self) -> (r: Option<Atom>)
        requires
            old(self).wf(),
        ensures
            final(self).wf(),
            old(self).rem().len() == 0 ==> r is None && *final(self) == *old(self),
            old(self).rem().len() > 0 ==> {
                &&& r == Some(Atom { value: old(self).rem()[0], position: old(self).pos() })
                &&& final(self).rem() == old(self).rem().drop_first()
                &&& final(self).pos() == spec_advanced(old(self).pos(), old(self).rem()[0])
            },
    {
        if self.cursor < self.content.len() {
            let c = self.content[self.cursor];
            let a = Atom { value: c, position: self.position };
            self.cursor = self.cursor + 1;
            self.position = self.position.advanced(c);
            proof {
                assert(self.rem() =~= old(self).rem().drop_first());
            }
            Some(a)
        } else {
            None
        }
    }

    /// Consume the next character exactly when it is `expected`.
    pub fn if_next(&mut self, expected: char) -> (r: bool)
        requires
            old(self).wf(),
        ensures
            final(self).wf(),
            r == (old(self).rem().len() > 0 && old(self).rem()[0] == expected),
            r ==> final(self).rem() == old(self).rem().drop_first() && final(self).pos() == spec_advanced(
                old(self).pos(),
                expected,
            ),
            !r ==> *final(self) == *old(self),
    {
        let peeked = self.peek_char();
        match peeked {
            Some(c) => {
                if c == expected {
                    let _ = self.next_character();
                    true
                } else {
                    false
                }
            },
            None => false,
        }
    }

    /// Consume the next character exactly when it is `expected`.
    pub fn expect(&mut self, expected: char) -> (r: bool)
        requires
            old(self).wf(),
        ensures
            final(self).wf(),
            r == (old(self).rem().len() > 0 && old(self).rem()[0] == expected),
            r ==> final(self).rem() == old(self).rem().drop_first() && final(self).pos()
                == spec_advanced(old(self).pos(), expected),
            !r ==> *final(self) == *old(self),
    {
        self.if_next(expected)
    }

    /// Identifiers and keywords continue with letters, digits and
    /// underscores.
    pub fn is_valid_ident(c: char) -> (r: bool)
        ensures
            r == is_ident_char(c),
    {
        let u = c as u32;
        (65 <= u && u <= 90) || (97 <= u && u <= 122) || (48 <= u && u <= 57) || c == '_'
    }

    /// Discard whitespace and comments.
    fn skip_trivia_exec(&mut self)
        requires
            old(self).wf(),
        ensures
            final(self).wf(),
            (final(self).rem(), final(self).pos()) == spec_skip_trivia(old(self).rem(), old(self).pos()),
        decreases self.rem().len(),
    {
        if self.cursor < self.content.len() {
            let c = self.content[self.cursor];
            if is_space(c) {
                let _ = self.next_character();
                self.skip_trivia_exec();
            } else if c == '#' {
                let _ = self.next_character();
                self.skip_comment_exec();
            }
        }
    }

    /// Discard the rest of a comment line, then any further trivia.
    fn skip_comment_exec(&mut self)
        requires
            old(self).wf(),
        ensures
            final(self).wf(),
            (final(self).rem(), final(self).pos()) == spec_skip_comment(old(self).rem(), old(self).pos()),
        decreases self.rem().len(),
    {
        if self.cursor < self.content.len() {
            let c = self.content[self.cursor];
            let _ = self.next_character();
            if c == '\n' {
                self.skip_trivia_exec();
            } else {
                self.skip_comment_exec();
            }
        }
    }

    /// Consume a maximal digit run; return the digits and the position
    /// of the last one.
    pub fn collect_rest_of_number(&mut self) -> (r: (Vec<char>, Option<Position>))
        requires
            old(self).wf(),
        ensures
            final(self).wf(),
            ({
                let k = spec_scan(old(self).rem(), digit_pred());
                &&& r.0@ == old(self).rem().take(k as int)
                &&& final(self).rem() == old(self).rem().skip(k as int)
                &&& final(self).pos() == spec_advanced_over(old(self).pos(), old(self).rem().take(k as int))
                &&& r.1 == if k == 0 {
                    None::<Position>
                } else {
                    Some(spec_advanced_over(old(self).pos(), old(self).rem().take(k - 1)))
                }
            }),
    {
        let ghost orig = *self;
        let mut digits: Vec<char> = Vec::new();
        let mut last: Option<Position> = None;
        proof {
            assert(orig.rem().take(0) =~= Seq::<char>::empty());
            assert(orig.rem().skip(0) =~= orig.rem());
        }
        loop
            invariant
                self.wf(),
                digits@.len() <= orig.rem().len(),
                digits@ == orig.rem().take(digits@.len() as int),
                self.rem() == orig.rem().skip(digits@.len() as int),
                self.pos() == spec_advanced_over(orig.pos(), orig.rem().take(digits@.len() as int)),
                spec_scan(orig.rem(), digit_pred()) == digits@.len() + spec_scan(
                    self.rem(),
                    digit_pred(),
                ),
                last == if digits@.len() == 0 {
                    None::<Position>
                } else {
                    Some(spec_advanced_over(orig.pos(), orig.rem().take(digits@.len() - 1)))
                },
            ensures
                spec_scan(self.rem(), digit_pred()) == 0,
            decreases self.rem().len(),
        {
            let ghost k = digits@.len() as int;
            let peeked = self.peek_char();
            match peeked {
                Some(c) if is_digit(c) => {
                    proof {
                        assert(spec_scan(self.rem(), digit_pred()) == 1 + spec_scan(
                            self.rem().drop_first(),
                            digit_pred(),
                        ));
                    }
                    let a = match self.next_character() {
                        Some(a) => a,
                        None => unreached(),
                    };
                    digits.push(c);
                    last = Some(a.position);
                    proof {
                        assert(orig.rem().take(k + 1) =~= orig.rem().take(k).push(c));
                        assert(orig.rem().skip(k).drop_first() =~= orig.rem().skip(k + 1));
                        lemma_advanced_over_push(orig.pos(), orig.rem().take(k), c);
                    }
                },
                _ => {
                    proof {
                        assert(spec_scan(self.rem(), digit_pred()) == 0);
                    }
                    break ;
                },
            }
        }
        (digits, last)
    }

    /// Consume a maximal identifier run; return it as characters and as
    /// text, with the position of its last character.
    pub fn collect_ident(&mut self) -> (r: (Vec<char>, String, Option<Position>))
        requires
            old(self).wf(),
        ensures
            final(self).wf(),
            ({
                let k = spec_scan(old(self).rem(), ident_pred());
                &&& r.0@ == old(self).rem().take(k as int)
                &&& r.1@ == old(self).rem().take(k as int)
                &&& final(self).rem() == old(self).rem().skip(k as int)
                &&& final(self).pos() == spec_advanced_over(old(self).pos(), old(self).rem().take(k as int))
                &&& r.2 == if k == 0 {
                    None::<Position>
                } else {
                    Some(spec_advanced_over(old(self).pos(), old(self).rem().take(k - 1)))
                }
            }),
    {
        let ghost orig = *self;
        let mut word: Vec<char> = Vec::new();
        let mut text = String::new();
        let mut last: Option<Position> = None;
        proof {
            assert(orig.rem().take(0) =~= Seq::<char>::empty());
            assert(orig.rem().skip(0) =~= orig.rem());
        }
        loop
            invariant
                self.wf(),
                word@.len() <= orig.rem().len(),
                word@ == orig.rem().take(word@.len() as int),
                text@ == word@,
                self.rem() == orig.rem().skip(word@.len() as int),
                self.pos() == spec_advanced_over(orig.pos(), orig.rem().take(word@.len() as int)),
                spec_scan(orig.rem(), ident_pred()) == word@.len() + spec_scan(
                    self.rem(),
                    ident_pred(),
                ),
                last == if word@.len() == 0 {
                    None::<Position>
                } else {
                    Some(spec_advanced_over(orig.pos(), orig.rem().take(word@.len() - 1)))
                },
            ensures
                spec_scan(self.rem(), ident_pred()) == 0,
            decreases self.rem().len(),
        {
            let ghost k = word@.len() as int;
            let peeked = self.peek_char();
            match peeked {
                Some(c) if Lexer::is_valid_ident(c) => {
                    proof {
                        assert(spec_scan(self.rem(), ident_pred()) == 1 + spec_scan(
                            self.rem().drop_first(),
                            ident_pred(),
                        ));
                    }
                    let a = match self.next_character() {
                        Some(a) => a,
                        None => unreached(),
                    };
                    word.push(c);
                    text.push(c);
                    last = Some(a.position);
                    proof {
                        assert(orig.rem().take(k + 1) =~= orig.rem().take(k).push(c));
                        assert(orig.rem().skip(k).drop_first() =~= orig.rem().skip(k + 1));
                        lemma_advanced_over_push(orig.pos(), orig.rem().take(k), c);
                    }
                },
                _ => {
                    proof {
                        assert(spec_scan(self.rem(), ident_pred()) == 0);
                    }
                    break ;
                },
            }
        }
        (word, text, last)
    }

    /// Consume a quoted string literal whose opening quote is the next
    /// character: the token on success, the unterminated-string error
    /// when a newline or the end of input comes first.
    pub fn collect_string_literal(&mut self) -> (r: Result<Token, LexError>)
        requires
            old(self).wf(),
            old(self).rem().len() > 0,
            old(self).rem()[0] == '"' || old(self).rem()[0] == '\'',
        ensures
            final(self).wf(),
            ({
                let rr = old(self).rem();
                let p = old(self).pos();
                let q = rr[0];
                let k = spec_scan(rr.drop_first(), str_body_pred(q));
                if 1 + k < rr.len() && rr[1 + k as int] == q {
                    &&& r matches Ok(t) && t@ == (SpToken {
                        kind: SpTokenKind::Literal(SpLiteral::Str(rr.subrange(1, 1 + k as int))),
                        span: Span { start: p, end: spec_advanced_over(p, rr.take(1 + k as int)) },
                    })
                    &&& final(self).rem() == rr.skip(2 + k as int)
                    &&& final(self).pos() == spec_advanced_over(p, rr.take(2 + k as int))
                } else {
                    &&& r == Err::<Token, LexError>(LexError::UnterminatedStringLiteral(p))
                    &&& final(self).rem() == rr.skip(1 + k as int)
                    &&& final(self).pos() == spec_advanced_over(p, rr.take(1 + k as int))
                }
            }),
    {
        let ghost orig = *self;
        let ghost rr = orig.rem();
        let start = self.position;
        let q = match self.next_character() {
            Some(a) => a.value,
            None => unreached(),
        };
        let mut body = String::new();
        proof {
            assert(rr.take(1) =~= Seq::<char>::empty().push(q));
            assert(Seq::<char>::empty() =~= rr.drop_first().take(0));
            assert(rr.skip(1) =~= rr.drop_first());
            lemma_advanced_over_push(orig.pos(), Seq::<char>::empty(), q);
        }
        loop
            invariant
                self.wf(),
                q == rr[0],
                (q == '"' || q == '\''),
                rr.len() >= 1,
                body@.len() <= rr.len() - 1,
                body@ == rr.drop_first().take(body@.len() as int),
                self.rem() == rr.skip(1 + body@.len() as int),
                self.pos() == spec_advanced_over(orig.pos(), rr.take(1 + body@.len() as int)),
                spec_scan(rr.drop_first(), str_body_pred(q)) == body@.len() + spec_scan(
                    self.rem(),
                    str_body_pred(q),
                ),
            ensures
                spec_scan(self.rem(), str_body_pred(q)) == 0,
                body@ == rr.drop_first().take(body@.len() as int),
                body@.len() == spec_scan(rr.drop_first(), str_body_pred(q)),
                self.rem() == rr.skip(1 + body@.len() as int),
                self.pos() == spec_advanced_over(orig.pos(), rr.take(1 + body@.len() as int)),
                self.wf(),
            decreases self.rem().len(),
        {
            let ghost k = body@.len() as int;
            let peeked = self.peek_char();
            match peeked {
                Some(c) if c != q && c != '\n' => {
                    proof {
                        assert(spec_scan(self.rem(), str_body_pred(q)) == 1 + spec_scan(
                            self.rem().drop_first(),
                            str_body_pred(q),
                        ));
                    }
                    let _ = self.next_character();
                    body.push(c);
                    proof {
                        assert(rr.drop_first().take(k + 1) =~= rr.drop_first().take(k).push(c));
                        assert(rr.skip(1 + k).drop_first() =~= rr.skip(1 + k + 1));
                        assert(rr.take(1 + k + 1) =~= rr.take(1 + k).push(c));
                        lemma_advanced_over_push(orig.pos(), rr.take(1 + k), c);
                    }
                },
                _ => {
                    proof {
                        assert(spec_scan(self.rem(), str_body_pred(q)) == 0);
                    }
                    break ;
                },
            }
        }
        let ghost k = body@.len() as int;
        proof {
            if self.rem().len() > 0 {
                assert(self.rem()[0] == rr[1 + k]);
            }
        }
        let peeked = self.peek_char();
        match peeked {
            Some(c) => {
                if c != q {
                    proof {
                        assert(!(1 + k < rr.len() && rr[1 + k] == q));
                    }
                    return Err(LexError::UnterminatedStringLiteral(start));
                }
                let a = match self.next_character() {
                    Some(a) => a,
                    None => unreached(),
                };
                proof {
                    assert(rr.subrange(1, 1 + k) =~= rr.drop_first().take(k));
                    assert(rr.skip(1 + k).drop_first() =~= rr.skip(2 + k));
                    assert(rr.take(2 + k) =~= rr.take(1 + k).push(c));
                    lemma_advanced_over_push(orig.pos(), rr.take(1 + k), c);
                }
                Ok(Token::new(TokenKind::Literal(Literal::String(body)), Span { start, end: a.position }))
            },
            None => {
                proof {
                    assert(!(1 + k < rr.len() && rr[1 + k] == q));
                }
                Err(LexError::UnterminatedStringLiteral(start))
            },
        }
    }
}

/// Turn a digit run into a 32-bit signed integer, or report that it
/// does not fit.
pub fn digits_to_i32(digits: &Vec<char>) -> (r: Option<i32>)
    requires
        forall|i: int| 0 <= i < digits@.len() ==> is_digit_char(digits@[i]),
    ensures
        match r {
            Some(v) => v >= 0 && v as nat == spec_digits_val(digits@),
            None => spec_digits_val(digits@) > i32::MAX,
        },
{
    let mut val: u32 = 0;
    let mut over: bool = false;
    let mut i: usize = 0;
    proof {
        assert(digits@.take(0) =~= Seq::<char>::empty());
    }
    while i < digits.len()
        invariant
            i <= digits@.len(),
            forall|j: int| 0 <= j < digits@.len() ==> is_digit_char(digits@[j]),
            !over ==> val as nat == spec_digits_val(digits@.take(i as int)) && val
                <= 2147483647,
            over ==> spec_digits_val(digits@.take(i as int)) > i32::MAX,
        decreases digits@.len() - i,
    {
        let c = digits[i];
        let d: u32 = (c as u32) - 48;
        proof {
            assert(digits@.take(i + 1).drop_last() =~= digits@.take(i as int));
            assert(digits@.take(i + 1).last() == digits@[i as int]);
            assert(spec_digits_val(digits@.take(i + 1)) == 10 * spec_digits_val(
                digits@.take(i as int),
            ) + spec_digit_val(c));
        }
        if over || val > 214748364 || (val == 214748364 && d > 7) {
            proof {
                if !over {
                    assert(10 * (val as nat) + (d as nat) > i32::MAX);
                }
            }
            over = true;
        } else {
            val = val * 10 + d;
        }
        i += 1;
    }
    proof {
        assert(digits@.take(digits@.len() as int) =~= digits@);
    }
    if over {
        None
    } else {
        Some(val as i32)
    }
}

/// Append every character of `v` to `s`.
fn append_chars(s: &mut String, v: &Vec<char>)
    ensures
        final(s)@ == old(s)@ + v@,
{
    let mut i: usize = 0;
    proof {
        assert(old(s)@ + v@.take(0) =~= old(s)@);
    }
    while i < v.len()
        invariant
            i <= v@.len(),
            s@ == old(s)@ + v@.take(i as int),
        decreases v@.len() - i,
    {
        s.push(v[i]);
        proof {
            assert(v@.take(i + 1) =~= v@.take(i as int).push(v@[i as int]));
            assert((old(s)@ + v@.take(i as int)).push(v@[i as int]) =~= old(s)@ + v@.take(i + 1));
        }
        i += 1;
    }
    proof {
        assert(v@.take(v@.len() as int) =~= v@);
    }
}

impl Lexer {
    /// Consume a numeric literal whose first digit is the next
    /// character: an integer or float token, or the matching error.
    pub fn collect_numeric_literal(&mut self) -> (r: Result<Token, LexError>)
        requires
            old(self).wf(),
            old(self).rem().len() > 0,
            is_digit_char(old(self).rem()[0]),
        ensures
            final(self).wf(),
            ({
                let rr = old(self).rem();
                let p = old(self).pos();
                let k1 = spec_scan(rr, digit_pred());
                if k1 < rr.len() && rr[k1 as int] == '.' {
                    let frac = spec_scan(rr.skip(k1 as int + 1), digit_pred());
                    if frac == 0 {
                        &&& r == Err::<Token, LexError>(
                            LexError::UnterminatedFloat(spec_advanced_over(p, rr.take(k1 as int))),
                        )
                        &&& final(self).rem() == rr.skip(k1 as int + 1)
                        &&& final(self).pos() == spec_advanced_over(p, rr.take(k1 as int + 1))
                    } else {
                        &&& r matches Ok(t) && t@ == (SpToken {
                            kind: SpTokenKind::Literal(
                                SpLiteral::Float(rr.take(k1 as int + 1 + frac as int)),
                            ),
                            span: Span {
                                start: p,
                                end: spec_advanced_over(p, rr.take(k1 + frac as int)),
                            },
                        })
                        &&& final(self).rem() == rr.skip(k1 as int + 1 + frac as int)
                        &&& final(self).pos() == spec_advanced_over(
                            p,
                            rr.take(k1 as int + 1 + frac as int),
                        )
                    }
                } else {
                    if spec_digits_val(rr.take(k1 as int)) > i32::MAX {
                        &&& r == Err::<Token, LexError>(LexError::NumberExceededSize(p))
                        &&& final(self).rem() == rr.skip(k1 as int)
                        &&& final(self).pos() == spec_advanced_over(p, rr.take(k1 as int))
                    } else {
                        &&& r matches Ok(t) && t@ == (SpToken {
                            kind: SpTokenKind::Literal(
                                SpLiteral::Integer(spec_digits_val(rr.take(k1 as int)) as int),
                            ),
                            span: Span { start: p, end: spec_advanced_over(p, rr.take(k1 - 1)) },
                        })
                        &&& final(self).rem() == rr.skip(k1 as int)
                        &&& final(self).pos() == spec_advanced_over(p, rr.take(k1 as int))
                    }
                }
            }),
    {
        let ghost orig = *self;
        let ghost rr = orig.rem();
        let start = self.position;
        let (digits, last_digit) = self.collect_rest_of_number();
        let ghost k1 = spec_scan(rr, digit_pred());
        proof {
            assert(digit_pred()(rr[0]));
            assert(k1 >= 1);
            lemma_scan(rr, digit_pred());
            assert(forall|i: int| 0 <= i < digits@.len() ==> is_digit_char(#[trigger] digits@[i]));
            if self.rem().len() > 0 {
                assert(self.rem()[0] == rr[k1 as int]);
            }
        }
        let end_int = match last_digit {
            Some(pp) => pp,
            None => unreached(),
        };
        let peeked = self.peek_char();
        let has_dot = match peeked {
            Some(c) => c == '.',
            None => false,
        };
        if has_dot {
            let dot_atom = match self.next_character() {
                Some(a) => a,
                None => unreached(),
            };
            proof {
                assert(rr.skip(k1 as int).drop_first() =~= rr.skip(k1 as int + 1));
                assert(rr.take(k1 as int + 1) =~= rr.take(k1 as int).push(rr[k1 as int]));
                lemma_advanced_over_push(orig.pos(), rr.take(k1 as int), rr[k1 as int]);
            }
            let (frac_digits, last_frac) = self.collect_rest_of_number();
            let ghost frac = spec_scan(rr.skip(k1 as int + 1), digit_pred());
            proof {
                lemma_scan(rr.skip(k1 as int + 1), digit_pred());
                assert(rr.skip(k1 as int + 1).skip(frac as int) =~= rr.skip(
                    k1 as int + 1 + frac as int,
                ));
                assert(rr.take(k1 as int + 1) + rr.skip(k1 as int + 1).take(frac as int) =~= rr.take(
                    k1 as int + 1 + frac as int,
                ));
                lemma_advanced_over_concat(
                    orig.pos(),
                    rr.take(k1 as int + 1),
                    rr.skip(k1 as int + 1).take(frac as int),
                );
            }
            if frac_digits.len() == 0 {
                return Err(LexError::UnterminatedFloat(dot_atom.position));
            }
            let end_frac = match last_frac {
                Some(pp) => pp,
                None => unreached(),
            };
            proof {
                assert(rr.take(k1 as int + 1) + rr.skip(k1 as int + 1).take(frac - 1) =~= rr.take(
                    k1 + frac as int,
                ));
                lemma_advanced_over_concat(
                    orig.pos(),
                    rr.take(k1 as int + 1),
                    rr.skip(k1 as int + 1).take(frac - 1),
                );
            }
            let mut spelling = String::new();
            append_chars(&mut spelling, &digits);
            spelling.push('.');
            append_chars(&mut spelling, &frac_digits);
            proof {
                assert(spelling@ =~= rr.take(k1 as int).push('.') + rr.skip(k1 as int + 1).take(
                    frac as int,
                ));
                assert(rr.take(k1 as int).push('.') =~= rr.take(k1 as int + 1));
                assert(spelling@ =~= rr.take(k1 as int + 1 + frac as int));
            }
            Ok(Token::new(TokenKind::Literal(Literal::Float(spelling)), Span { start, end: end_frac }))
        } else {
            match digits_to_i32(&digits) {
                Some(v) => {
                    Ok(Token::new(TokenKind::Literal(Literal::Integer(v)), Span { start, end: end_int }))
                },
                None => Err(LexError::NumberExceededSize(start)),
            }
        }
    }
}

impl Lexer {
    /// Produce the next token or error, or `None` at the end of input:
    /// exactly what one step of the lexer model says.
    pub fn next(&mut self) -> (r: Option<Result<Token, LexError>>)
        requires
            old(self).wf(),
        ensures
            final(self).wf(),
            lex_out_view(r) == spec_lex_step(old(self).rem(), old(self).pos()).out,
            final(self).rem() == spec_lex_step(old(self).rem(), old(self).pos()).rest,
            final(self).pos() == spec_lex_step(old(self).rem(), old(self).pos()).pos,
            r is Some ==> final(self).rem().len() < old(self).rem().len(),
            r is None ==> final(self).rem().len() == 0,
    {
        proof {
            lemma_lex_step_progress(old(self).rem(), old(self).pos());
        }
        self.skip_trivia_exec();
        let ghost r0 = self.rem();
        let ghost p0 = self.pos();
        let peeked = self.peek_char();
        let c = match peeked {
            Some(c) => c,
            None => {
                return None;
            },
        };
        let start = self.position;
        proof {
            assert(r0.len() > 0);
            assert(c == r0[0]);
            assert(r0.skip(1) =~= r0.drop_first());
            assert(r0.take(1)[0] == r0[0]);
            assert(r0.take(1).drop_first() =~= Seq::<char>::empty());
            assert(spec_advanced_over(spec_advanced(p0, c), r0.take(1).drop_first())
                == spec_advanced(p0, c));
            assert(spec_advanced_over(p0, r0.take(1)) == spec_advanced(p0, c));
        }
        if c == '+' || c == '-' || c == '*' || c == '/' || c == '%' || c == '=' || c == '!'
            || c == '<' || c == '>' || c == '&' || c == '|' {
            let _ = self.next_character();
            let second = if c == '&' {
                '&'
            } else if c == '|' {
                '|'
            } else {
                '='
            };
            let two = self.if_next(second);
            proof {
                if two {
                    assert(r0.skip(2) =~= r0.drop_first().drop_first());
                    assert(r0.take(2) =~= r0.take(1).push(r0[1]));
                    lemma_advanced_over_push(p0, r0.take(1), r0[1]);
                }
            }
            let sym = if two {
                if c == '+' {
                    Symbol::PlusEquals
                } else if c == '-' {
                    Symbol::MinusEquals
                } else if c == '*' {
                    Symbol::StarEquals
                } else if c == '/' {
                    Symbol::DivideEquals
                } else if c == '%' {
                    Symbol::PercentEquals
                } else if c == '=' {
                    Symbol::Equals
                } else if c == '!' {
                    Symbol::NotEquals
                } else if c == '<' {
                    Symbol::LessThanOrEquals
                } else if c == '>' {
                    Symbol::GreaterThanOrEquals
                } else if c == '&' {
                    Symbol::And
                } else {
                    Symbol::Or
                }
            } else {
                if c == '+' {
                    Symbol::Plus
                } else if c == '-' {
                    Symbol::Minus
                } else if c == '*' {
                    Symbol::Star
                } else if c == '/' {
                    Symbol::Divide
                } else if c == '%' {
                    Symbol::Percent
                } else if c == '=' {
                    Symbol::Equal
                } else if c == '!' {
                    Symbol::Not
                } else if c == '<' {
                    Symbol::LessThan
                } else if c == '>' {
                    Symbol::GreaterThan
                } else if c == '&' {
                    Symbol::BitAnd
                } else {
                    Symbol::BitOr
                }
            };
            let end = if two {
                start.advanced_by(1)
            } else {
                start
            };
            Some(Ok(Token::new(TokenKind::Symbol(sym), Span { start, end })))
        } else if c == '(' || c == ')' || c == '[' || c == ']' || c == '{' || c == '}' || c == ','
            || c == ';' || c == '^' || c == '~' {
            let _ = self.next_character();
            let sym = if c == '(' {
                Symbol::OpenParanthesis
            } else if c == ')' {
                Symbol::CloseParanthesis
            } else if c == '[' {
                Symbol::OpenSquareBracket
            } else if c == ']' {
                Symbol::CloseSquareBracket
            } else if c == '{' {
                Symbol::OpenCurlyBracket
            } else if c == '}' {
                Symbol::CloseCurlyBracket
            } else if c == ',' {
                Symbol::Comma
            } else if c == ';' {
                Symbol::Semicolon
            } else if c == '^' {
                Symbol::Carret
            } else {
                Symbol::BitNot
            };
            Some(Ok(Token::new(TokenKind::Symbol(sym), Span { start, end: start })))
        } else if c == '"' || c == '\'' {
            match self.collect_string_literal() {
                Ok(t) => Some(Ok(t)),
                Err(e) => Some(Err(e)),
            }
        } else if is_digit(c) {
            match self.collect_numeric_literal() {
                Ok(t) => Some(Ok(t)),
                Err(e) => Some(Err(e)),
            }
        } else if is_word_start(c) {
            let (wchars, wtext, last) = self.collect_ident();
            proof {
                assert(ident_pred()(r0[0]));
                assert(spec_scan(r0, ident_pred()) >= 1);
            }
            let end = match last {
                Some(pp) => pp,
                None => unreached(),
            };
            let kind = match Keyword::get_keyword_kind(&wchars) {
                Some(kw) => TokenKind::Keyword(kw),
                None => match Literal::get_literal(&wchars) {
                    Some(l) => TokenKind::Literal(l),
                    None => TokenKind::Ident(wtext),
                },
            };
            Some(Ok(Token::new(kind, Span { start, end })))
        } else {
            let _ = self.next_character();
            Some(Err(LexError::IllegalCharacter(c, start)))
        }
    }
}

/// View of a collected lexer output sequence.
pub open spec fn spec_results_view(s: Seq<Result<Token, LexError>>) -> Seq<
    Result<SpToken, LexError>,
> {
    s.map(|i: int, r: Result<Token, LexError>| match r {
        Ok(t) => Ok(t@),
        Err(e) => Err(e),
    })
}

/// Tokenize a whole input: every token and error `spec_tokens` names,
/// in order.
pub fn lex(content: Vec<char>, start: Position) -> (out: Vec<Result<Token, LexError>>)
    requires
        start.row + content@.len() <= usize::MAX,
        start.col + 4 * content@.len() <= usize::MAX,
        start.index + 4 * content@.len() <= usize::MAX,
    ensures
        spec_results_view(out@) == spec_tokens(content@, start),
{
    let mut lx = Lexer::new(content, start);
    let ghost all = spec_tokens(lx.rem(), lx.pos());
    let mut out: Vec<Result<Token, LexError>> = Vec::new();
    proof {
        assert(spec_results_view(out@) =~= Seq::<Result<SpToken, LexError>>::empty());
        assert(all =~= spec_results_view(out@) + all);
    }
    loop
        invariant
            lx.wf(),
            all == spec_results_view(out@) + spec_tokens(lx.rem(), lx.pos()),
        ensures
            all == spec_results_view(out@),
        decreases lx.rem().len(),
    {
        let ghost pre = lx;
        let ghost pre_out = out@;
        proof {
            lemma_lex_step_progress(pre.rem(), pre.pos());
        }
        let step = lx.next();
        match step {
            Some(t) => {
                out.push(t);
                proof {
                    let sp = spec_lex_step(pre.rem(), pre.pos());
                    assert(spec_tokens(pre.rem(), pre.pos()) == seq![sp.out->Some_0]
                        + spec_tokens(sp.rest, sp.pos));
                    assert(spec_results_view(out@) =~= spec_results_view(pre_out).push(
                        sp.out->Some_0,
                    ));
                    assert(spec_results_view(pre_out).push(sp.out->Some_0) + spec_tokens(
                        lx.rem(),
                        lx.pos(),
                    ) =~= spec_results_view(pre_out) + (seq![sp.out->Some_0] + spec_tokens(
                        lx.rem(),
                        lx.pos(),
                    )));
                }
            },
            None => {
                proof {
                    assert(spec_tokens(pre.rem(), pre.pos()) =~= Seq::<
                        Result<SpToken, LexError>,
                    >::empty());
                    assert(spec_results_view(out@) + spec_tokens(lx.rem(), lx.pos())
                        =~= spec_results_view(out@));
                    assert(spec_tokens(lx.rem(), lx.pos()) =~= Seq::<
                        Result<SpToken, LexError>,
                    >::empty());
                }
                break ;
            },
        }
    }
    out
}

} // verus!
