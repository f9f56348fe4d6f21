//! Tokens and their closed vocabularies: reserved keywords, punctuation
//! and operator symbols, and literal values.
//!
//! Keyword and symbol resolution goes through canonical spellings held
//! as character tables, so every contract can speak about the exact
//! characters a token stands for.  Tokens carry the `Span` of their
//! characters.  Because spec code cannot build `String` values, each
//! token type has a ghost mirror (`SpToken` and friends) whose view is
//! taken by the lexer and parser models.

use vstd::prelude::*;

use crate::position::Span;

verus! {

/// Reserved words of the statement language.
#[derive(Clone, Copy, PartialEq, Eq, Structural, Debug)]
pub enum Keyword {
    Create,
    Table,
    Alter,
    Drop,
    Insert,
    Update,
    Delete,
    Select,
    From,
    Int,
    Float,
    String,
    Boolean,
    DateTime,
    Add,
    Modify,
    Rename,
    Column,
    To,
    Into,
    Values,
    Where,
    In,
    Not,
    Like,
    And,
    Or,
    SetClause,
}

/// Punctuation and operator symbols, including the two-character
/// compounds recognized by greedy longest-match lexing.
#[derive(Clone, Copy, PartialEq, Eq, Structural, Debug)]
pub enum Symbol {
    OpenParanthesis,
    CloseParanthesis,
    OpenSquareBracket,
    CloseSquareBracket,
    OpenCurlyBracket,
    CloseCurlyBracket,
    Comma,
    Semicolon,
    Plus,
    Minus,
    Star,
    Divide,
    Percent,
    Equal,
    PlusEquals,
    MinusEquals,
    StarEquals,
    DivideEquals,
    PercentEquals,
    Equals,
    NotEquals,
    LessThan,
    LessThanOrEquals,
    GreaterThan,
    GreaterThanOrEquals,
    And,
    Or,
    Not,
    BitAnd,
    BitOr,
    BitNot,
    Carret,
}

/// A literal value.  Floating-point literals keep their exact spelling;
/// turning the spelling into a machine float is the consumer's concern.
#[derive(Clone, PartialEq, Debug)]
pub enum Literal {
    Integer(i32),
    Float(String),
    Boolean(bool),
    String(String),
}

/// What a token is: a keyword, a symbol, a literal, or an identifier.
#[derive(Clone, PartialEq, Debug)]
pub enum TokenKind {
    Keyword(Keyword),
    Symbol(Symbol),
    Literal(Literal),
    Ident(String),
}

/// A lexical unit: its kind and the source range it covers.
#[derive(Clone, PartialEq, Debug)]
pub struct Token {
    pub kind: TokenKind,
    pub span: Span,
}

/// Ghost mirror of `Literal`, with text as character sequences.
pub enum SpLiteral {
    Integer(int),
    Float(Seq<char>),
    Boolean(bool),
    Str(Seq<char>),
}

/// Ghost mirror of `TokenKind`.
pub enum SpTokenKind {
    Keyword(Keyword),
    Symbol(Symbol),
    Literal(SpLiteral),
    Ident(Seq<char>),
}

/// Ghost mirror of `Token`.
pub struct SpToken {
    pub kind: SpTokenKind,
    pub span: Span,
}

impl View for Literal {
    type V = SpLiteral;

    open spec fn view(&self) -> SpLiteral {
        match self {
            Literal::Integer(n) => SpLiteral::Integer(*n as int),
            Literal::Float(s) => SpLiteral::Float(s@),
            Literal::Boolean(b) => SpLiteral::Boolean(*b),
            Literal::String(s) => SpLiteral::Str(s@),
        }
    }
}

impl View for TokenKind {
    type V = SpTokenKind;

    open spec fn view(&self) -> SpTokenKind {
        match self {
            TokenKind::Keyword(k) => SpTokenKind::Keyword(*k),
            TokenKind::Symbol(s) => SpTokenKind::Symbol(*s),
            TokenKind::Literal(l) => SpTokenKind::Literal(l@),
            TokenKind::Ident(s) => SpTokenKind::Ident(s@),
        }
    }
}

impl View for Token {
    type V = SpToken;

    open spec fn view(&self) -> SpToken {
        SpToken { kind: self.kind@, span: self.span }
    }
}

impl Token {
    /// Pack a kind and a span into a token.
    pub fn new(kind: TokenKind, span: Span) -> (t: Token)
        ensures
            t.kind == kind,
            t.span == span,
    {
        Token { kind, span }
    }
}

/// The canonical (lower-case) spelling of each keyword.
pub open spec fn spec_keyword_spelling(k: Keyword) -> Seq<char> {
    match k {
        Keyword::Create => seq!['c', 'r', 'e', 'a', 't', 'e'],
        Keyword::Table => seq!['t', 'a', 'b', 'l', 'e'],
        Keyword::Alter => seq!['a', 'l', 't', 'e', 'r'],
        Keyword::Drop => seq!['d', 'r', 'o', 'p'],
        Keyword::Insert => seq!['i', 'n', 's', 'e', 'r', 't'],
        Keyword::Update => seq!['u', 'p', 'd', 'a', 't', 'e'],
        Keyword::Delete => seq!['d', 'e', 'l', 'e', 't', 'e'],
        Keyword::Select => seq!['s', 'e', 'l', 'e', 'c', 't'],
        Keyword::From => seq!['f', 'r', 'o', 'm'],
        Keyword::Int => seq!['i', 'n', 't'],
        Keyword::Float => seq!['f', 'l', 'o', 'a', 't'],
        Keyword::String => seq!['s', 't', 'r', 'i', 'n', 'g'],
        Keyword::Boolean => seq!['b', 'o', 'o', 'l', 'e', 'a', 'n'],
        Keyword::DateTime => seq!['d', 'a', 't', 'e', 't', 'i', 'm', 'e'],
        Keyword::Add => seq!['a', 'd', 'd'],
        Keyword::Modify => seq!['m', 'o', 'd', 'i', 'f', 'y'],
        Keyword::Rename => seq!['r', 'e', 'n', 'a', 'm', 'e'],
        Keyword::Column => seq!['c', 'o', 'l', 'u', 'm', 'n'],
        Keyword::To => seq!['t', 'o'],
        Keyword::Into => seq!['i', 'n', 't', 'o'],
        Keyword::Values => seq!['v', 'a', 'l', 'u', 'e', 's'],
        Keyword::Where => seq!['w', 'h', 'e', 'r', 'e'],
        Keyword::In => seq!['i', 'n'],
        Keyword::Not => seq!['n', 'o', 't'],
        Keyword::Like => seq!['l', 'i', 'k', 'e'],
        Keyword::And => seq!['a', 'n', 'd'],
        Keyword::Or => seq!['o', 'r'],
        Keyword::SetClause => seq!['s', 'e', 't'],
    }
}

/// The canonical spelling of each symbol.
pub open spec fn spec_symbol_spelling(s: Symbol) -> Seq<char> {
    match s {
        Symbol::OpenParanthesis => seq!['('],
        Symbol::CloseParanthesis => seq![')'],
        Symbol::OpenSquareBracket => seq!['['],
        Symbol::CloseSquareBracket => seq![']'],
        Symbol::OpenCurlyBracket => seq!['{'],
        Symbol::CloseCurlyBracket => seq!['}'],
        Symbol::Comma => seq![','],
        Symbol::Semicolon => seq![';'],
        Symbol::Plus => seq!['+'],
        Symbol::Minus => seq!['-'],
        Symbol::Star => seq!['*'],
        Symbol::Divide => seq!['/'],
        Symbol::Percent => seq!['%'],
        Symbol::Equal => seq!['='],
        Symbol::PlusEquals => seq!['+', '='],
        Symbol::MinusEquals => seq!['-', '='],
        Symbol::StarEquals => seq!['*', '='],
        Symbol::DivideEquals => seq!['/', '='],
        Symbol::PercentEquals => seq!['%', '='],
        Symbol::Equals => seq!['=', '='],
        Symbol::NotEquals => seq!['!', '='],
        Symbol::LessThan => seq!['<'],
        Symbol::LessThanOrEquals => seq!['<', '='],
        Symbol::GreaterThan => seq!['>'],
        Symbol::GreaterThanOrEquals => seq!['>', '='],
        Symbol::And => seq!['&', '&'],
        Symbol::Or => seq!['|', '|'],
        Symbol::Not => seq!['!'],
        Symbol::BitAnd => seq!['&'],
        Symbol::BitOr => seq!['|'],
        Symbol::BitNot => seq!['~'],
        Symbol::Carret => seq!['^'],
    }
}

/// `a` equals the lower-case reference character `b`, ignoring ASCII case.
pub open spec fn spec_char_eq_ci(a: char, b: char) -> bool {
    a as u32 == b as u32 || (65 <= a as u32 <= 90 && a as u32 + 32 == b as u32)
}

/// `w` spells `s` (a lower-case reference), ignoring ASCII case.
pub open spec fn spec_word_eq_ci(w: Seq<char>, s: Seq<char>) -> bool
    decreases w.len(),
{
    if w.len() != s.len() {
        false
    } else if w.len() == 0 {
        true
    } else {
        spec_char_eq_ci(w[0], s[0]) && spec_word_eq_ci(w.drop_first(), s.drop_first())
    }
}

/// Executable case-insensitive character match against a lower-case
/// reference character.
pub fn char_eq_ci(a: char, b: char) -> (r: bool)
    ensures
        r == spec_char_eq_ci(a, b),
{
    let ua = a as u32;
    let ub = b as u32;
    ua == ub || (65 <= ua && ua <= 90 && ua + 32 == ub)
}

/// Case-insensitive match of the suffixes of `w` and `s` from `i` on.
fn word_eq_ci_from(w: &Vec<char>, s: &Vec<char>, i: usize) -> (r: bool)
    requires
        w@.len() == s@.len(),
        i <= w@.len(),
    ensures
        r == spec_word_eq_ci(w@.skip(i as int), s@.skip(i as int)),
    decreases w@.len() - i,
{
    if i == w.len() {
        proof {
            assert(w@.skip(i as int) =~= Seq::<char>::empty());
            assert(s@.skip(i as int) =~= Seq::<char>::empty());
        }
        true
    } else {
        proof {
            assert(w@.skip(i as int)[0] == w@[i as int]);
            assert(w@.skip(i as int).drop_first() =~= w@.skip(i as int + 1));
            assert(s@.skip(i as int).drop_first() =~= s@.skip(i as int + 1));
        }
        if char_eq_ci(w[i], s[i]) {
            word_eq_ci_from(w, s, i + 1)
        } else {
            false
        }
    }
}

/// Executable case-insensitive word match against a lower-case reference.
pub fn word_eq_ci(w: &Vec<char>, s: &Vec<char>) -> (r: bool)
    ensures
        r == spec_word_eq_ci(w@, s@),
{
    if w.len() != s.len() {
        return false;
    }
    proof {
        assert(w@.skip(0) =~= w@);
        assert(s@.skip(0) =~= s@);
    }
    word_eq_ci_from(w, s, 0)
}

/// The keyword spelled by `w`, resolved case-insensitively against the
/// canonical spellings, if any.
pub open spec fn spec_keyword_of(w: Seq<char>) -> Option<Keyword> {
    if spec_word_eq_ci(w, spec_keyword_spelling(Keyword::Create)) {
        Some(Keyword::Create)
    } else if spec_word_eq_ci(w, spec_keyword_spelling(Keyword::Table)) {
        Some(Keyword::Table)
    } else if spec_word_eq_ci(w, spec_keyword_spelling(Keyword::Alter)) {
        Some(Keyword::Alter)
    } else if spec_word_eq_ci(w, spec_keyword_spelling(Keyword::Drop)) {
        Some(Keyword::Drop)
    } else if spec_word_eq_ci(w, spec_keyword_spelling(Keyword::Insert)) {
        Some(Keyword::Insert)
    } else if spec_word_eq_ci(w, spec_keyword_spelling(Keyword::Update)) {
        Some(Keyword::Update)
    } else if spec_word_eq_ci(w, spec_keyword_spelling(Keyword::Delete)) {
        Some(Keyword::Delete)
    } else if spec_word_eq_ci(w, spec_keyword_spelling(Keyword::Select)) {
        Some(Keyword::Select)
    } else if spec_word_eq_ci(w, spec_keyword_spelling(Keyword::From)) {
        Some(Keyword::From)
    } else if spec_word_eq_ci(w, spec_keyword_spelling(Keyword::Int)) {
        Some(Keyword::Int)
    } else if spec_word_eq_ci(w, spec_keyword_spelling(Keyword::Float)) {
        Some(Keyword::Float)
    } else if spec_word_eq_ci(w, spec_keyword_spelling(Keyword::String)) {
        Some(Keyword::String)
    } else if spec_word_eq_ci(w, spec_keyword_spelling(Keyword::Boolean)) {
        Some(Keyword::Boolean)
    } else if spec_word_eq_ci(w, spec_keyword_spelling(Keyword::DateTime)) {
        Some(Keyword::DateTime)
    } else if spec_word_eq_ci(w, spec_keyword_spelling(Keyword::Add)) {
        Some(Keyword::Add)
    } else if spec_word_eq_ci(w, spec_keyword_spelling(Keyword::Modify)) {
        Some(Keyword::Modify)
    } else if spec_word_eq_ci(w, spec_keyword_spelling(Keyword::Rename)) {
        Some(Keyword::Rename)
    } else if spec_word_eq_ci(w, spec_keyword_spelling(Keyword::Column)) {
        Some(Keyword::Column)
    } else if spec_word_eq_ci(w, spec_keyword_spelling(Keyword::To)) {
        Some(Keyword::To)
    } else if spec_word_eq_ci(w, spec_keyword_spelling(Keyword::Into)) {
        Some(Keyword::Into)
    } else if spec_word_eq_ci(w, spec_keyword_spelling(Keyword::Values)) {
        Some(Keyword::Values)
    } else if spec_word_eq_ci(w, spec_keyword_spelling(Keyword::Where)) {
        Some(Keyword::Where)
    } else if spec_word_eq_ci(w, spec_keyword_spelling(Keyword::In)) {
        Some(Keyword::In)
    } else if spec_word_eq_ci(w, spec_keyword_spelling(Keyword::Not)) {
        Some(Keyword::Not)
    } else if spec_word_eq_ci(w, spec_keyword_spelling(Keyword::Like)) {
        Some(Keyword::Like)
    } else if spec_word_eq_ci(w, spec_keyword_spelling(Keyword::And)) {
        Some(Keyword::And)
    } else if spec_word_eq_ci(w, spec_keyword_spelling(Keyword::Or)) {
        Some(Keyword::Or)
    } else if spec_word_eq_ci(w, spec_keyword_spelling(Keyword::SetClause)) {
        Some(Keyword::SetClause)
    } else {
        None
    }
}

/// Executable canonical spelling of a keyword.
pub fn keyword_spelling(k: Keyword) -> (v: Vec<char>)
    ensures
        v@ == spec_keyword_spelling(k),
{
    match k {
        Keyword::Create => vec!['c', 'r', 'e', 'a', 't', 'e'],
        Keyword::Table => vec!['t', 'a', 'b', 'l', 'e'],
        Keyword::Alter => vec!['a', 'l', 't', 'e', 'r'],
        Keyword::Drop => vec!['d', 'r', 'o', 'p'],
        Keyword::Insert => vec!['i', 'n', 's', 'e', 'r', 't'],
        Keyword::Update => vec!['u', 'p', 'd', 'a', 't', 'e'],
        Keyword::Delete => vec!['d', 'e', 'l', 'e', 't', 'e'],
        Keyword::Select => vec!['s', 'e', 'l', 'e', 'c', 't'],
        Keyword::From => vec!['f', 'r', 'o', 'm'],
        Keyword::Int => vec!['i', 'n', 't'],
        Keyword::Float => vec!['f', 'l', 'o', 'a', 't'],
        Keyword::String => vec!['s', 't', 'r', 'i', 'n', 'g'],
        Keyword::Boolean => vec!['b', 'o', 'o', 'l', 'e', 'a', 'n'],
        Keyword::DateTime => vec!['d', 'a', 't', 'e', 't', 'i', 'm', 'e'],
        Keyword::Add => vec!['a', 'd', 'd'],
        Keyword::Modify => vec!['m', 'o', 'd', 'i', 'f', 'y'],
        Keyword::Rename => vec!['r', 'e', 'n', 'a', 'm', 'e'],
        Keyword::Column => vec!['c', 'o', 'l', 'u', 'm', 'n'],
        Keyword::To => vec!['t', 'o'],
        Keyword::Into => vec!['i', 'n', 't', 'o'],
        Keyword::Values => vec!['v', 'a', 'l', 'u', 'e', 's'],
        Keyword::Where => vec!['w', 'h', 'e', 'r', 'e'],
        Keyword::In => vec!['i', 'n'],
        Keyword::Not => vec!['n', 'o', 't'],
        Keyword::Like => vec!['l', 'i', 'k', 'e'],
        Keyword::And => vec!['a', 'n', 'd'],
        Keyword::Or => vec!['o', 'r'],
        Keyword::SetClause => vec!['s', 'e', 't'],
    }
}

impl Keyword {
    /// Resolve a scanned word against the keyword table,
    /// case-insensitively.
    pub fn get_keyword_kind(word: &Vec<char>) -> (r: Option<Keyword>)
        ensures
            r == spec_keyword_of(word@),
    {
        if word_eq_ci(word, &keyword_spelling(Keyword::Create)) {
            Some(Keyword::Create)
        } else if word_eq_ci(word, &keyword_spelling(Keyword::Table)) {
            Some(Keyword::Table)
        } else if word_eq_ci(word, &keyword_spelling(Keyword::Alter)) {
            Some(Keyword::Alter)
        } else if word_eq_ci(word, &keyword_spelling(Keyword::Drop)) {
            Some(Keyword::Drop)
        } else if word_eq_ci(word, &keyword_spelling(Keyword::Insert)) {
            Some(Keyword::Insert)
        } else if word_eq_ci(word, &keyword_spelling(Keyword::Update)) {
            Some(Keyword::Update)
        } else if word_eq_ci(word, &keyword_spelling(Keyword::Delete)) {
            Some(Keyword::Delete)
        } else if word_eq_ci(word, &keyword_spelling(Keyword::Select)) {
            Some(Keyword::Select)
        } else if word_eq_ci(word, &keyword_spelling(Keyword::From)) {
            Some(Keyword::From)
        } else if word_eq_ci(word, &keyword_spelling(Keyword::Int)) {
            Some(Keyword::Int)
        } else if word_eq_ci(word, &keyword_spelling(Keyword::Float)) {
            Some(Keyword::Float)
        } else if word_eq_ci(word, &keyword_spelling(Keyword::String)) {
            Some(Keyword::String)
        } else if word_eq_ci(word, &keyword_spelling(Keyword::Boolean)) {
            Some(Keyword::Boolean)
        } else if word_eq_ci(word, &keyword_spelling(Keyword::DateTime)) {
            Some(Keyword::DateTime)
        } else if word_eq_ci(word, &keyword_spelling(Keyword::Add)) {
            Some(Keyword::Add)
        } else if word_eq_ci(word, &keyword_spelling(Keyword::Modify)) {
            Some(Keyword::Modify)
        } else if word_eq_ci(word, &keyword_spelling(Keyword::Rename)) {
            Some(Keyword::Rename)
        } else if word_eq_ci(word, &keyword_spelling(Keyword::Column)) {
            Some(Keyword::Column)
        } else if word_eq_ci(word, &keyword_spelling(Keyword::To)) {
            Some(Keyword::To)
        } else if word_eq_ci(word, &keyword_spelling(Keyword::Into)) {
            Some(Keyword::Into)
        } else if word_eq_ci(word, &keyword_spelling(Keyword::Values)) {
            Some(Keyword::Values)
        } else if word_eq_ci(word, &keyword_spelling(Keyword::Where)) {
            Some(Keyword::Where)
        } else if word_eq_ci(word, &keyword_spelling(Keyword::In)) {
            Some(Keyword::In)
        } else if word_eq_ci(word, &keyword_spelling(Keyword::Not)) {
            Some(Keyword::Not)
        } else if word_eq_ci(word, &keyword_spelling(Keyword::Like)) {
            Some(Keyword::Like)
        } else if word_eq_ci(word, &keyword_spelling(Keyword::And)) {
            Some(Keyword::And)
        } else if word_eq_ci(word, &keyword_spelling(Keyword::Or)) {
            Some(Keyword::Or)
        } else if word_eq_ci(word, &keyword_spelling(Keyword::SetClause)) {
            Some(Keyword::SetClause)
        } else {
            None
        }
    }
}

/// The shape of a literal, without its value.
#[derive(Clone, Copy, PartialEq, Eq, Structural, Debug)]
pub enum LiteralType {
    Boolean,
    Integer,
    Float,
    String,
}

impl LiteralType {
    /// Resolve a scanned word against the literal-keyword table: `true`
    /// and `false` name boolean literals; nothing else is one.
    pub fn get_literal(word: &Vec<char>) -> (r: Option<LiteralType>)
        ensures
            r == (match spec_bool_literal_of(word@) {
                Some(_) => Some(LiteralType::Boolean),
                None => None::<LiteralType>,
            }),
    {
        match Literal::get_literal(word) {
            Some(_) => Some(LiteralType::Boolean),
            None => None,
        }
    }
}

/// The boolean literal spelled by `w` (`true` or `false`,
/// case-insensitively), if any.
pub open spec fn spec_bool_literal_of(w: Seq<char>) -> Option<bool> {
    if spec_word_eq_ci(w, seq!['t', 'r', 'u', 'e']) {
        Some(true)
    } else if spec_word_eq_ci(w, seq!['f', 'a', 'l', 's', 'e']) {
        Some(false)
    } else {
        None
    }
}

impl Literal {
    /// Resolve a scanned word against the literal-keyword table
    /// (`true` and `false`), case-insensitively.
    pub fn get_literal(word: &Vec<char>) -> (r: Option<Literal>)
        ensures
            match spec_bool_literal_of(word@) {
                Some(b) => r matches Some(l) && l@ == SpLiteral::Boolean(b),
                None => r is None,
            },
    {
        let t: Vec<char> = vec!['t', 'r', 'u', 'e'];
        let f: Vec<char> = vec!['f', 'a', 'l', 's', 'e'];
        if word_eq_ci(word, &t) {
            Some(Literal::Boolean(true))
        } else if word_eq_ci(word, &f) {
            Some(Literal::Boolean(false))
        } else {
            None
        }
    }
}

} // verus!
