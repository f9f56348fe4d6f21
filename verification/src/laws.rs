//! Round-trip laws of the lexer's vocabulary.
//!
//! For every canonical spelling of a keyword or a symbol, lexing that
//! exact spelling yields exactly one token, and it is of the matching
//! kind.

use vstd::prelude::*;

use crate::lexer::{ident_pred, is_ident_char, is_word_start_char, lemma_scan, spec_tokens};
use crate::token::spec_keyword_of;
use crate::position::Position;
use crate::token::{spec_keyword_spelling, spec_symbol_spelling, Keyword, SpTokenKind, Symbol};

verus! {

/// Lexing one whole word made of identifier characters yields exactly
/// one token, resolved against the keyword table first, then the
/// boolean literals.
proof fn lemma_lex_one_word(w: Seq<char>)
    requires
        w.len() >= 1,
        is_word_start_char(w[0]),
        forall|i: int| 0 <= i < w.len() ==> is_ident_char(#[trigger] w[i]),
    ensures
        ({
            let toks = spec_tokens(w, Position::spec_origin());
            &&& toks.len() == 1
            &&& toks[0] matches Ok(t) && t.kind == (match spec_keyword_of(w) {
                Some(kw) => SpTokenKind::Keyword(kw),
                None => match crate::token::spec_bool_literal_of(w) {
                    Some(b) => SpTokenKind::Literal(
                        crate::token::SpLiteral::Boolean(b),
                    ),
                    None => SpTokenKind::Ident(w),
                },
            })
        }),
{
    reveal_with_fuel(crate::lexer::spec_tokens, 2);
    lemma_scan(w, ident_pred());
    assert(crate::lexer::spec_scan(w, ident_pred()) == w.len());
    assert(w.take(w.len() as int) =~= w);
    assert(w.skip(w.len() as int) =~= Seq::<char>::empty());
}

/// Lexing the canonical spelling of any keyword yields exactly one
/// token: that keyword.
#[verifier::rlimit(100)]
pub proof fn lemma_keyword_spelling_lexes(k: Keyword)
    ensures
        ({
            let toks = spec_tokens(spec_keyword_spelling(k), Position::spec_origin());
            &&& toks.len() == 1
            &&& toks[0] matches Ok(t) && t.kind == SpTokenKind::Keyword(k)
        }),
{
    lemma_lex_one_word(spec_keyword_spelling(k));
    assert(spec_keyword_of(spec_keyword_spelling(k)) == Some(k)) by {
        reveal_with_fuel(crate::token::spec_word_eq_ci, 10);
        match k {
            Keyword::Create => {},
            Keyword::Table => {},
            Keyword::Alter => {},
            Keyword::Drop => {},
            Keyword::Insert => {},
            Keyword::Update => {},
            Keyword::Delete => {},
            Keyword::Select => {},
            Keyword::From => {},
            Keyword::Int => {},
            Keyword::Float => {},
            Keyword::String => {},
            Keyword::Boolean => {},
            Keyword::DateTime => {},
            Keyword::Add => {},
            Keyword::Modify => {},
            Keyword::Rename => {},
            Keyword::Column => {},
            Keyword::To => {},
            Keyword::Into => {},
            Keyword::Values => {},
            Keyword::Where => {},
            Keyword::In => {},
            Keyword::Not => {},
            Keyword::Like => {},
            Keyword::And => {},
            Keyword::Or => {},
            Keyword::SetClause => {},
        }
    }
    match k {
        Keyword::Create => {},
        Keyword::Table => {},
        Keyword::Alter => {},
        Keyword::Drop => {},
        Keyword::Insert => {},
        Keyword::Update => {},
        Keyword::Delete => {},
        Keyword::Select => {},
        Keyword::From => {},
        Keyword::Int => {},
        Keyword::Float => {},
        Keyword::String => {},
        Keyword::Boolean => {},
        Keyword::DateTime => {},
        Keyword::Add => {},
        Keyword::Modify => {},
        Keyword::Rename => {},
        Keyword::Column => {},
        Keyword::To => {},
        Keyword::Into => {},
        Keyword::Values => {},
        Keyword::Where => {},
        Keyword::In => {},
        Keyword::Not => {},
        Keyword::Like => {},
        Keyword::And => {},
        Keyword::Or => {},
        Keyword::SetClause => {},
    }
}

/// Lexing the canonical spelling of any symbol yields exactly one
/// token: that symbol.
#[verifier::rlimit(100)]
pub proof fn lemma_symbol_spelling_lexes(sym: Symbol)
    ensures
        ({
            let toks = spec_tokens(spec_symbol_spelling(sym), Position::spec_origin());
            &&& toks.len() == 1
            &&& toks[0] matches Ok(t) && t.kind == SpTokenKind::Symbol(sym)
        }),
{
    reveal_with_fuel(crate::lexer::spec_tokens, 3);
    reveal_with_fuel(crate::lexer::spec_skip_trivia, 2);
    match sym {
        Symbol::OpenParanthesis => {},
        Symbol::CloseParanthesis => {},
        Symbol::OpenSquareBracket => {},
        Symbol::CloseSquareBracket => {},
        Symbol::OpenCurlyBracket => {},
        Symbol::CloseCurlyBracket => {},
        Symbol::Comma => {},
        Symbol::Semicolon => {},
        Symbol::Plus => {},
        Symbol::Minus => {},
        Symbol::Star => {},
        Symbol::Divide => {},
        Symbol::Percent => {},
        Symbol::Equal => {},
        Symbol::PlusEquals => {},
        Symbol::MinusEquals => {},
        Symbol::StarEquals => {},
        Symbol::DivideEquals => {},
        Symbol::PercentEquals => {},
        Symbol::Equals => {},
        Symbol::NotEquals => {},
        Symbol::LessThan => {},
        Symbol::LessThanOrEquals => {},
        Symbol::GreaterThan => {},
        Symbol::GreaterThanOrEquals => {},
        Symbol::And => {},
        Symbol::Or => {},
        Symbol::Not => {},
        Symbol::BitAnd => {},
        Symbol::BitOr => {},
        Symbol::BitNot => {},
        Symbol::Carret => {},
    }
}

} // verus!
