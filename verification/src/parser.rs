//! The parser: recursive descent over the token stream, with
//! precedence-climbing expressions and per-statement panic-mode
//! recovery.
//!
//! Every parsing routine has a spec twin (`sp_factor`, `sp_expr`,
//! `sp_create`, ...) that consumes a sequence of lexer outputs and
//! says exactly which tree or error comes out and what input is left.
//! The twins take a fuel argument for termination only; each routine's
//! contract holds for every fuel above an input-length bound, so the
//! twins together form one deterministic model of the grammar.
//! `sp_step` is the model of one `Parser::next` call, resynchronization
//! after an error included.

use vstd::prelude::*;

use crate::ast::{
    spec_alters_view, spec_columns_view, spec_idents_view, spec_updates_view, AlterType,
    BinaryOperator, Column, Datatype, Expression, SpAlterType, SpColumn, SpExpr, SpStatement,
    SpUpdateSet, Statement, UpdateSet,
};
use crate::layer::BufferedLayer;
use crate::lexer::{LexError, Lexer};
use crate::token::{Keyword, SpToken, SpTokenKind, Symbol, Token, TokenKind};

verus! {

/// What can go wrong while parsing.  A lexer error surfaces wrapped in
/// `Lex`; `Eof` is the bare end-of-input signal; the other variants say
/// what was found and what was expected.
#[derive(PartialEq, Debug)]
pub enum ParseError {
    Lex(LexError),
    Eof,
    KeywordExpected(Token),
    IdentExpected(Token),
    DatatypeExpected(Token),
    Unexpected { found: Token, expected: TokenKind },
    UnexpectedToken { found: Token },
    UnexpectedEof { expected: TokenKind },
    UnexpectedStatement,
    UnexpectedKeyword { found: Keyword, allowed: Vec<Keyword> },
    NotAnExpression,
    Custom(String),
}

/// Ghost mirror of `ParseError`.
pub enum SpParseError {
    Lex(LexError),
    Eof,
    KeywordExpected(SpToken),
    IdentExpected(SpToken),
    DatatypeExpected(SpToken),
    Unexpected { found: SpToken, expected: SpTokenKind },
    UnexpectedToken { found: SpToken },
    UnexpectedEof { expected: SpTokenKind },
    UnexpectedStatement,
    UnexpectedKeyword { found: Keyword, allowed: Seq<Keyword> },
    NotAnExpression,
    Custom(Seq<char>),
}

impl View for ParseError {
    type V = SpParseError;

    open spec fn view(&self) -> SpParseError {
        match self {
            ParseError::Lex(e) => SpParseError::Lex(*e),
            ParseError::Eof => SpParseError::Eof,
            ParseError::KeywordExpected(t) => SpParseError::KeywordExpected(t@),
            ParseError::IdentExpected(t) => SpParseError::IdentExpected(t@),
            ParseError::DatatypeExpected(t) => SpParseError::DatatypeExpected(t@),
            ParseError::Unexpected { found, expected } => SpParseError::Unexpected {
                found: found@,
                expected: expected@,
            },
            ParseError::UnexpectedToken { found } => SpParseError::UnexpectedToken { found: found@ },
            ParseError::UnexpectedEof { expected } => SpParseError::UnexpectedEof {
                expected: expected@,
            },
            ParseError::UnexpectedStatement => SpParseError::UnexpectedStatement,
            ParseError::UnexpectedKeyword { found, allowed } => SpParseError::UnexpectedKeyword {
                found: *found,
                allowed: allowed@,
            },
            ParseError::NotAnExpression => SpParseError::NotAnExpression,
            ParseError::Custom(s) => SpParseError::Custom(s@),
        }
    }
}

impl ParseError {
    /// The phrase a diagnostic shows for this error; the tokens and
    /// spans the variant carries say where, and what was found.
    pub open spec fn spec_describe(self) -> Seq<char> {
        match self {
            ParseError::Lex(e) => e.spec_describe(),
            ParseError::Eof => "end of input reached unexpectedly"@,
            ParseError::KeywordExpected(_) => "keyword expected"@,
            ParseError::IdentExpected(_) => "identifier expected"@,
            ParseError::DatatypeExpected(_) => "datatype expected"@,
            ParseError::Unexpected { .. } => "unexpected token in place of the expected one"@,
            ParseError::UnexpectedToken { .. } => "unexpected token"@,
            ParseError::UnexpectedEof { .. } => "end of input where a token was expected"@,
            ParseError::UnexpectedStatement => "no statement starts with this keyword"@,
            ParseError::UnexpectedKeyword { .. } => "this keyword cannot stand here"@,
            ParseError::NotAnExpression => "not an expression"@,
            ParseError::Custom(s) => s@,
        }
    }

    /// Describe this error for a diagnostic.
    pub fn describe(&self) -> (r: String)
        ensures
            r@ == self.spec_describe(),
    {
        match self {
            ParseError::Lex(e) => e.describe(),
            ParseError::Eof => String::from_str("end of input reached unexpectedly"),
            ParseError::KeywordExpected(_) => String::from_str("keyword expected"),
            ParseError::IdentExpected(_) => String::from_str("identifier expected"),
            ParseError::DatatypeExpected(_) => String::from_str("datatype expected"),
            ParseError::Unexpected { .. } => String::from_str(
                "unexpected token in place of the expected one",
            ),
            ParseError::UnexpectedToken { .. } => String::from_str("unexpected token"),
            ParseError::UnexpectedEof { .. } => String::from_str(
                "end of input where a token was expected",
            ),
            ParseError::UnexpectedStatement => String::from_str(
                "no statement starts with this keyword",
            ),
            ParseError::UnexpectedKeyword { .. } => String::from_str(
                "this keyword cannot stand here",
            ),
            ParseError::NotAnExpression => String::from_str("not an expression"),
            ParseError::Custom(s) => {
                let mut out = String::new();
                out.append(s.as_str());
                out
            },
        }
    }
}

/// One output of the token stream, as the models see it.
pub type SpTRes = Result<SpToken, LexError>;

/// Result of one parsing step in the model: what came out, and the
/// tokens left over.
#[verifier::reject_recursive_types(T)]
pub struct SpParse<T> {
    pub res: Result<T, SpParseError>,
    pub rest: Seq<SpTRes>,
}

/// View of an executable parse result.
pub open spec fn tok_res_view(r: Result<Token, ParseError>) -> Result<SpToken, SpParseError> {
    match r {
        Ok(t) => Ok(t@),
        Err(e) => Err(e@),
    }
}

/// Model of `get_next_token`: the head token, a wrapped lexer error, or
/// the end-of-input signal.
pub open spec fn sp_next_tok(toks: Seq<SpTRes>) -> (Result<SpToken, SpParseError>, Seq<SpTRes>) {
    if toks.len() == 0 {
        (Err(SpParseError::Eof), toks)
    } else {
        match toks[0] {
            Ok(t) => (Ok(t), toks.drop_first()),
            Err(e) => (Err(SpParseError::Lex(e)), toks.drop_first()),
        }
    }
}

/// Model of `expect_symbol`.
pub open spec fn sp_expect_symbol(toks: Seq<SpTRes>, sym: Symbol) -> (
    Result<SpToken, SpParseError>,
    Seq<SpTRes>,
) {
    if toks.len() == 0 {
        (Err(SpParseError::UnexpectedEof { expected: SpTokenKind::Symbol(sym) }), toks)
    } else {
        match toks[0] {
            Err(e) => (Err(SpParseError::Lex(e)), toks.drop_first()),
            Ok(t) => if t.kind == SpTokenKind::Symbol(sym) {
                (Ok(t), toks.drop_first())
            } else {
                (
                    Err(SpParseError::Unexpected { found: t, expected: SpTokenKind::Symbol(sym) }),
                    toks.drop_first(),
                )
            },
        }
    }
}

/// Model of `expect_keyword`.
pub open spec fn sp_expect_keyword(toks: Seq<SpTRes>, kw: Keyword) -> (
    Result<SpToken, SpParseError>,
    Seq<SpTRes>,
) {
    if toks.len() == 0 {
        (Err(SpParseError::UnexpectedEof { expected: SpTokenKind::Keyword(kw) }), toks)
    } else {
        match toks[0] {
            Err(e) => (Err(SpParseError::Lex(e)), toks.drop_first()),
            Ok(t) => if t.kind == SpTokenKind::Keyword(kw) {
                (Ok(t), toks.drop_first())
            } else {
                (
                    Err(SpParseError::Unexpected { found: t, expected: SpTokenKind::Keyword(kw) }),
                    toks.drop_first(),
                )
            },
        }
    }
}

/// Model of `expect_keyword_kind`: any keyword.
pub open spec fn sp_expect_keyword_kind(toks: Seq<SpTRes>) -> (
    Result<Keyword, SpParseError>,
    Seq<SpTRes>,
) {
    if toks.len() == 0 {
        (Err(SpParseError::Eof), toks)
    } else {
        match toks[0] {
            Err(e) => (Err(SpParseError::Lex(e)), toks.drop_first()),
            Ok(t) => match t.kind {
                SpTokenKind::Keyword(k) => (Ok(k), toks.drop_first()),
                _ => (Err(SpParseError::KeywordExpected(t)), toks.drop_first()),
            },
        }
    }
}

/// Model of `expected_identifier`.
pub open spec fn sp_expect_ident(toks: Seq<SpTRes>) -> (
    Result<Seq<char>, SpParseError>,
    Seq<SpTRes>,
) {
    if toks.len() == 0 {
        (Err(SpParseError::Eof), toks)
    } else {
        match toks[0] {
            Err(e) => (Err(SpParseError::Lex(e)), toks.drop_first()),
            Ok(t) => match t.kind {
                SpTokenKind::Ident(s) => (Ok(s), toks.drop_first()),
                _ => (Err(SpParseError::IdentExpected(t)), toks.drop_first()),
            },
        }
    }
}

/// Model of `consume_if_symbol`: consume the head exactly when it is
/// the given symbol; a lexer error at the head is consumed and
/// surfaced.
pub open spec fn sp_consume_symbol(toks: Seq<SpTRes>, sym: Symbol) -> (
    Result<bool, SpParseError>,
    Seq<SpTRes>,
) {
    if toks.len() == 0 {
        (Ok(false), toks)
    } else {
        match toks[0] {
            Err(e) => (Err(SpParseError::Lex(e)), toks.drop_first()),
            Ok(t) => if t.kind == SpTokenKind::Symbol(sym) {
                (Ok(true), toks.drop_first())
            } else {
                (Ok(false), toks)
            },
        }
    }
}

/// Model of `consume_if_keyword`.
pub open spec fn sp_consume_keyword(toks: Seq<SpTRes>, kw: Keyword) -> (
    Result<bool, SpParseError>,
    Seq<SpTRes>,
) {
    if toks.len() == 0 {
        (Ok(false), toks)
    } else {
        match toks[0] {
            Err(e) => (Err(SpParseError::Lex(e)), toks.drop_first()),
            Ok(t) => if t.kind == SpTokenKind::Keyword(kw) {
                (Ok(true), toks.drop_first())
            } else {
                (Ok(false), toks)
            },
        }
    }
}

/// View of an expression parse result.
pub open spec fn expr_res_view(r: Result<Expression, ParseError>) -> Result<SpExpr, SpParseError> {
    match r {
        Ok(e) => Ok(e@),
        Err(e) => Err(e@),
    }
}

/// Model of `parse_factor`: literal, identifier or call, parenthesized
/// expression, or the wildcard star; anything else is rewound and
/// reported as not an expression.
pub open spec fn sp_factor(toks: Seq<SpTRes>, f: nat) -> SpParse<SpExpr>
    decreases f,
{
    if f == 0 {
        SpParse { res: Err(SpParseError::Eof), rest: toks }
    } else {
        let (h, rest) = sp_next_tok(toks);
        match h {
            Err(e) => SpParse { res: Err(e), rest },
            Ok(t) => match t.kind {
                SpTokenKind::Literal(l) => SpParse { res: Ok(SpExpr::Literal(l)), rest },
                SpTokenKind::Ident(name) => {
                    let (c, rest2) = sp_consume_symbol(rest, Symbol::OpenParanthesis);
                    match c {
                        Err(e) => SpParse { res: Err(e), rest: rest2 },
                        Ok(true) => {
                            let args = sp_expr_list(rest2, (f - 1) as nat);
                            match args.res {
                                Err(e) => SpParse { res: Err(e), rest: args.rest },
                                Ok(es) => {
                                    let (cl, rest3) = sp_expect_symbol(
                                        args.rest,
                                        Symbol::CloseParanthesis,
                                    );
                                    match cl {
                                        Err(e) => SpParse { res: Err(e), rest: rest3 },
                                        Ok(_) => SpParse {
                                            res: Ok(
                                                SpExpr::FunctionCall { ident: name, arguments: es },
                                            ),
                                            rest: rest3,
                                        },
                                    }
                                },
                            }
                        },
                        Ok(false) => SpParse { res: Ok(SpExpr::Identifier(name)), rest: rest2 },
                    }
                },
                SpTokenKind::Symbol(Symbol::OpenParanthesis) => {
                    let inner = sp_expr(rest, 5, (f - 1) as nat);
                    match inner.res {
                        Err(e) => SpParse { res: Err(e), rest: inner.rest },
                        Ok(e) => {
                            let (cl, rest3) = sp_expect_symbol(inner.rest, Symbol::CloseParanthesis);
                            match cl {
                                Err(err) => SpParse { res: Err(err), rest: rest3 },
                                Ok(_) => SpParse { res: Ok(e), rest: rest3 },
                            }
                        },
                    }
                },
                SpTokenKind::Symbol(Symbol::Star) => SpParse { res: Ok(SpExpr::Wildcard), rest },
                _ => SpParse { res: Err(SpParseError::NotAnExpression), rest: toks },
            },
        }
    }
}

/// Model of `parse_expression_of`: at tier zero a factor; above, a
/// leading NOT wraps the next tier in a negation, else a left operand
/// at the next tier followed by the operator chain of this tier.
pub open spec fn sp_expr(toks: Seq<SpTRes>, p: u8, f: nat) -> SpParse<SpExpr>
    decreases f,
{
    if f == 0 {
        SpParse { res: Err(SpParseError::Eof), rest: toks }
    } else if p == 0 {
        sp_factor(toks, (f - 1) as nat)
    } else {
        let (c, rest) = sp_consume_keyword(toks, Keyword::Not);
        match c {
            Err(e) => SpParse { res: Err(e), rest },
            Ok(true) => {
                let inner = sp_expr(rest, (p - 1) as u8, (f - 1) as nat);
                match inner.res {
                    Err(e) => SpParse { res: Err(e), rest: inner.rest },
                    Ok(e) => SpParse { res: Ok(SpExpr::Negation(Box::new(e))), rest: inner.rest },
                }
            },
            Ok(false) => {
                let left = sp_expr(toks, (p - 1) as u8, (f - 1) as nat);
                match left.res {
                    Err(e) => SpParse { res: Err(e), rest: left.rest },
                    Ok(l) => sp_chain(l, left.rest, p, (f - 1) as nat),
                }
            },
        }
    }
}

/// The tier-`p` operator a token stands for, if any.
pub open spec fn sp_op_at(t: SpToken, p: u8) -> Option<BinaryOperator> {
    match t.kind {
        SpTokenKind::Symbol(s) => BinaryOperator::spec_match_symbol(s, p),
        SpTokenKind::Keyword(k) => BinaryOperator::spec_match_keyword(k, p),
        _ => None,
    }
}

/// Model of `parse_binary_chain`: fold tier-`p` operators and their
/// right operands into `left`, left-associatively, until the next token
/// is no operator of this tier (that token is rewound).
pub open spec fn sp_chain(left: SpExpr, toks: Seq<SpTRes>, p: u8, f: nat) -> SpParse<SpExpr>
    decreases f,
{
    if f == 0 {
        SpParse { res: Err(SpParseError::Eof), rest: toks }
    } else if toks.len() == 0 {
        SpParse { res: Ok(left), rest: toks }
    } else {
        match toks[0] {
            Err(e) => SpParse { res: Err(SpParseError::Lex(e)), rest: toks.drop_first() },
            Ok(t) => match sp_op_at(t, p) {
                None => SpParse { res: Ok(left), rest: toks },
                Some(op) => {
                    let right = sp_expr(toks.drop_first(), (p - 1) as u8, (f - 1) as nat);
                    match right.res {
                        Err(e) => SpParse { res: Err(e), rest: right.rest },
                        Ok(r) => sp_chain(
                            SpExpr::Binary {
                                left: Box::new(left),
                                operator: op,
                                right: Box::new(r),
                            },
                            right.rest,
                            p,
                            (f - 1) as nat,
                        ),
                    }
                },
            },
        }
    }
}

/// Model of `parse_expression_list`: expressions separated by commas; a
/// missing separator ends the list without error.
pub open spec fn sp_expr_list(toks: Seq<SpTRes>, f: nat) -> SpParse<Seq<SpExpr>>
    decreases f,
{
    if f == 0 {
        SpParse { res: Err(SpParseError::Eof), rest: toks }
    } else {
        let item = sp_expr(toks, 5, (f - 1) as nat);
        match item.res {
            Err(e) => SpParse { res: Err(e), rest: item.rest },
            Ok(e) => {
                let (c, rest2) = sp_consume_symbol(item.rest, Symbol::Comma);
                match c {
                    Err(err) => SpParse { res: Err(err), rest: rest2 },
                    Ok(true) => {
                        let more = sp_expr_list(rest2, (f - 1) as nat);
                        match more.res {
                            Err(err) => SpParse { res: Err(err), rest: more.rest },
                            Ok(es) => SpParse { res: Ok(seq![e] + es), rest: more.rest },
                        }
                    },
                    Ok(false) => SpParse { res: Ok(seq![e]), rest: rest2 },
                }
            },
        }
    }
}

/// View of a statement parse result.
pub open spec fn stmt_res_view(r: Result<Statement, ParseError>) -> Result<
    SpStatement,
    SpParseError,
> {
    match r {
        Ok(st) => Ok(st@),
        Err(e) => Err(e@),
    }
}

/// Model of `parse_create_statement_column`: a name followed by a
/// datatype keyword.
pub open spec fn sp_column(toks: Seq<SpTRes>) -> SpParse<SpColumn> {
    let (nm, rest) = sp_expect_ident(toks);
    match nm {
        Err(e) => SpParse { res: Err(e), rest },
        Ok(name) => {
            let (h, rest2) = sp_next_tok(rest);
            match h {
                Err(e) => SpParse { res: Err(e), rest: rest2 },
                Ok(t) => match t.kind {
                    SpTokenKind::Keyword(k) => match Datatype::spec_from_keyword(k) {
                        Some(d) => SpParse {
                            res: Ok(SpColumn { name, data_type: d }),
                            rest: rest2,
                        },
                        None => SpParse { res: Err(SpParseError::DatatypeExpected(t)), rest: rest2 },
                    },
                    _ => SpParse { res: Err(SpParseError::KeywordExpected(t)), rest: rest2 },
                },
            }
        },
    }
}

/// Model of `parse_column_list`.
pub open spec fn sp_column_list(toks: Seq<SpTRes>, f: nat) -> SpParse<Seq<SpColumn>>
    decreases f,
{
    if f == 0 {
        SpParse { res: Err(SpParseError::Eof), rest: toks }
    } else {
        let item = sp_column(toks);
        match item.res {
            Err(e) => SpParse { res: Err(e), rest: item.rest },
            Ok(c) => {
                let (cm, rest2) = sp_consume_symbol(item.rest, Symbol::Comma);
                match cm {
                    Err(err) => SpParse { res: Err(err), rest: rest2 },
                    Ok(true) => {
                        let more = sp_column_list(rest2, (f - 1) as nat);
                        match more.res {
                            Err(err) => SpParse { res: Err(err), rest: more.rest },
                            Ok(cs) => SpParse { res: Ok(seq![c] + cs), rest: more.rest },
                        }
                    },
                    Ok(false) => SpParse { res: Ok(seq![c]), rest: rest2 },
                }
            },
        }
    }
}

/// Model of `parse_ident_list`.
pub open spec fn sp_ident_list(toks: Seq<SpTRes>, f: nat) -> SpParse<Seq<Seq<char>>>
    decreases f,
{
    if f == 0 {
        SpParse { res: Err(SpParseError::Eof), rest: toks }
    } else {
        let (nm, rest) = sp_expect_ident(toks);
        match nm {
            Err(e) => SpParse { res: Err(e), rest },
            Ok(name) => {
                let (cm, rest2) = sp_consume_symbol(rest, Symbol::Comma);
                match cm {
                    Err(err) => SpParse { res: Err(err), rest: rest2 },
                    Ok(true) => {
                        let more = sp_ident_list(rest2, (f - 1) as nat);
                        match more.res {
                            Err(err) => SpParse { res: Err(err), rest: more.rest },
                            Ok(ns) => SpParse { res: Ok(seq![name] + ns), rest: more.rest },
                        }
                    },
                    Ok(false) => SpParse { res: Ok(seq![name]), rest: rest2 },
                }
            },
        }
    }
}

/// Model of `parse_alter_type`: ADD, DROP, MODIFY or RENAME, each on
/// one COLUMN.
pub open spec fn sp_alter_op(toks: Seq<SpTRes>) -> SpParse<SpAlterType> {
    let (kres, rest) = sp_expect_keyword_kind(toks);
    match kres {
        Err(e) => SpParse { res: Err(e), rest },
        Ok(k) => if k == Keyword::Add {
            let (c, rest2) = sp_expect_keyword(rest, Keyword::Column);
            match c {
                Err(e) => SpParse { res: Err(e), rest: rest2 },
                Ok(_) => {
                    let col = sp_column(rest2);
                    match col.res {
                        Err(e) => SpParse { res: Err(e), rest: col.rest },
                        Ok(cd) => SpParse { res: Ok(SpAlterType::Add(cd)), rest: col.rest },
                    }
                },
            }
        } else if k == Keyword::Drop {
            let (c, rest2) = sp_expect_keyword(rest, Keyword::Column);
            match c {
                Err(e) => SpParse { res: Err(e), rest: rest2 },
                Ok(_) => {
                    let (nm, rest3) = sp_expect_ident(rest2);
                    match nm {
                        Err(e) => SpParse { res: Err(e), rest: rest3 },
                        Ok(name) => SpParse { res: Ok(SpAlterType::Drop(name)), rest: rest3 },
                    }
                },
            }
        } else if k == Keyword::Modify {
            let (c, rest2) = sp_expect_keyword(rest, Keyword::Column);
            match c {
                Err(e) => SpParse { res: Err(e), rest: rest2 },
                Ok(_) => {
                    let col = sp_column(rest2);
                    match col.res {
                        Err(e) => SpParse { res: Err(e), rest: col.rest },
                        Ok(cd) => SpParse { res: Ok(SpAlterType::Modify(cd)), rest: col.rest },
                    }
                },
            }
        } else if k == Keyword::Rename {
            let (c, rest2) = sp_expect_keyword(rest, Keyword::Column);
            match c {
                Err(e) => SpParse { res: Err(e), rest: rest2 },
                Ok(_) => {
                    let (nm, rest3) = sp_expect_ident(rest2);
                    match nm {
                        Err(e) => SpParse { res: Err(e), rest: rest3 },
                        Ok(from_name) => {
                            let (t2, rest4) = sp_expect_keyword(rest3, Keyword::To);
                            match t2 {
                                Err(e) => SpParse { res: Err(e), rest: rest4 },
                                Ok(_) => {
                                    let (nm2, rest5) = sp_expect_ident(rest4);
                                    match nm2 {
                                        Err(e) => SpParse { res: Err(e), rest: rest5 },
                                        Ok(to_name) => SpParse {
                                            res: Ok(
                                                SpAlterType::Rename { from: from_name, to: to_name },
                                            ),
                                            rest: rest5,
                                        },
                                    }
                                },
                            }
                        },
                    }
                },
            }
        } else {
            SpParse {
                res: Err(
                    SpParseError::UnexpectedKeyword {
                        found: k,
                        allowed: seq![
                            Keyword::Add,
                            Keyword::Drop,
                            Keyword::Modify,
                            Keyword::Rename,
                        ],
                    },
                ),
                rest,
            }
        },
    }
}

/// Model of `parse_alter_list`.
pub open spec fn sp_alter_list(toks: Seq<SpTRes>, f: nat) -> SpParse<Seq<SpAlterType>>
    decreases f,
{
    if f == 0 {
        SpParse { res: Err(SpParseError::Eof), rest: toks }
    } else {
        let item = sp_alter_op(toks);
        match item.res {
            Err(e) => SpParse { res: Err(e), rest: item.rest },
            Ok(a) => {
                let (cm, rest2) = sp_consume_symbol(item.rest, Symbol::Comma);
                match cm {
                    Err(err) => SpParse { res: Err(err), rest: rest2 },
                    Ok(true) => {
                        let more = sp_alter_list(rest2, (f - 1) as nat);
                        match more.res {
                            Err(err) => SpParse { res: Err(err), rest: more.rest },
                            Ok(ops) => SpParse { res: Ok(seq![a] + ops), rest: more.rest },
                        }
                    },
                    Ok(false) => SpParse { res: Ok(seq![a]), rest: rest2 },
                }
            },
        }
    }
}

/// Model of `parse_update_set`: `column = expression`.
pub open spec fn sp_update_set(toks: Seq<SpTRes>, f: nat) -> SpParse<SpUpdateSet>
    decreases f,
{
    if f == 0 {
        SpParse { res: Err(SpParseError::Eof), rest: toks }
    } else {
        let (nm, rest) = sp_expect_ident(toks);
        match nm {
            Err(e) => SpParse { res: Err(e), rest },
            Ok(name) => {
                let (eq, rest2) = sp_expect_symbol(rest, Symbol::Equal);
                match eq {
                    Err(e) => SpParse { res: Err(e), rest: rest2 },
                    Ok(_) => {
                        let val = sp_expr(rest2, 5, (f - 1) as nat);
                        match val.res {
                            Err(e) => SpParse { res: Err(e), rest: val.rest },
                            Ok(v) => SpParse {
                                res: Ok(SpUpdateSet { column: name, value: v }),
                                rest: val.rest,
                            },
                        }
                    },
                }
            },
        }
    }
}

/// Model of `parse_update_list`.
pub open spec fn sp_update_list(toks: Seq<SpTRes>, f: nat) -> SpParse<Seq<SpUpdateSet>>
    decreases f,
{
    if f == 0 {
        SpParse { res: Err(SpParseError::Eof), rest: toks }
    } else {
        let item = sp_update_set(toks, (f - 1) as nat);
        match item.res {
            Err(e) => SpParse { res: Err(e), rest: item.rest },
            Ok(u) => {
                let (cm, rest2) = sp_consume_symbol(item.rest, Symbol::Comma);
                match cm {
                    Err(err) => SpParse { res: Err(err), rest: rest2 },
                    Ok(true) => {
                        let more = sp_update_list(rest2, (f - 1) as nat);
                        match more.res {
                            Err(err) => SpParse { res: Err(err), rest: more.rest },
                            Ok(us) => SpParse { res: Ok(seq![u] + us), rest: more.rest },
                        }
                    },
                    Ok(false) => SpParse { res: Ok(seq![u]), rest: rest2 },
                }
            },
        }
    }
}

/// Model of `parse_predicate`: an optional WHERE clause.
pub open spec fn sp_predicate(toks: Seq<SpTRes>, f: nat) -> SpParse<Option<SpExpr>>
    decreases f,
{
    if f == 0 {
        SpParse { res: Err(SpParseError::Eof), rest: toks }
    } else {
        let (c, rest) = sp_consume_keyword(toks, Keyword::Where);
        match c {
            Err(e) => SpParse { res: Err(e), rest },
            Ok(true) => {
                let pred = sp_expr(rest, 5, (f - 1) as nat);
                match pred.res {
                    Err(e) => SpParse { res: Err(e), rest: pred.rest },
                    Ok(e) => SpParse { res: Ok(Some(e)), rest: pred.rest },
                }
            },
            Ok(false) => SpParse { res: Ok(None), rest },
        }
    }
}

/// Model of `parse_create_statement`:
/// `TABLE ident ( column-def {, column-def} )`.
pub open spec fn sp_create(toks: Seq<SpTRes>, f: nat) -> SpParse<SpStatement>
    decreases f,
{
    if f == 0 {
        SpParse { res: Err(SpParseError::Eof), rest: toks }
    } else {
        let (tb, rest) = sp_expect_keyword(toks, Keyword::Table);
        match tb {
            Err(e) => SpParse { res: Err(e), rest },
            Ok(_) => {
                let (nm, rest2) = sp_expect_ident(rest);
                match nm {
                    Err(e) => SpParse { res: Err(e), rest: rest2 },
                    Ok(name) => {
                        let (op, rest3) = sp_expect_symbol(rest2, Symbol::OpenParanthesis);
                        match op {
                            Err(e) => SpParse { res: Err(e), rest: rest3 },
                            Ok(_) => {
                                let cols = sp_column_list(rest3, (f - 1) as nat);
                                match cols.res {
                                    Err(e) => SpParse { res: Err(e), rest: cols.rest },
                                    Ok(cs) => {
                                        let (cp, rest4) = sp_expect_symbol(
                                            cols.rest,
                                            Symbol::CloseParanthesis,
                                        );
                                        match cp {
                                            Err(e) => SpParse { res: Err(e), rest: rest4 },
                                            Ok(_) => SpParse {
                                                res: Ok(
                                                    SpStatement::Create {
                                                        table_name: name,
                                                        columns: cs,
                                                    },
                                                ),
                                                rest: rest4,
                                            },
                                        }
                                    },
                                }
                            },
                        }
                    },
                }
            },
        }
    }
}

/// Model of `parse_alter_statement`: `TABLE ident alter-op {, alter-op}`.
pub open spec fn sp_alter(toks: Seq<SpTRes>, f: nat) -> SpParse<SpStatement>
    decreases f,
{
    if f == 0 {
        SpParse { res: Err(SpParseError::Eof), rest: toks }
    } else {
        let (tb, rest) = sp_expect_keyword(toks, Keyword::Table);
        match tb {
            Err(e) => SpParse { res: Err(e), rest },
            Ok(_) => {
                let (nm, rest2) = sp_expect_ident(rest);
                match nm {
                    Err(e) => SpParse { res: Err(e), rest: rest2 },
                    Ok(name) => {
                        let ops = sp_alter_list(rest2, (f - 1) as nat);
                        match ops.res {
                            Err(e) => SpParse { res: Err(e), rest: ops.rest },
                            Ok(alts) => SpParse {
                                res: Ok(SpStatement::Alter { table_name: name, alter_types: alts }),
                                rest: ops.rest,
                            },
                        }
                    },
                }
            },
        }
    }
}

/// Model of `parse_drop_statement`: `TABLE ident`.
pub open spec fn sp_drop(toks: Seq<SpTRes>) -> SpParse<SpStatement> {
    let (tb, rest) = sp_expect_keyword(toks, Keyword::Table);
    match tb {
        Err(e) => SpParse { res: Err(e), rest },
        Ok(_) => {
            let (nm, rest2) = sp_expect_ident(rest);
            match nm {
                Err(e) => SpParse { res: Err(e), rest: rest2 },
                Ok(name) => SpParse { res: Ok(SpStatement::Drop { table_name: name }), rest: rest2 },
            }
        },
    }
}

/// Model of `parse_insert_statement`:
/// `INTO ident [ ( ident {, ident} ) ] VALUES ( expr {, expr} )`.
pub open spec fn sp_insert(toks: Seq<SpTRes>, f: nat) -> SpParse<SpStatement>
    decreases f,
{
    if f == 0 {
        SpParse { res: Err(SpParseError::Eof), rest: toks }
    } else {
        let (into, rest) = sp_expect_keyword(toks, Keyword::Into);
        match into {
            Err(e) => SpParse { res: Err(e), rest },
            Ok(_) => {
                let (nm, rest2) = sp_expect_ident(rest);
                match nm {
                    Err(e) => SpParse { res: Err(e), rest: rest2 },
                    Ok(name) => {
                        let (op, rest3) = sp_consume_symbol(rest2, Symbol::OpenParanthesis);
                        match op {
                            Err(e) => SpParse { res: Err(e), rest: rest3 },
                            Ok(has_cols) => {
                                let after_cols: SpParse<Option<Seq<Seq<char>>>> = if has_cols {
                                    let names = sp_ident_list(rest3, (f - 1) as nat);
                                    match names.res {
                                        Err(e) => SpParse { res: Err(e), rest: names.rest },
                                        Ok(ns) => {
                                            let (cp, rest4) = sp_expect_symbol(
                                                names.rest,
                                                Symbol::CloseParanthesis,
                                            );
                                            match cp {
                                                Err(e) => SpParse { res: Err(e), rest: rest4 },
                                                Ok(_) => SpParse { res: Ok(Some(ns)), rest: rest4 },
                                            }
                                        },
                                    }
                                } else {
                                    SpParse { res: Ok(None), rest: rest3 }
                                };
                                match after_cols.res {
                                    Err(e) => SpParse { res: Err(e), rest: after_cols.rest },
                                    Ok(cols) => {
                                        let (vk, rest5) = sp_expect_keyword(
                                            after_cols.rest,
                                            Keyword::Values,
                                        );
                                        match vk {
                                            Err(e) => SpParse { res: Err(e), rest: rest5 },
                                            Ok(_) => {
                                                let (op2, rest6) = sp_expect_symbol(
                                                    rest5,
                                                    Symbol::OpenParanthesis,
                                                );
                                                match op2 {
                                                    Err(e) => SpParse { res: Err(e), rest: rest6 },
                                                    Ok(_) => {
                                                        let vals = sp_expr_list(
                                                            rest6,
                                                            (f - 1) as nat,
                                                        );
                                                        match vals.res {
                                                            Err(e) => SpParse {
                                                                res: Err(e),
                                                                rest: vals.rest,
                                                            },
                                                            Ok(vs) => {
                                                                let (cp2, rest7) = sp_expect_symbol(
                                                                    vals.rest,
                                                                    Symbol::CloseParanthesis,
                                                                );
                                                                match cp2 {
                                                                    Err(e) => SpParse {
                                                                        res: Err(e),
                                                                        rest: rest7,
                                                                    },
                                                                    Ok(_) => SpParse {
                                                                        res: Ok(
                                                                            SpStatement::Insert {
                                                                                table_name: name,
                                                                                columns: cols,
                                                                                values: vs,
                                                                            },
                                                                        ),
                                                                        rest: rest7,
                                                                    },
                                                                }
                                                            },
                                                        }
                                                    },
                                                }
                                            },
                                        }
                                    },
                                }
                            },
                        }
                    },
                }
            },
        }
    }
}

/// Model of `parse_select_statement`:
/// `expr {, expr} [FROM ident] [WHERE expr]`.
pub open spec fn sp_select(toks: Seq<SpTRes>, f: nat) -> SpParse<SpStatement>
    decreases f,
{
    if f == 0 {
        SpParse { res: Err(SpParseError::Eof), rest: toks }
    } else {
        let exprs = sp_expr_list(toks, (f - 1) as nat);
        match exprs.res {
            Err(e) => SpParse { res: Err(e), rest: exprs.rest },
            Ok(es) => {
                let (fr, rest2) = sp_consume_keyword(exprs.rest, Keyword::From);
                match fr {
                    Err(e) => SpParse { res: Err(e), rest: rest2 },
                    Ok(has_from) => {
                        let after_from: SpParse<Option<Seq<char>>> = if has_from {
                            let (nm, rest3) = sp_expect_ident(rest2);
                            match nm {
                                Err(e) => SpParse { res: Err(e), rest: rest3 },
                                Ok(name) => SpParse { res: Ok(Some(name)), rest: rest3 },
                            }
                        } else {
                            SpParse { res: Ok(None), rest: rest2 }
                        };
                        match after_from.res {
                            Err(e) => SpParse { res: Err(e), rest: after_from.rest },
                            Ok(from) => {
                                let pred = sp_predicate(after_from.rest, (f - 1) as nat);
                                match pred.res {
                                    Err(e) => SpParse { res: Err(e), rest: pred.rest },
                                    Ok(pd) => SpParse {
                                        res: Ok(
                                            SpStatement::Select {
                                                select_expressions: es,
                                                from: from,
                                                predicate: pd,
                                            },
                                        ),
                                        rest: pred.rest,
                                    },
                                }
                            },
                        }
                    },
                }
            },
        }
    }
}

/// Model of `parse_update_statement`:
/// `ident SET ident = expr {, ident = expr} [WHERE expr]`.
pub open spec fn sp_update(toks: Seq<SpTRes>, f: nat) -> SpParse<SpStatement>
    decreases f,
{
    if f == 0 {
        SpParse { res: Err(SpParseError::Eof), rest: toks }
    } else {
        let (nm, rest) = sp_expect_ident(toks);
        match nm {
            Err(e) => SpParse { res: Err(e), rest },
            Ok(name) => {
                let (st, rest2) = sp_expect_keyword(rest, Keyword::SetClause);
                match st {
                    Err(e) => SpParse { res: Err(e), rest: rest2 },
                    Ok(_) => {
                        let sets = sp_update_list(rest2, (f - 1) as nat);
                        match sets.res {
                            Err(e) => SpParse { res: Err(e), rest: sets.rest },
                            Ok(us) => {
                                let pred = sp_predicate(sets.rest, (f - 1) as nat);
                                match pred.res {
                                    Err(e) => SpParse { res: Err(e), rest: pred.rest },
                                    Ok(pd) => SpParse {
                                        res: Ok(
                                            SpStatement::Update {
                                                table_name: name,
                                                set: us,
                                                predicate: pd,
                                            },
                                        ),
                                        rest: pred.rest,
                                    },
                                }
                            },
                        }
                    },
                }
            },
        }
    }
}

/// Model of `parse_delete_statement`: `FROM ident [WHERE expr]`.
pub open spec fn sp_delete(toks: Seq<SpTRes>, f: nat) -> SpParse<SpStatement>
    decreases f,
{
    if f == 0 {
        SpParse { res: Err(SpParseError::Eof), rest: toks }
    } else {
        let (fr, rest) = sp_expect_keyword(toks, Keyword::From);
        match fr {
            Err(e) => SpParse { res: Err(e), rest },
            Ok(_) => {
                let (nm, rest2) = sp_expect_ident(rest);
                match nm {
                    Err(e) => SpParse { res: Err(e), rest: rest2 },
                    Ok(name) => {
                        let pred = sp_predicate(rest2, (f - 1) as nat);
                        match pred.res {
                            Err(e) => SpParse { res: Err(e), rest: pred.rest },
                            Ok(pd) => SpParse {
                                res: Ok(
                                    SpStatement::Delete { table_name: name, predicate: pd },
                                ),
                                rest: pred.rest,
                            },
                        }
                    },
                }
            },
        }
    }
}

/// Model of panic-mode recovery: discard tokens through the next
/// semicolon, a lexer error, or the end of input.
pub open spec fn sp_resync(toks: Seq<SpTRes>) -> Seq<SpTRes>
    decreases toks.len(),
{
    if toks.len() == 0 {
        toks
    } else {
        match toks[0] {
            Err(_) => toks.drop_first(),
            Ok(t) => if t.kind == SpTokenKind::Symbol(Symbol::Semicolon) {
                toks.drop_first()
            } else {
                sp_resync(toks.drop_first())
            },
        }
    }
}

/// Model of one `Parser::next` call: dispatch on the leading keyword,
/// require the trailing semicolon, and on any error resynchronize
/// through the next semicolon.
pub open spec fn sp_step(toks: Seq<SpTRes>, f: nat) -> (
    Option<Result<SpStatement, SpParseError>>,
    Seq<SpTRes>,
) {
    if toks.len() == 0 {
        (None, toks)
    } else {
        let (kres, rest) = sp_expect_keyword_kind(toks);
        match kres {
            Err(e) => (Some(Err(e)), sp_resync(rest)),
            Ok(kw) => {
                let st: Option<SpParse<SpStatement>> = if kw == Keyword::Create {
                    Some(sp_create(rest, (f - 1) as nat))
                } else if kw == Keyword::Alter {
                    Some(sp_alter(rest, (f - 1) as nat))
                } else if kw == Keyword::Drop {
                    Some(sp_drop(rest))
                } else if kw == Keyword::Insert {
                    Some(sp_insert(rest, (f - 1) as nat))
                } else if kw == Keyword::Select {
                    Some(sp_select(rest, (f - 1) as nat))
                } else if kw == Keyword::Update {
                    Some(sp_update(rest, (f - 1) as nat))
                } else if kw == Keyword::Delete {
                    Some(sp_delete(rest, (f - 1) as nat))
                } else {
                    None
                };
                match st {
                    None => (Some(Err(SpParseError::UnexpectedStatement)), sp_resync(rest)),
                    Some(sp) => match sp.res {
                        Err(e) => (Some(Err(e)), sp_resync(sp.rest)),
                        Ok(stmt) => {
                            let (semi, rest2) = sp_expect_symbol(sp.rest, Symbol::Semicolon);
                            match semi {
                                Ok(_) => (Some(Ok(stmt)), rest2),
                                Err(e) => (Some(Err(e)), sp_resync(rest2)),
                            }
                        },
                    },
                }
            },
        }
    }
}

/// The recursive-descent parser over a rewindable token stream.
pub struct Parser {
    tokens: BufferedLayer<Lexer, Token>,
}

impl Parser {
    /// The lexer outputs not yet consumed.
    pub closed spec fn remaining(&self) -> Seq<SpTRes> {
        self.tokens.remaining()
    }

    /// The underlying stream is well formed.
    pub closed spec fn wf(&self) -> bool {
        self.tokens.wf()
    }

    /// A parser over the given token stream.
    pub fn new(tokens: BufferedLayer<Lexer, Token>) -> (p: Parser)
        requires
            tokens.wf(),
        ensures
            p.wf(),
            p.remaining() == tokens.remaining(),
    {
        Parser { tokens }
    }

    /// Take the next token; the end of input and lexer errors become
    /// `ParseError`s.
    pub fn get_next_token(&mut self) -> (r: Result<Token, ParseError>)
        requires
            old(self).wf(),
        ensures
            final(self).wf(),
            tok_res_view(r) == sp_next_tok(old(self).remaining()).0,
            final(self).remaining() == sp_next_tok(old(self).remaining()).1,
            final(self).remaining().len() <= old(self).remaining().len(),
            r is Ok ==> final(self).remaining().len() < old(self).remaining().len(),
    {
        match self.tokens.next() {
            None => Err(ParseError::Eof),
            Some(Ok(t)) => Ok(t),
            Some(Err(e)) => Err(ParseError::Lex(e)),
        }
    }

    /// Require the next token to be the given symbol.
    pub fn expect_symbol(&mut self, sym: Symbol) -> (r: Result<Token, ParseError>)
        requires
            old(self).wf(),
        ensures
            final(self).wf(),
            tok_res_view(r) == sp_expect_symbol(old(self).remaining(), sym).0,
            final(self).remaining() == sp_expect_symbol(old(self).remaining(), sym).1,
            final(self).remaining().len() <= old(self).remaining().len(),
            r is Ok ==> final(self).remaining().len() < old(self).remaining().len(),
    {
        match self.get_next_token() {
            Err(ParseError::Eof) => Err(
                ParseError::UnexpectedEof { expected: TokenKind::Symbol(sym) },
            ),
            Err(e) => Err(e),
            Ok(t) => {
                let matched = match &t.kind {
                    TokenKind::Symbol(s) => *s == sym,
                    _ => false,
                };
                if matched {
                    Ok(t)
                } else {
                    Err(ParseError::Unexpected { found: t, expected: TokenKind::Symbol(sym) })
                }
            },
        }
    }

    /// Require the next token to be the given keyword.
    pub fn expect_keyword(&mut self, kw: Keyword) -> (r: Result<Token, ParseError>)
        requires
            old(self).wf(),
        ensures
            final(self).wf(),
            tok_res_view(r) == sp_expect_keyword(old(self).remaining(), kw).0,
            final(self).remaining() == sp_expect_keyword(old(self).remaining(), kw).1,
            final(self).remaining().len() <= old(self).remaining().len(),
            r is Ok ==> final(self).remaining().len() < old(self).remaining().len(),
    {
        match self.get_next_token() {
            Err(ParseError::Eof) => Err(
                ParseError::UnexpectedEof { expected: TokenKind::Keyword(kw) },
            ),
            Err(e) => Err(e),
            Ok(t) => {
                let matched = match &t.kind {
                    TokenKind::Keyword(k) => *k == kw,
                    _ => false,
                };
                if matched {
                    Ok(t)
                } else {
                    Err(ParseError::Unexpected { found: t, expected: TokenKind::Keyword(kw) })
                }
            },
        }
    }

    /// Require the next token to be a keyword; return which one.
    pub fn expect_keyword_kind(&mut self) -> (r: Result<Keyword, ParseError>)
        requires
            old(self).wf(),
        ensures
            final(self).wf(),
            (match r {
                Ok(k) => sp_expect_keyword_kind(old(self).remaining()).0 == Ok::<
                    Keyword,
                    SpParseError,
                >(k),
                Err(e) => sp_expect_keyword_kind(old(self).remaining()).0 == Err::<
                    Keyword,
                    SpParseError,
                >(e@),
            }),
            final(self).remaining() == sp_expect_keyword_kind(old(self).remaining()).1,
            final(self).remaining().len() <= old(self).remaining().len(),
            r is Ok ==> final(self).remaining().len() < old(self).remaining().len(),
    {
        match self.get_next_token() {
            Err(e) => Err(e),
            Ok(t) => match t.kind {
                TokenKind::Keyword(k) => Ok(k),
                _ => Err(ParseError::KeywordExpected(t)),
            },
        }
    }

    /// Require the next token to be an identifier; return its text.
    pub fn expected_identifier(&mut self) -> (r: Result<String, ParseError>)
        requires
            old(self).wf(),
        ensures
            final(self).wf(),
            (match r {
                Ok(s) => sp_expect_ident(old(self).remaining()).0 == Ok::<
                    Seq<char>,
                    SpParseError,
                >(s@),
                Err(e) => sp_expect_ident(old(self).remaining()).0 == Err::<
                    Seq<char>,
                    SpParseError,
                >(e@),
            }),
            final(self).remaining() == sp_expect_ident(old(self).remaining()).1,
            final(self).remaining().len() <= old(self).remaining().len(),
            r is Ok ==> final(self).remaining().len() < old(self).remaining().len(),
    {
        match self.get_next_token() {
            Err(e) => Err(e),
            Ok(t) => match t.kind {
                TokenKind::Ident(s) => Ok(s),
                _ => Err(ParseError::IdentExpected(t)),
            },
        }
    }

    /// Consume the next token exactly when it is the given symbol.
    pub fn consume_if_symbol(&mut self, sym: Symbol) -> (r: Result<bool, ParseError>)
        requires
            old(self).wf(),
        ensures
            final(self).wf(),
            (match r {
                Ok(b) => sp_consume_symbol(old(self).remaining(), sym).0 == Ok::<
                    bool,
                    SpParseError,
                >(b),
                Err(e) => sp_consume_symbol(old(self).remaining(), sym).0 == Err::<
                    bool,
                    SpParseError,
                >(e@),
            }),
            final(self).remaining() == sp_consume_symbol(old(self).remaining(), sym).1,
            final(self).remaining().len() <= old(self).remaining().len(),
            r matches Ok(b) && b ==> final(self).remaining().len() < old(self).remaining().len(),
    {
        match self.get_next_token() {
            Err(ParseError::Eof) => Ok(false),
            Err(e) => Err(e),
            Ok(t) => {
                let matched = match &t.kind {
                    TokenKind::Symbol(s) => *s == sym,
                    _ => false,
                };
                if matched {
                    Ok(true)
                } else {
                    proof {
                        assert(old(self).remaining()[0] == Ok::<SpToken, LexError>(t@));
                        assert(seq![Ok::<SpToken, LexError>(t@)]
                            + old(self).remaining().drop_first() =~= old(self).remaining());
                    }
                    self.tokens.rewind(t);
                    Ok(false)
                }
            },
        }
    }

    /// Consume the next token exactly when it is the given keyword.
    pub fn consume_if_keyword(&mut self, kw: Keyword) -> (r: Result<bool, ParseError>)
        requires
            old(self).wf(),
        ensures
            final(self).wf(),
            (match r {
                Ok(b) => sp_consume_keyword(old(self).remaining(), kw).0 == Ok::<
                    bool,
                    SpParseError,
                >(b),
                Err(e) => sp_consume_keyword(old(self).remaining(), kw).0 == Err::<
                    bool,
                    SpParseError,
                >(e@),
            }),
            final(self).remaining() == sp_consume_keyword(old(self).remaining(), kw).1,
            final(self).remaining().len() <= old(self).remaining().len(),
            r matches Ok(b) && b ==> final(self).remaining().len() < old(self).remaining().len(),
    {
        match self.get_next_token() {
            Err(ParseError::Eof) => Ok(false),
            Err(e) => Err(e),
            Ok(t) => {
                let matched = match &t.kind {
                    TokenKind::Keyword(k) => *k == kw,
                    _ => false,
                };
                if matched {
                    Ok(true)
                } else {
                    proof {
                        assert(old(self).remaining()[0] == Ok::<SpToken, LexError>(t@));
                        assert(seq![Ok::<SpToken, LexError>(t@)]
                            + old(self).remaining().drop_first() =~= old(self).remaining());
                    }
                    self.tokens.rewind(t);
                    Ok(false)
                }
            },
        }
    }
}

impl Parser {
    /// Parse one factor: a literal, an identifier or function call, a
    /// parenthesized expression, or the wildcard star.
    pub fn parse_factor(&mut self) -> (r: Result<Expression, ParseError>)
        requires
            old(self).wf(),
        ensures
            final(self).wf(),
            final(self).remaining().len() <= old(self).remaining().len(),
            r is Ok ==> final(self).remaining().len() < old(self).remaining().len(),
            forall|f: nat|
                f > 8 * old(self).remaining().len() + 2 ==> sp_factor(old(self).remaining(), f)
                    == (SpParse::<SpExpr> { res: expr_res_view(r), rest: final(self).remaining() }),
        decreases self.remaining().len(), 2int,
    {
        let ghost toks = old(self).remaining();
        let ghost n = toks.len();
        let t = match self.get_next_token() {
            Err(e) => {
                proof {
                    assert forall|f: nat| f > 8 * n + 2 implies sp_factor(toks, f)
                        == (SpParse::<SpExpr> { res: Err(e@), rest: final(self).remaining() }) by {
                        assert(f > 0);
                    }
                }
                return Err(e);
            },
            Ok(t) => t,
        };
        let ghost rest0 = self.remaining();
        match t {
            Token { kind: TokenKind::Literal(l), .. } => {
                let r = Ok(Expression::Literal(l));
                proof {
                    assert forall|f: nat| f > 8 * n + 2 implies sp_factor(toks, f)
                        == (SpParse::<SpExpr> { res: expr_res_view(r), rest: final(self).remaining() }) by {
                        assert(f > 0);
                    }
                }
                r
            },
            Token { kind: TokenKind::Ident(name), .. } => {
                let ghost gname = name@;
                match self.consume_if_symbol(Symbol::OpenParanthesis) {
                    Err(e) => {
                        proof {
                            assert forall|f: nat| f > 8 * n + 2 implies sp_factor(toks, f)
                                == (SpParse::<SpExpr> { res: Err(e@), rest: final(self).remaining() }) by {
                                assert(f > 0);
                            }
                        }
                        Err(e)
                    },
                    Ok(true) => {
                        let ghost rest2 = self.remaining();
                        match self.parse_expression_list() {
                            Err(e) => {
                                proof {
                                    assert forall|f: nat| f > 8 * n + 2 implies sp_factor(toks, f)
                                        == (SpParse::<SpExpr> {
                                        res: Err(e@),
                                        rest: final(self).remaining(),
                                    }) by {
                                        let args = sp_expr_list(rest2, (f - 1) as nat);
                                        assert(args == SpParse::<Seq<SpExpr>> {
                                            res: Err(e@),
                                            rest: final(self).remaining(),
                                        });
                                    }
                                }
                                Err(e)
                            },
                            Ok(args) => {
                                let ghost gargs = crate::ast::spec_exprs_view(args@);
                                let ghost rest3 = self.remaining();
                                match self.expect_symbol(Symbol::CloseParanthesis) {
                                    Err(e) => {
                                        proof {
                                            assert forall|f: nat| f > 8 * n + 2 implies sp_factor(
                                                toks,
                                                f,
                                            ) == (SpParse::<SpExpr> {
                                                res: Err(e@),
                                                rest: final(self).remaining(),
                                            }) by {
                                                let a = sp_expr_list(rest2, (f - 1) as nat);
                                                assert(a == SpParse::<Seq<SpExpr>> {
                                                    res: Ok(gargs),
                                                    rest: rest3,
                                                });
                                            }
                                        }
                                        Err(e)
                                    },
                                    Ok(_) => {
                                        let r = Ok(
                                            Expression::FunctionCall { ident: name, arguments: args },
                                        );
                                        proof {
                                            assert forall|f: nat| f > 8 * n + 2 implies sp_factor(
                                                toks,
                                                f,
                                            ) == (SpParse::<SpExpr> {
                                                res: expr_res_view(r),
                                                rest: final(self).remaining(),
                                            }) by {
                                                let a = sp_expr_list(rest2, (f - 1) as nat);
                                                assert(a == SpParse::<Seq<SpExpr>> {
                                                    res: Ok(gargs),
                                                    rest: rest3,
                                                });
                                            }
                                        }
                                        r
                                    },
                                }
                            },
                        }
                    },
                    Ok(false) => {
                        let r = Ok(Expression::Identifier(name));
                        proof {
                            assert forall|f: nat| f > 8 * n + 2 implies sp_factor(toks, f)
                                == (SpParse::<SpExpr> {
                                res: expr_res_view(r),
                                rest: final(self).remaining(),
                            }) by {
                                assert(f > 0);
                            }
                        }
                        r
                    },
                }
            },
            t2 => {
                let is_open = matches!(&t2.kind, TokenKind::Symbol(Symbol::OpenParanthesis));
                let is_star = matches!(&t2.kind, TokenKind::Symbol(Symbol::Star));
                if is_open {
                    match self.parse_expression() {
                        Err(e) => {
                            proof {
                                assert forall|f: nat| f > 8 * n + 2 implies sp_factor(toks, f)
                                    == (SpParse::<SpExpr> {
                                    res: Err(e@),
                                    rest: final(self).remaining(),
                                }) by {
                                    let inner = sp_expr(rest0, 5, (f - 1) as nat);
                                    assert(inner == SpParse::<SpExpr> {
                                        res: Err(e@),
                                        rest: final(self).remaining(),
                                    });
                                }
                            }
                            Err(e)
                        },
                        Ok(inner) => {
                            let ghost ginner = inner@;
                            let ghost rest3 = self.remaining();
                            match self.expect_symbol(Symbol::CloseParanthesis) {
                                Err(e) => {
                                    proof {
                                        assert forall|f: nat| f > 8 * n + 2 implies sp_factor(
                                            toks,
                                            f,
                                        ) == (SpParse::<SpExpr> {
                                            res: Err(e@),
                                            rest: final(self).remaining(),
                                        }) by {
                                            let a = sp_expr(rest0, 5, (f - 1) as nat);
                                            assert(a == SpParse::<SpExpr> {
                                                res: Ok(ginner),
                                                rest: rest3,
                                            });
                                        }
                                    }
                                    Err(e)
                                },
                                Ok(_) => {
                                    let r = Ok(inner);
                                    proof {
                                        assert forall|f: nat| f > 8 * n + 2 implies sp_factor(
                                            toks,
                                            f,
                                        ) == (SpParse::<SpExpr> {
                                            res: expr_res_view(r),
                                            rest: final(self).remaining(),
                                        }) by {
                                            let a = sp_expr(rest0, 5, (f - 1) as nat);
                                            assert(a == SpParse::<SpExpr> {
                                                res: Ok(ginner),
                                                rest: rest3,
                                            });
                                        }
                                    }
                                    r
                                },
                            }
                        },
                    }
                } else if is_star {
                    let r = Ok(Expression::Wildcard);
                    proof {
                        assert forall|f: nat| f > 8 * n + 2 implies sp_factor(toks, f)
                            == (SpParse::<SpExpr> { res: expr_res_view(r), rest: final(self).remaining() }) by {
                            assert(f > 0);
                        }
                    }
                    r
                } else {
                    proof {
                        assert(toks[0] == Ok::<SpToken, LexError>(t2@));
                        assert(seq![Ok::<SpToken, LexError>(t2@)] + toks.drop_first() =~= toks);
                    }
                    self.tokens.rewind(t2);
                    proof {
                        assert forall|f: nat| f > 8 * n + 2 implies sp_factor(toks, f)
                            == (SpParse::<SpExpr> {
                            res: Err(SpParseError::NotAnExpression),
                            rest: final(self).remaining(),
                        }) by {
                            assert(f > 0);
                        }
                    }
                    Err(ParseError::NotAnExpression)
                }
            },
        }
    }

    /// Parse an expression of the given tier: a leading NOT negates the
    /// next tier's parse; otherwise a left operand at the next tier is
    /// extended by this tier's operator chain.
    pub fn parse_expression_of(&mut self, precedence: u8) -> (r: Result<Expression, ParseError>)
        requires
            old(self).wf(),
        ensures
            final(self).wf(),
            final(self).remaining().len() <= old(self).remaining().len(),
            r is Ok ==> final(self).remaining().len() < old(self).remaining().len(),
            forall|f: nat|
                f > 8 * old(self).remaining().len() + precedence + 3 ==> sp_expr(
                    old(self).remaining(),
                    precedence,
                    f,
                ) == (SpParse::<SpExpr> { res: expr_res_view(r), rest: final(self).remaining() }),
        decreases self.remaining().len(), 3int + precedence as int,
    {
        let ghost toks = old(self).remaining();
        let ghost n = toks.len();
        let ghost p = precedence;
        if precedence == 0 {
            let r = self.parse_factor();
            proof {
                assert forall|f: nat| f > 8 * n + p + 3 implies sp_expr(toks, p, f)
                    == (SpParse::<SpExpr> { res: expr_res_view(r), rest: final(self).remaining() }) by {
                    let sub = sp_factor(toks, (f - 1) as nat);
                    assert(sub == SpParse::<SpExpr> {
                        res: expr_res_view(r),
                        rest: final(self).remaining(),
                    });
                }
            }
            return r;
        }
        match self.consume_if_keyword(Keyword::Not) {
            Err(e) => {
                proof {
                    assert forall|f: nat| f > 8 * n + p + 3 implies sp_expr(toks, p, f)
                        == (SpParse::<SpExpr> { res: Err(e@), rest: final(self).remaining() }) by {
                        assert(f > 0);
                    }
                }
                Err(e)
            },
            Ok(true) => {
                let ghost mid = self.remaining();
                match self.parse_expression_of(precedence - 1) {
                    Err(e) => {
                        proof {
                            assert forall|f: nat| f > 8 * n + p + 3 implies sp_expr(toks, p, f)
                                == (SpParse::<SpExpr> { res: Err(e@), rest: final(self).remaining() }) by {
                                let sub = sp_expr(mid, (p - 1) as u8, (f - 1) as nat);
                                assert(sub == SpParse::<SpExpr> {
                                    res: Err(e@),
                                    rest: final(self).remaining(),
                                });
                            }
                        }
                        Err(e)
                    },
                    Ok(inner) => {
                        let ghost ginner = inner@;
                        let r = Ok(Expression::Negation(Box::new(inner)));
                        proof {
                            assert forall|f: nat| f > 8 * n + p + 3 implies sp_expr(toks, p, f)
                                == (SpParse::<SpExpr> {
                                res: expr_res_view(r),
                                rest: final(self).remaining(),
                            }) by {
                                let sub = sp_expr(mid, (p - 1) as u8, (f - 1) as nat);
                                assert(sub == SpParse::<SpExpr> {
                                    res: Ok(ginner),
                                    rest: final(self).remaining(),
                                });
                            }
                        }
                        r
                    },
                }
            },
            Ok(false) => {
                match self.parse_expression_of(precedence - 1) {
                    Err(e) => {
                        proof {
                            assert forall|f: nat| f > 8 * n + p + 3 implies sp_expr(toks, p, f)
                                == (SpParse::<SpExpr> { res: Err(e@), rest: final(self).remaining() }) by {
                                let sub = sp_expr(toks, (p - 1) as u8, (f - 1) as nat);
                                assert(sub == SpParse::<SpExpr> {
                                    res: Err(e@),
                                    rest: final(self).remaining(),
                                });
                            }
                        }
                        Err(e)
                    },
                    Ok(left) => {
                        let ghost gleft = left@;
                        let ghost rem1 = self.remaining();
                        let r = self.parse_binary_chain(left, precedence);
                        proof {
                            assert forall|f: nat| f > 8 * n + p + 3 implies sp_expr(toks, p, f)
                                == (SpParse::<SpExpr> {
                                res: expr_res_view(r),
                                rest: final(self).remaining(),
                            }) by {
                                let sub = sp_expr(toks, (p - 1) as u8, (f - 1) as nat);
                                assert(sub == SpParse::<SpExpr> { res: Ok(gleft), rest: rem1 });
                                let tail = sp_chain(gleft, rem1, p, (f - 1) as nat);
                                assert(tail == SpParse::<SpExpr> {
                                    res: expr_res_view(r),
                                    rest: final(self).remaining(),
                                });
                            }
                        }
                        r
                    },
                }
            },
        }
    }

    /// Fold operators of tier `precedence` and their right operands into
    /// `left`, left-associatively, until the next token does not belong
    /// to this tier (that token is rewound).
    pub fn parse_binary_chain(&mut self, left: Expression, precedence: u8) -> (r: Result<
        Expression,
        ParseError,
    >)
        requires
            old(self).wf(),
            precedence >= 1,
        ensures
            final(self).wf(),
            final(self).remaining().len() <= old(self).remaining().len(),
            forall|f: nat|
                f > 8 * old(self).remaining().len() + precedence + 2 ==> sp_chain(
                    left@,
                    old(self).remaining(),
                    precedence,
                    f,
                ) == (SpParse::<SpExpr> { res: expr_res_view(r), rest: final(self).remaining() }),
        decreases self.remaining().len(), 1int,
    {
        let t = match self.get_next_token() {
            Err(ParseError::Eof) => {
                return Ok(left);
            },
            Err(e) => {
                return Err(e);
            },
            Ok(t) => t,
        };
        let op_opt = match &t.kind {
            TokenKind::Symbol(sy) => BinaryOperator::match_symbol_with_precedence(sy, precedence),
            TokenKind::Keyword(k) => BinaryOperator::match_keyword_with_precedence(k, precedence),
            _ => None,
        };
        let ghost toks = old(self).remaining();
        let ghost gl = left@;
        let ghost n = toks.len();
        let ghost p = precedence;
        proof {
            assert(toks[0] == Ok::<SpToken, LexError>(t@));
            assert(sp_op_at(t@, p) == op_opt);
        }
        match op_opt {
            None => {
                proof {
                    assert(seq![Ok::<SpToken, LexError>(t@)] + toks.drop_first() =~= toks);
                }
                self.tokens.rewind(t);
                proof {
                    assert forall|f: nat| f > 8 * n + p + 2 implies sp_chain(gl, toks, p, f)
                        == (SpParse::<SpExpr> { res: Ok(gl), rest: toks }) by {
                        assert(f > 0);
                    }
                }
                Ok(left)
            },
            Some(op) => {
                let ghost mid = toks.drop_first();
                match self.parse_expression_of(precedence - 1) {
                    Err(e) => {
                        proof {
                            assert forall|f: nat| f > 8 * n + p + 2 implies sp_chain(gl, toks, p, f)
                                == (SpParse::<SpExpr> { res: Err(e@), rest: final(self).remaining() }) by {
                                let sub = sp_expr(mid, (p - 1) as u8, (f - 1) as nat);
                                assert(sub == SpParse::<SpExpr> {
                                    res: Err(e@),
                                    rest: final(self).remaining(),
                                });
                            }
                        }
                        Err(e)
                    },
                    Ok(right) => {
                        let ghost rem1 = self.remaining();
                        let ghost gr = right@;
                        let combined = Expression::Binary {
                            left: Box::new(left),
                            operator: op,
                            right: Box::new(right),
                        };
                        proof {
                            assert(combined@ == SpExpr::Binary {
                                left: Box::new(gl),
                                operator: op,
                                right: Box::new(gr),
                            });
                        }
                        let r = self.parse_binary_chain(combined, precedence);
                        proof {
                            assert forall|f: nat| f > 8 * n + p + 2 implies sp_chain(gl, toks, p, f)
                                == (SpParse::<SpExpr> {
                                res: expr_res_view(r),
                                rest: final(self).remaining(),
                            }) by {
                                let sub = sp_expr(mid, (p - 1) as u8, (f - 1) as nat);
                                assert(sub == SpParse::<SpExpr> { res: Ok(gr), rest: rem1 });
                                let tail = sp_chain(
                                    SpExpr::Binary {
                                        left: Box::new(gl),
                                        operator: op,
                                        right: Box::new(gr),
                                    },
                                    rem1,
                                    p,
                                    (f - 1) as nat,
                                );
                                assert(tail == SpParse::<SpExpr> {
                                    res: expr_res_view(r),
                                    rest: final(self).remaining(),
                                });
                            }
                        }
                        r
                    },
                }
            },
        }
    }

    /// Parse a full expression, starting at the loosest tier.
    pub fn parse_expression(&mut self) -> (r: Result<Expression, ParseError>)
        requires
            old(self).wf(),
        ensures
            final(self).wf(),
            final(self).remaining().len() <= old(self).remaining().len(),
            r is Ok ==> final(self).remaining().len() < old(self).remaining().len(),
            forall|f: nat|
                f > 8 * old(self).remaining().len() + 8 ==> sp_expr(old(self).remaining(), 5, f)
                    == (SpParse::<SpExpr> { res: expr_res_view(r), rest: final(self).remaining() }),
        decreases self.remaining().len(), 9int,
    {
        self.parse_expression_of(BinaryOperator::max_precedence())
    }

    /// Parse a comma-separated expression list.
    pub fn parse_expression_list(&mut self) -> (r: Result<Vec<Expression>, ParseError>)
        requires
            old(self).wf(),
        ensures
            final(self).wf(),
            final(self).remaining().len() <= old(self).remaining().len(),
            r is Ok ==> final(self).remaining().len() < old(self).remaining().len(),
            forall|f: nat|
                f > 8 * old(self).remaining().len() + 10 ==> sp_expr_list(old(self).remaining(), f)
                    == (SpParse::<Seq<SpExpr>> {
                    res: match r {
                        Ok(v) => Ok(crate::ast::spec_exprs_view(v@)),
                        Err(e) => Err(e@),
                    },
                    rest: final(self).remaining(),
                }),
        decreases self.remaining().len(), 10int,
    {
        let ghost toks = old(self).remaining();
        let ghost n = toks.len();
        let first = match self.parse_expression() {
            Err(e) => {
                proof {
                    assert forall|f: nat| f > 8 * n + 10 implies sp_expr_list(toks, f)
                        == (SpParse::<Seq<SpExpr>> { res: Err(e@), rest: final(self).remaining() }) by {
                        let sub = sp_expr(toks, 5, (f - 1) as nat);
                        assert(sub == SpParse::<SpExpr> {
                            res: Err(e@),
                            rest: final(self).remaining(),
                        });
                    }
                }
                return Err(e);
            },
            Ok(e) => e,
        };
        let ghost gfirst = first@;
        let ghost rem1 = self.remaining();
        match self.consume_if_symbol(Symbol::Comma) {
            Err(e) => {
                proof {
                    assert forall|f: nat| f > 8 * n + 10 implies sp_expr_list(toks, f)
                        == (SpParse::<Seq<SpExpr>> { res: Err(e@), rest: final(self).remaining() }) by {
                        let sub = sp_expr(toks, 5, (f - 1) as nat);
                        assert(sub == SpParse::<SpExpr> { res: Ok(gfirst), rest: rem1 });
                    }
                }
                Err(e)
            },
            Ok(true) => {
                let ghost rest2 = self.remaining();
                match self.parse_expression_list() {
                    Err(e) => {
                        proof {
                            assert forall|f: nat| f > 8 * n + 10 implies sp_expr_list(toks, f)
                                == (SpParse::<Seq<SpExpr>> {
                                res: Err(e@),
                                rest: final(self).remaining(),
                            }) by {
                                let sub = sp_expr(toks, 5, (f - 1) as nat);
                                assert(sub == SpParse::<SpExpr> { res: Ok(gfirst), rest: rem1 });
                                let more = sp_expr_list(rest2, (f - 1) as nat);
                                assert(more == SpParse::<Seq<SpExpr>> {
                                    res: Err(e@),
                                    rest: final(self).remaining(),
                                });
                            }
                        }
                        Err(e)
                    },
                    Ok(more) => {
                        let ghost gmore = crate::ast::spec_exprs_view(more@);
                        let ghost pre_more = more@;
                        let mut v = more;
                        v.insert(0, first);
                        proof {
                            assert(v@[0] == first);
                            assert(v@.drop_first() =~= pre_more);
                            assert(crate::ast::spec_exprs_view(v@) == seq![
                                crate::ast::spec_expr_view(v@[0]),
                            ] + crate::ast::spec_exprs_view(v@.drop_first()));
                            assert(crate::ast::spec_exprs_view(v@) == seq![gfirst] + gmore);
                            assert forall|f: nat| f > 8 * n + 10 implies sp_expr_list(toks, f)
                                == (SpParse::<Seq<SpExpr>> {
                                res: Ok(crate::ast::spec_exprs_view(v@)),
                                rest: final(self).remaining(),
                            }) by {
                                let sub = sp_expr(toks, 5, (f - 1) as nat);
                                assert(sub == SpParse::<SpExpr> { res: Ok(gfirst), rest: rem1 });
                                let m = sp_expr_list(rest2, (f - 1) as nat);
                                assert(m == SpParse::<Seq<SpExpr>> {
                                    res: Ok(gmore),
                                    rest: final(self).remaining(),
                                });
                            }
                        }
                        Ok(v)
                    },
                }
            },
            Ok(false) => {
                let mut v: Vec<Expression> = Vec::new();
                v.push(first);
                proof {
                    assert(v@.drop_first() =~= Seq::<Expression>::empty());
                    assert(crate::ast::spec_exprs_view(v@.drop_first()) =~= Seq::<SpExpr>::empty());
                    assert(crate::ast::spec_exprs_view(v@) =~= seq![gfirst]);
                    assert forall|f: nat| f > 8 * n + 10 implies sp_expr_list(toks, f)
                        == (SpParse::<Seq<SpExpr>> {
                        res: Ok(crate::ast::spec_exprs_view(v@)),
                        rest: final(self).remaining(),
                    }) by {
                        let sub = sp_expr(toks, 5, (f - 1) as nat);
                        assert(sub == SpParse::<SpExpr> { res: Ok(gfirst), rest: rem1 });
                    }
                }
                Ok(v)
            },
        }
    }
}

impl Parser {
    /// Parse one column definition: a name and a datatype keyword.
    pub fn parse_create_statement_column(&mut self) -> (r: Result<Column, ParseError>)
        requires
            old(self).wf(),
        ensures
            final(self).wf(),
            final(self).remaining().len() <= old(self).remaining().len(),
            r is Ok ==> final(self).remaining().len() < old(self).remaining().len(),
            sp_column(old(self).remaining()) == (SpParse::<SpColumn> {
                res: match r {
                    Ok(c) => Ok(c@),
                    Err(e) => Err(e@),
                },
                rest: final(self).remaining(),
            }),
    {
        let name = match self.expected_identifier() {
            Err(e) => {
                return Err(e);
            },
            Ok(s) => s,
        };
        let t = match self.get_next_token() {
            Err(e) => {
                return Err(e);
            },
            Ok(t) => t,
        };
        match t.kind {
            TokenKind::Keyword(k) => match Datatype::from_keyword(k) {
                Some(d) => Ok(Column { name, data_type: d }),
                None => Err(ParseError::DatatypeExpected(t)),
            },
            _ => Err(ParseError::KeywordExpected(t)),
        }
    }

    /// Parse a comma-separated list of column definitions.
    pub fn parse_column_list(&mut self) -> (r: Result<Vec<Column>, ParseError>)
        requires
            old(self).wf(),
        ensures
            final(self).wf(),
            final(self).remaining().len() <= old(self).remaining().len(),
            r is Ok ==> final(self).remaining().len() < old(self).remaining().len(),
            forall|f: nat|
                f > 8 * old(self).remaining().len() + 10 ==> sp_column_list(
                    old(self).remaining(),
                    f,
                ) == (SpParse::<Seq<SpColumn>> {
                    res: match r {
                        Ok(v) => Ok(spec_columns_view(v@)),
                        Err(e) => Err(e@),
                    },
                    rest: final(self).remaining(),
                }),
        decreases self.remaining().len(), 10int,
    {
        let ghost toks = old(self).remaining();
        let ghost n = toks.len();
        let first = match self.parse_create_statement_column() {
            Err(e) => {
                proof {
                    assert forall|f: nat| f > 8 * n + 10 implies sp_column_list(toks, f)
                        == (SpParse::<Seq<SpColumn>> { res: Err(e@), rest: final(self).remaining() }) by {
                        assert(f > 0);
                    }
                }
                return Err(e);
            },
            Ok(c) => c,
        };
        let ghost gfirst = first@;
        match self.consume_if_symbol(Symbol::Comma) {
            Err(e) => {
                proof {
                    assert forall|f: nat| f > 8 * n + 10 implies sp_column_list(toks, f)
                        == (SpParse::<Seq<SpColumn>> { res: Err(e@), rest: final(self).remaining() }) by {
                        assert(f > 0);
                    }
                }
                Err(e)
            },
            Ok(true) => {
                let ghost rest2 = self.remaining();
                match self.parse_column_list() {
                    Err(e) => {
                        proof {
                            assert forall|f: nat| f > 8 * n + 10 implies sp_column_list(toks, f)
                                == (SpParse::<Seq<SpColumn>> {
                                res: Err(e@),
                                rest: final(self).remaining(),
                            }) by {
                                let more = sp_column_list(rest2, (f - 1) as nat);
                                assert(more == SpParse::<Seq<SpColumn>> {
                                    res: Err(e@),
                                    rest: final(self).remaining(),
                                });
                            }
                        }
                        Err(e)
                    },
                    Ok(more) => {
                        let ghost gmore = spec_columns_view(more@);
                        let ghost pre_more = more@;
                        let mut v = more;
                        v.insert(0, first);
                        proof {
                            assert(v@[0] == first);
                            assert(v@.drop_first() =~= pre_more);
                            assert(spec_columns_view(v@) =~= seq![gfirst] + gmore);
                            assert forall|f: nat| f > 8 * n + 10 implies sp_column_list(toks, f)
                                == (SpParse::<Seq<SpColumn>> {
                                res: Ok(spec_columns_view(v@)),
                                rest: final(self).remaining(),
                            }) by {
                                let m = sp_column_list(rest2, (f - 1) as nat);
                                assert(m == SpParse::<Seq<SpColumn>> {
                                    res: Ok(gmore),
                                    rest: final(self).remaining(),
                                });
                            }
                        }
                        Ok(v)
                    },
                }
            },
            Ok(false) => {
                let mut v: Vec<Column> = Vec::new();
                v.push(first);
                proof {
                    assert(spec_columns_view(v@) =~= seq![gfirst]);
                    assert forall|f: nat| f > 8 * n + 10 implies sp_column_list(toks, f)
                        == (SpParse::<Seq<SpColumn>> {
                        res: Ok(spec_columns_view(v@)),
                        rest: final(self).remaining(),
                    }) by {
                        assert(f > 0);
                    }
                }
                Ok(v)
            },
        }
    }

    /// Parse a comma-separated list of column names.
    pub fn parse_ident_list(&mut self) -> (r: Result<Vec<String>, ParseError>)
        requires
            old(self).wf(),
        ensures
            final(self).wf(),
            final(self).remaining().len() <= old(self).remaining().len(),
            r is Ok ==> final(self).remaining().len() < old(self).remaining().len(),
            forall|f: nat|
                f > 8 * old(self).remaining().len() + 10 ==> sp_ident_list(
                    old(self).remaining(),
                    f,
                ) == (SpParse::<Seq<Seq<char>>> {
                    res: match r {
                        Ok(v) => Ok(spec_idents_view(v@)),
                        Err(e) => Err(e@),
                    },
                    rest: final(self).remaining(),
                }),
        decreases self.remaining().len(), 10int,
    {
        let ghost toks = old(self).remaining();
        let ghost n = toks.len();
        let first = match self.expected_identifier() {
            Err(e) => {
                proof {
                    assert forall|f: nat| f > 8 * n + 10 implies sp_ident_list(toks, f)
                        == (SpParse::<Seq<Seq<char>>> { res: Err(e@), rest: final(self).remaining() }) by {
                        assert(f > 0);
                    }
                }
                return Err(e);
            },
            Ok(s) => s,
        };
        let ghost gfirst = first@;
        match self.consume_if_symbol(Symbol::Comma) {
            Err(e) => {
                proof {
                    assert forall|f: nat| f > 8 * n + 10 implies sp_ident_list(toks, f)
                        == (SpParse::<Seq<Seq<char>>> { res: Err(e@), rest: final(self).remaining() }) by {
                        assert(f > 0);
                    }
                }
                Err(e)
            },
            Ok(true) => {
                let ghost rest2 = self.remaining();
                match self.parse_ident_list() {
                    Err(e) => {
                        proof {
                            assert forall|f: nat| f > 8 * n + 10 implies sp_ident_list(toks, f)
                                == (SpParse::<Seq<Seq<char>>> {
                                res: Err(e@),
                                rest: final(self).remaining(),
                            }) by {
                                let more = sp_ident_list(rest2, (f - 1) as nat);
                                assert(more == SpParse::<Seq<Seq<char>>> {
                                    res: Err(e@),
                                    rest: final(self).remaining(),
                                });
                            }
                        }
                        Err(e)
                    },
                    Ok(more) => {
                        let ghost gmore = spec_idents_view(more@);
                        let ghost pre_more = more@;
                        let mut v = more;
                        v.insert(0, first);
                        proof {
                            assert(v@[0] == first);
                            assert(v@.drop_first() =~= pre_more);
                            assert(spec_idents_view(v@) =~= seq![gfirst] + gmore);
                            assert forall|f: nat| f > 8 * n + 10 implies sp_ident_list(toks, f)
                                == (SpParse::<Seq<Seq<char>>> {
                                res: Ok(spec_idents_view(v@)),
                                rest: final(self).remaining(),
                            }) by {
                                let m = sp_ident_list(rest2, (f - 1) as nat);
                                assert(m == SpParse::<Seq<Seq<char>>> {
                                    res: Ok(gmore),
                                    rest: final(self).remaining(),
                                });
                            }
                        }
                        Ok(v)
                    },
                }
            },
            Ok(false) => {
                let mut v: Vec<String> = Vec::new();
                v.push(first);
                proof {
                    assert(spec_idents_view(v@) =~= seq![gfirst]);
                    assert forall|f: nat| f > 8 * n + 10 implies sp_ident_list(toks, f)
                        == (SpParse::<Seq<Seq<char>>> {
                        res: Ok(spec_idents_view(v@)),
                        rest: final(self).remaining(),
                    }) by {
                        assert(f > 0);
                    }
                }
                Ok(v)
            },
        }
    }

    /// Parse one alter operation: ADD, DROP, MODIFY or RENAME on a
    /// COLUMN.
    pub fn parse_alter_type(&mut self) -> (r: Result<AlterType, ParseError>)
        requires
            old(self).wf(),
        ensures
            final(self).wf(),
            final(self).remaining().len() <= old(self).remaining().len(),
            r is Ok ==> final(self).remaining().len() < old(self).remaining().len(),
            sp_alter_op(old(self).remaining()) == (SpParse::<SpAlterType> {
                res: match r {
                    Ok(a) => Ok(a@),
                    Err(e) => Err(e@),
                },
                rest: final(self).remaining(),
            }),
    {
        let kw = match self.expect_keyword_kind() {
            Err(e) => {
                return Err(e);
            },
            Ok(k) => k,
        };
        match kw {
            Keyword::Add => {
                match self.expect_keyword(Keyword::Column) {
                    Err(e) => Err(e),
                    Ok(_) => match self.parse_create_statement_column() {
                        Err(e) => Err(e),
                        Ok(col) => Ok(AlterType::Add(col)),
                    },
                }
            },
            Keyword::Drop => {
                match self.expect_keyword(Keyword::Column) {
                    Err(e) => Err(e),
                    Ok(_) => match self.expected_identifier() {
                        Err(e) => Err(e),
                        Ok(name) => Ok(AlterType::Drop(name)),
                    },
                }
            },
            Keyword::Modify => {
                match self.expect_keyword(Keyword::Column) {
                    Err(e) => Err(e),
                    Ok(_) => match self.parse_create_statement_column() {
                        Err(e) => Err(e),
                        Ok(col) => Ok(AlterType::Modify(col)),
                    },
                }
            },
            Keyword::Rename => {
                match self.expect_keyword(Keyword::Column) {
                    Err(e) => Err(e),
                    Ok(_) => match self.expected_identifier() {
                        Err(e) => Err(e),
                        Ok(from_name) => match self.expect_keyword(Keyword::To) {
                            Err(e) => Err(e),
                            Ok(_) => match self.expected_identifier() {
                                Err(e) => Err(e),
                                Ok(to_name) => Ok(
                                    AlterType::Rename { from: from_name, to: to_name },
                                ),
                            },
                        },
                    },
                }
            },
            other => Err(
                ParseError::UnexpectedKeyword {
                    found: other,
                    allowed: vec![Keyword::Add, Keyword::Drop, Keyword::Modify, Keyword::Rename],
                },
            ),
        }
    }

    /// Parse a comma-separated list of alter operations.
    pub fn parse_alter_list(&mut self) -> (r: Result<Vec<AlterType>, ParseError>)
        requires
            old(self).wf(),
        ensures
            final(self).wf(),
            final(self).remaining().len() <= old(self).remaining().len(),
            r is Ok ==> final(self).remaining().len() < old(self).remaining().len(),
            forall|f: nat|
                f > 8 * old(self).remaining().len() + 10 ==> sp_alter_list(
                    old(self).remaining(),
                    f,
                ) == (SpParse::<Seq<SpAlterType>> {
                    res: match r {
                        Ok(v) => Ok(spec_alters_view(v@)),
                        Err(e) => Err(e@),
                    },
                    rest: final(self).remaining(),
                }),
        decreases self.remaining().len(), 10int,
    {
        let ghost toks = old(self).remaining();
        let ghost n = toks.len();
        let first = match self.parse_alter_type() {
            Err(e) => {
                proof {
                    assert forall|f: nat| f > 8 * n + 10 implies sp_alter_list(toks, f)
                        == (SpParse::<Seq<SpAlterType>> { res: Err(e@), rest: final(self).remaining() }) by {
                        assert(f > 0);
                    }
                }
                return Err(e);
            },
            Ok(a) => a,
        };
        let ghost gfirst = first@;
        match self.consume_if_symbol(Symbol::Comma) {
            Err(e) => {
                proof {
                    assert forall|f: nat| f > 8 * n + 10 implies sp_alter_list(toks, f)
                        == (SpParse::<Seq<SpAlterType>> { res: Err(e@), rest: final(self).remaining() }) by {
                        assert(f > 0);
                    }
                }
                Err(e)
            },
            Ok(true) => {
                let ghost rest2 = self.remaining();
                match self.parse_alter_list() {
                    Err(e) => {
                        proof {
                            assert forall|f: nat| f > 8 * n + 10 implies sp_alter_list(toks, f)
                                == (SpParse::<Seq<SpAlterType>> {
                                res: Err(e@),
                                rest: final(self).remaining(),
                            }) by {
                                let more = sp_alter_list(rest2, (f - 1) as nat);
                                assert(more == SpParse::<Seq<SpAlterType>> {
                                    res: Err(e@),
                                    rest: final(self).remaining(),
                                });
                            }
                        }
                        Err(e)
                    },
                    Ok(more) => {
                        let ghost gmore = spec_alters_view(more@);
                        let ghost pre_more = more@;
                        let mut v = more;
                        v.insert(0, first);
                        proof {
                            assert(v@[0] == first);
                            assert(v@.drop_first() =~= pre_more);
                            assert(spec_alters_view(v@) =~= seq![gfirst] + gmore);
                            assert forall|f: nat| f > 8 * n + 10 implies sp_alter_list(toks, f)
                                == (SpParse::<Seq<SpAlterType>> {
                                res: Ok(spec_alters_view(v@)),
                                rest: final(self).remaining(),
                            }) by {
                                let m = sp_alter_list(rest2, (f - 1) as nat);
                                assert(m == SpParse::<Seq<SpAlterType>> {
                                    res: Ok(gmore),
                                    rest: final(self).remaining(),
                                });
                            }
                        }
                        Ok(v)
                    },
                }
            },
            Ok(false) => {
                let mut v: Vec<AlterType> = Vec::new();
                v.push(first);
                proof {
                    assert(spec_alters_view(v@) =~= seq![gfirst]);
                    assert forall|f: nat| f > 8 * n + 10 implies sp_alter_list(toks, f)
                        == (SpParse::<Seq<SpAlterType>> {
                        res: Ok(spec_alters_view(v@)),
                        rest: final(self).remaining(),
                    }) by {
                        assert(f > 0);
                    }
                }
                Ok(v)
            },
        }
    }

    /// Parse one update assignment: `column = expression`.
    pub fn parse_update_set(&mut self) -> (r: Result<UpdateSet, ParseError>)
        requires
            old(self).wf(),
        ensures
            final(self).wf(),
            final(self).remaining().len() <= old(self).remaining().len(),
            r is Ok ==> final(self).remaining().len() < old(self).remaining().len(),
            forall|f: nat|
                f > 8 * old(self).remaining().len() + 9 ==> sp_update_set(
                    old(self).remaining(),
                    f,
                ) == (SpParse::<SpUpdateSet> {
                    res: match r {
                        Ok(u) => Ok(u@),
                        Err(e) => Err(e@),
                    },
                    rest: final(self).remaining(),
                }),
        decreases self.remaining().len(), 9int,
    {
        let ghost toks = old(self).remaining();
        let ghost n = toks.len();
        let name = match self.expected_identifier() {
            Err(e) => {
                proof {
                    assert forall|f: nat| f > 8 * n + 9 implies sp_update_set(toks, f)
                        == (SpParse::<SpUpdateSet> { res: Err(e@), rest: final(self).remaining() }) by {
                        assert(f > 0);
                    }
                }
                return Err(e);
            },
            Ok(s) => s,
        };
        match self.expect_symbol(Symbol::Equal) {
            Err(e) => {
                proof {
                    assert forall|f: nat| f > 8 * n + 9 implies sp_update_set(toks, f)
                        == (SpParse::<SpUpdateSet> { res: Err(e@), rest: final(self).remaining() }) by {
                        assert(f > 0);
                    }
                }
                Err(e)
            },
            Ok(_) => {
                let ghost rest2 = self.remaining();
                match self.parse_expression() {
                    Err(e) => {
                        proof {
                            assert forall|f: nat| f > 8 * n + 9 implies sp_update_set(toks, f)
                                == (SpParse::<SpUpdateSet> {
                                res: Err(e@),
                                rest: final(self).remaining(),
                            }) by {
                                let val = sp_expr(rest2, 5, (f - 1) as nat);
                                assert(val == SpParse::<SpExpr> {
                                    res: Err(e@),
                                    rest: final(self).remaining(),
                                });
                            }
                        }
                        Err(e)
                    },
                    Ok(value) => {
                        let ghost gvalue = value@;
                        let u = UpdateSet { column: name, value };
                        proof {
                            assert forall|f: nat| f > 8 * n + 9 implies sp_update_set(toks, f)
                                == (SpParse::<SpUpdateSet> {
                                res: Ok(u@),
                                rest: final(self).remaining(),
                            }) by {
                                let val = sp_expr(rest2, 5, (f - 1) as nat);
                                assert(val == SpParse::<SpExpr> {
                                    res: Ok(gvalue),
                                    rest: final(self).remaining(),
                                });
                            }
                        }
                        Ok(u)
                    },
                }
            },
        }
    }

    /// Parse a comma-separated list of update assignments.
    pub fn parse_update_list(&mut self) -> (r: Result<Vec<UpdateSet>, ParseError>)
        requires
            old(self).wf(),
        ensures
            final(self).wf(),
            final(self).remaining().len() <= old(self).remaining().len(),
            r is Ok ==> final(self).remaining().len() < old(self).remaining().len(),
            forall|f: nat|
                f > 8 * old(self).remaining().len() + 10 ==> sp_update_list(
                    old(self).remaining(),
                    f,
                ) == (SpParse::<Seq<SpUpdateSet>> {
                    res: match r {
                        Ok(v) => Ok(spec_updates_view(v@)),
                        Err(e) => Err(e@),
                    },
                    rest: final(self).remaining(),
                }),
        decreases self.remaining().len(), 10int,
    {
        let ghost toks = old(self).remaining();
        let ghost n = toks.len();
        let first = match self.parse_update_set() {
            Err(e) => {
                proof {
                    assert forall|f: nat| f > 8 * n + 10 implies sp_update_list(toks, f)
                        == (SpParse::<Seq<SpUpdateSet>> { res: Err(e@), rest: final(self).remaining() }) by {
                        let item = sp_update_set(toks, (f - 1) as nat);
                        assert(item == SpParse::<SpUpdateSet> {
                            res: Err(e@),
                            rest: final(self).remaining(),
                        });
                    }
                }
                return Err(e);
            },
            Ok(u) => u,
        };
        let ghost gfirst = first@;
        let ghost rem1 = self.remaining();
        match self.consume_if_symbol(Symbol::Comma) {
            Err(e) => {
                proof {
                    assert forall|f: nat| f > 8 * n + 10 implies sp_update_list(toks, f)
                        == (SpParse::<Seq<SpUpdateSet>> { res: Err(e@), rest: final(self).remaining() }) by {
                        let item = sp_update_set(toks, (f - 1) as nat);
                        assert(item == SpParse::<SpUpdateSet> { res: Ok(gfirst), rest: rem1 });
                    }
                }
                Err(e)
            },
            Ok(true) => {
                let ghost rest2 = self.remaining();
                match self.parse_update_list() {
                    Err(e) => {
                        proof {
                            assert forall|f: nat| f > 8 * n + 10 implies sp_update_list(toks, f)
                                == (SpParse::<Seq<SpUpdateSet>> {
                                res: Err(e@),
                                rest: final(self).remaining(),
                            }) by {
                                let item = sp_update_set(toks, (f - 1) as nat);
                                assert(item == SpParse::<SpUpdateSet> {
                                    res: Ok(gfirst),
                                    rest: rem1,
                                });
                                let more = sp_update_list(rest2, (f - 1) as nat);
                                assert(more == SpParse::<Seq<SpUpdateSet>> {
                                    res: Err(e@),
                                    rest: final(self).remaining(),
                                });
                            }
                        }
                        Err(e)
                    },
                    Ok(more) => {
                        let ghost gmore = spec_updates_view(more@);
                        let ghost pre_more = more@;
                        let mut v = more;
                        v.insert(0, first);
                        proof {
                            assert(v@[0] == first);
                            assert(v@.drop_first() =~= pre_more);
                            assert(spec_updates_view(v@) =~= seq![gfirst] + gmore);
                            assert forall|f: nat| f > 8 * n + 10 implies sp_update_list(toks, f)
                                == (SpParse::<Seq<SpUpdateSet>> {
                                res: Ok(spec_updates_view(v@)),
                                rest: final(self).remaining(),
                            }) by {
                                let item = sp_update_set(toks, (f - 1) as nat);
                                assert(item == SpParse::<SpUpdateSet> {
                                    res: Ok(gfirst),
                                    rest: rem1,
                                });
                                let m = sp_update_list(rest2, (f - 1) as nat);
                                assert(m == SpParse::<Seq<SpUpdateSet>> {
                                    res: Ok(gmore),
                                    rest: final(self).remaining(),
                                });
                            }
                        }
                        Ok(v)
                    },
                }
            },
            Ok(false) => {
                let mut v: Vec<UpdateSet> = Vec::new();
                v.push(first);
                proof {
                    assert(spec_updates_view(v@) =~= seq![gfirst]);
                    assert forall|f: nat| f > 8 * n + 10 implies sp_update_list(toks, f)
                        == (SpParse::<Seq<SpUpdateSet>> {
                        res: Ok(spec_updates_view(v@)),
                        rest: final(self).remaining(),
                    }) by {
                        let item = sp_update_set(toks, (f - 1) as nat);
                        assert(item == SpParse::<SpUpdateSet> { res: Ok(gfirst), rest: rem1 });
                    }
                }
                Ok(v)
            },
        }
    }

    /// Parse an optional WHERE clause.
    pub fn parse_predicate(&mut self) -> (r: Result<Option<Expression>, ParseError>)
        requires
            old(self).wf(),
        ensures
            final(self).wf(),
            final(self).remaining().len() <= old(self).remaining().len(),
            forall|f: nat|
                f > 8 * old(self).remaining().len() + 10 ==> sp_predicate(
                    old(self).remaining(),
                    f,
                ) == (SpParse::<Option<SpExpr>> {
                    res: match r {
                        Ok(Some(e)) => Ok(Some(e@)),
                        Ok(None) => Ok(None),
                        Err(e) => Err(e@),
                    },
                    rest: final(self).remaining(),
                }),
    {
        let ghost toks = old(self).remaining();
        let ghost n = toks.len();
        match self.consume_if_keyword(Keyword::Where) {
            Err(e) => {
                proof {
                    assert forall|f: nat| f > 8 * n + 10 implies sp_predicate(toks, f)
                        == (SpParse::<Option<SpExpr>> { res: Err(e@), rest: final(self).remaining() }) by {
                        assert(f > 0);
                    }
                }
                Err(e)
            },
            Ok(true) => {
                let ghost rest2 = self.remaining();
                match self.parse_expression() {
                    Err(e) => {
                        proof {
                            assert forall|f: nat| f > 8 * n + 10 implies sp_predicate(toks, f)
                                == (SpParse::<Option<SpExpr>> {
                                res: Err(e@),
                                rest: final(self).remaining(),
                            }) by {
                                let pred = sp_expr(rest2, 5, (f - 1) as nat);
                                assert(pred == SpParse::<SpExpr> {
                                    res: Err(e@),
                                    rest: final(self).remaining(),
                                });
                            }
                        }
                        Err(e)
                    },
                    Ok(e) => {
                        let ghost ge = e@;
                        proof {
                            assert forall|f: nat| f > 8 * n + 10 implies sp_predicate(toks, f)
                                == (SpParse::<Option<SpExpr>> {
                                res: Ok(Some(ge)),
                                rest: final(self).remaining(),
                            }) by {
                                let pred = sp_expr(rest2, 5, (f - 1) as nat);
                                assert(pred == SpParse::<SpExpr> {
                                    res: Ok(ge),
                                    rest: final(self).remaining(),
                                });
                            }
                        }
                        Ok(Some(e))
                    },
                }
            },
            Ok(false) => {
                proof {
                    assert forall|f: nat| f > 8 * n + 10 implies sp_predicate(toks, f)
                        == (SpParse::<Option<SpExpr>> {
                        res: Ok(None::<SpExpr>),
                        rest: final(self).remaining(),
                    }) by {
                        assert(f > 0);
                    }
                }
                Ok(None)
            },
        }
    }
}

impl Parser {
    /// Parse `TABLE ident ( column-def {, column-def} )` after CREATE.
    pub fn parse_create_statement(&mut self) -> (r: Result<Statement, ParseError>)
        requires
            old(self).wf(),
        ensures
            final(self).wf(),
            final(self).remaining().len() <= old(self).remaining().len(),
            forall|f: nat|
                f > 8 * old(self).remaining().len() + 12 ==> sp_create(old(self).remaining(), f)
                    == (SpParse::<SpStatement> { res: stmt_res_view(r), rest: final(self).remaining() }),
    {
        let ghost toks = old(self).remaining();
        let ghost n = toks.len();
        if let Err(e) = self.expect_keyword(Keyword::Table) {
            proof {
                assert forall|f: nat| f > 8 * n + 12 implies sp_create(toks, f)
                    == (SpParse::<SpStatement> { res: Err(e@), rest: final(self).remaining() }) by {
                    assert(f > 0);
                }
            }
            return Err(e);
        }
        let name = match self.expected_identifier() {
            Err(e) => {
                proof {
                    assert forall|f: nat| f > 8 * n + 12 implies sp_create(toks, f)
                        == (SpParse::<SpStatement> { res: Err(e@), rest: final(self).remaining() }) by {
                        assert(f > 0);
                    }
                }
                return Err(e);
            },
            Ok(s) => s,
        };
        if let Err(e) = self.expect_symbol(Symbol::OpenParanthesis) {
            proof {
                assert forall|f: nat| f > 8 * n + 12 implies sp_create(toks, f)
                    == (SpParse::<SpStatement> { res: Err(e@), rest: final(self).remaining() }) by {
                    assert(f > 0);
                }
            }
            return Err(e);
        }
        let ghost rest3 = self.remaining();
        let columns = match self.parse_column_list() {
            Err(e) => {
                proof {
                    assert forall|f: nat| f > 8 * n + 12 implies sp_create(toks, f)
                        == (SpParse::<SpStatement> { res: Err(e@), rest: final(self).remaining() }) by {
                        let cols = sp_column_list(rest3, (f - 1) as nat);
                        assert(cols == SpParse::<Seq<SpColumn>> {
                            res: Err(e@),
                            rest: final(self).remaining(),
                        });
                    }
                }
                return Err(e);
            },
            Ok(cs) => cs,
        };
        let ghost gcols = spec_columns_view(columns@);
        let ghost rest4 = self.remaining();
        match self.expect_symbol(Symbol::CloseParanthesis) {
            Err(e) => {
                proof {
                    assert forall|f: nat| f > 8 * n + 12 implies sp_create(toks, f)
                        == (SpParse::<SpStatement> { res: Err(e@), rest: final(self).remaining() }) by {
                        let cols = sp_column_list(rest3, (f - 1) as nat);
                        assert(cols == SpParse::<Seq<SpColumn>> { res: Ok(gcols), rest: rest4 });
                    }
                }
                Err(e)
            },
            Ok(_) => {
                let st = Statement::Create { table_name: name, columns };
                proof {
                    assert forall|f: nat| f > 8 * n + 12 implies sp_create(toks, f)
                        == (SpParse::<SpStatement> { res: Ok(st@), rest: final(self).remaining() }) by {
                        let cols = sp_column_list(rest3, (f - 1) as nat);
                        assert(cols == SpParse::<Seq<SpColumn>> { res: Ok(gcols), rest: rest4 });
                    }
                }
                Ok(st)
            },
        }
    }

    /// Parse `TABLE ident alter-op {, alter-op}` after ALTER.
    pub fn parse_alter_statement(&mut self) -> (r: Result<Statement, ParseError>)
        requires
            old(self).wf(),
        ensures
            final(self).wf(),
            final(self).remaining().len() <= old(self).remaining().len(),
            forall|f: nat|
                f > 8 * old(self).remaining().len() + 12 ==> sp_alter(old(self).remaining(), f)
                    == (SpParse::<SpStatement> { res: stmt_res_view(r), rest: final(self).remaining() }),
    {
        let ghost toks = old(self).remaining();
        let ghost n = toks.len();
        if let Err(e) = self.expect_keyword(Keyword::Table) {
            proof {
                assert forall|f: nat| f > 8 * n + 12 implies sp_alter(toks, f)
                    == (SpParse::<SpStatement> { res: Err(e@), rest: final(self).remaining() }) by {
                    assert(f > 0);
                }
            }
            return Err(e);
        }
        let name = match self.expected_identifier() {
            Err(e) => {
                proof {
                    assert forall|f: nat| f > 8 * n + 12 implies sp_alter(toks, f)
                        == (SpParse::<SpStatement> { res: Err(e@), rest: final(self).remaining() }) by {
                        assert(f > 0);
                    }
                }
                return Err(e);
            },
            Ok(s) => s,
        };
        let ghost rest2 = self.remaining();
        match self.parse_alter_list() {
            Err(e) => {
                proof {
                    assert forall|f: nat| f > 8 * n + 12 implies sp_alter(toks, f)
                        == (SpParse::<SpStatement> { res: Err(e@), rest: final(self).remaining() }) by {
                        let ops = sp_alter_list(rest2, (f - 1) as nat);
                        assert(ops == SpParse::<Seq<SpAlterType>> {
                            res: Err(e@),
                            rest: final(self).remaining(),
                        });
                    }
                }
                Err(e)
            },
            Ok(alter_types) => {
                let ghost gops = spec_alters_view(alter_types@);
                let st = Statement::Alter { table_name: name, alter_types };
                proof {
                    assert forall|f: nat| f > 8 * n + 12 implies sp_alter(toks, f)
                        == (SpParse::<SpStatement> { res: Ok(st@), rest: final(self).remaining() }) by {
                        let ops = sp_alter_list(rest2, (f - 1) as nat);
                        assert(ops == SpParse::<Seq<SpAlterType>> {
                            res: Ok(gops),
                            rest: final(self).remaining(),
                        });
                    }
                }
                Ok(st)
            },
        }
    }

    /// Parse `TABLE ident` after DROP.
    pub fn parse_drop_statement(&mut self) -> (r: Result<Statement, ParseError>)
        requires
            old(self).wf(),
        ensures
            final(self).wf(),
            final(self).remaining().len() <= old(self).remaining().len(),
            sp_drop(old(self).remaining()) == (SpParse::<SpStatement> {
                res: stmt_res_view(r),
                rest: final(self).remaining(),
            }),
    {
        if let Err(e) = self.expect_keyword(Keyword::Table) {
            return Err(e);
        }
        match self.expected_identifier() {
            Err(e) => Err(e),
            Ok(name) => Ok(Statement::Drop { table_name: name }),
        }
    }

    /// Parse `INTO ident [ ( ident {, ident} ) ] VALUES ( expr {, expr} )`
    /// after INSERT.
    pub fn parse_insert_statement(&mut self) -> (r: Result<Statement, ParseError>)
        requires
            old(self).wf(),
        ensures
            final(self).wf(),
            final(self).remaining().len() <= old(self).remaining().len(),
            forall|f: nat|
                f > 8 * old(self).remaining().len() + 12 ==> sp_insert(old(self).remaining(), f)
                    == (SpParse::<SpStatement> { res: stmt_res_view(r), rest: final(self).remaining() }),
    {
        let ghost toks = old(self).remaining();
        let ghost n = toks.len();
        if let Err(e) = self.expect_keyword(Keyword::Into) {
            proof {
                assert forall|f: nat| f > 8 * n + 12 implies sp_insert(toks, f)
                    == (SpParse::<SpStatement> { res: Err(e@), rest: final(self).remaining() }) by {
                    assert(f > 0);
                }
            }
            return Err(e);
        }
        let name = match self.expected_identifier() {
            Err(e) => {
                proof {
                    assert forall|f: nat| f > 8 * n + 12 implies sp_insert(toks, f)
                        == (SpParse::<SpStatement> { res: Err(e@), rest: final(self).remaining() }) by {
                        assert(f > 0);
                    }
                }
                return Err(e);
            },
            Ok(s) => s,
        };
        let has_cols = match self.consume_if_symbol(Symbol::OpenParanthesis) {
            Err(e) => {
                proof {
                    assert forall|f: nat| f > 8 * n + 12 implies sp_insert(toks, f)
                        == (SpParse::<SpStatement> { res: Err(e@), rest: final(self).remaining() }) by {
                        assert(f > 0);
                    }
                }
                return Err(e);
            },
            Ok(b) => b,
        };
        let ghost rest3 = self.remaining();
        let ghost mut glist_rest: Seq<SpTRes> = rest3;
        let columns: Option<Vec<String>> = if has_cols {
            let names = match self.parse_ident_list() {
                Err(e) => {
                    proof {
                        assert forall|f: nat| f > 8 * n + 12 implies sp_insert(toks, f)
                            == (SpParse::<SpStatement> { res: Err(e@), rest: final(self).remaining() }) by {
                            let ns = sp_ident_list(rest3, (f - 1) as nat);
                            assert(ns == SpParse::<Seq<Seq<char>>> {
                                res: Err(e@),
                                rest: final(self).remaining(),
                            });
                        }
                    }
                    return Err(e);
                },
                Ok(ns) => ns,
            };
            let ghost gnames = spec_idents_view(names@);
            proof {
                glist_rest = self.remaining();
            }
            if let Err(e) = self.expect_symbol(Symbol::CloseParanthesis) {
                proof {
                    assert forall|f: nat| f > 8 * n + 12 implies sp_insert(toks, f)
                        == (SpParse::<SpStatement> { res: Err(e@), rest: final(self).remaining() }) by {
                        let ns = sp_ident_list(rest3, (f - 1) as nat);
                        assert(ns == SpParse::<Seq<Seq<char>>> { res: Ok(gnames), rest: glist_rest });
                    }
                }
                return Err(e);
            }
            Some(names)
        } else {
            None
        };
        let ghost gcols: Option<Seq<Seq<char>>> = match &columns {
            Some(cs) => Some(spec_idents_view(cs@)),
            None => None,
        };
        if let Err(e) = self.expect_keyword(Keyword::Values) {
            proof {
                assert forall|f: nat| f > 8 * n + 12 implies sp_insert(toks, f)
                    == (SpParse::<SpStatement> { res: Err(e@), rest: final(self).remaining() }) by {
                    if gcols is Some {
                        let ns = sp_ident_list(rest3, (f - 1) as nat);
                        assert(ns == SpParse::<Seq<Seq<char>>> {
                            res: Ok(gcols->Some_0),
                            rest: glist_rest,
                        });
                    }
                }
            }
            return Err(e);
        }
        if let Err(e) = self.expect_symbol(Symbol::OpenParanthesis) {
            proof {
                assert forall|f: nat| f > 8 * n + 12 implies sp_insert(toks, f)
                    == (SpParse::<SpStatement> { res: Err(e@), rest: final(self).remaining() }) by {
                    if gcols is Some {
                        let ns = sp_ident_list(rest3, (f - 1) as nat);
                        assert(ns == SpParse::<Seq<Seq<char>>> {
                            res: Ok(gcols->Some_0),
                            rest: glist_rest,
                        });
                    }
                }
            }
            return Err(e);
        }
        let ghost rest6 = self.remaining();
        let values = match self.parse_expression_list() {
            Err(e) => {
                proof {
                    assert forall|f: nat| f > 8 * n + 12 implies sp_insert(toks, f)
                        == (SpParse::<SpStatement> { res: Err(e@), rest: final(self).remaining() }) by {
                        if gcols is Some {
                            let ns = sp_ident_list(rest3, (f - 1) as nat);
                            assert(ns == SpParse::<Seq<Seq<char>>> {
                                res: Ok(gcols->Some_0),
                                rest: glist_rest,
                            });
                        }
                        let vs = sp_expr_list(rest6, (f - 1) as nat);
                        assert(vs == SpParse::<Seq<SpExpr>> {
                            res: Err(e@),
                            rest: final(self).remaining(),
                        });
                    }
                }
                return Err(e);
            },
            Ok(vs) => vs,
        };
        let ghost gvals = crate::ast::spec_exprs_view(values@);
        let ghost rest7 = self.remaining();
        match self.expect_symbol(Symbol::CloseParanthesis) {
            Err(e) => {
                proof {
                    assert forall|f: nat| f > 8 * n + 12 implies sp_insert(toks, f)
                        == (SpParse::<SpStatement> { res: Err(e@), rest: final(self).remaining() }) by {
                        if gcols is Some {
                            let ns = sp_ident_list(rest3, (f - 1) as nat);
                            assert(ns == SpParse::<Seq<Seq<char>>> {
                                res: Ok(gcols->Some_0),
                                rest: glist_rest,
                            });
                        }
                        let vs = sp_expr_list(rest6, (f - 1) as nat);
                        assert(vs == SpParse::<Seq<SpExpr>> { res: Ok(gvals), rest: rest7 });
                    }
                }
                Err(e)
            },
            Ok(_) => {
                let st = Statement::Insert { table_name: name, columns, values };
                proof {
                    assert forall|f: nat| f > 8 * n + 12 implies sp_insert(toks, f)
                        == (SpParse::<SpStatement> { res: Ok(st@), rest: final(self).remaining() }) by {
                        if gcols is Some {
                            let ns = sp_ident_list(rest3, (f - 1) as nat);
                            assert(ns == SpParse::<Seq<Seq<char>>> {
                                res: Ok(gcols->Some_0),
                                rest: glist_rest,
                            });
                        }
                        let vs = sp_expr_list(rest6, (f - 1) as nat);
                        assert(vs == SpParse::<Seq<SpExpr>> { res: Ok(gvals), rest: rest7 });
                    }
                }
                Ok(st)
            },
        }
    }

    /// Parse `expr {, expr} [FROM ident] [WHERE expr]` after SELECT.
    pub fn parse_select_statement(&mut self) -> (r: Result<Statement, ParseError>)
        requires
            old(self).wf(),
        ensures
            final(self).wf(),
            final(self).remaining().len() <= old(self).remaining().len(),
            forall|f: nat|
                f > 8 * old(self).remaining().len() + 12 ==> sp_select(old(self).remaining(), f)
                    == (SpParse::<SpStatement> { res: stmt_res_view(r), rest: final(self).remaining() }),
    {
        let ghost toks = old(self).remaining();
        let ghost n = toks.len();
        let exprs = match self.parse_expression_list() {
            Err(e) => {
                proof {
                    assert forall|f: nat| f > 8 * n + 12 implies sp_select(toks, f)
                        == (SpParse::<SpStatement> { res: Err(e@), rest: final(self).remaining() }) by {
                        let es = sp_expr_list(toks, (f - 1) as nat);
                        assert(es == SpParse::<Seq<SpExpr>> {
                            res: Err(e@),
                            rest: final(self).remaining(),
                        });
                    }
                }
                return Err(e);
            },
            Ok(es) => es,
        };
        let ghost gexprs = crate::ast::spec_exprs_view(exprs@);
        let ghost rem1 = self.remaining();
        let has_from = match self.consume_if_keyword(Keyword::From) {
            Err(e) => {
                proof {
                    assert forall|f: nat| f > 8 * n + 12 implies sp_select(toks, f)
                        == (SpParse::<SpStatement> { res: Err(e@), rest: final(self).remaining() }) by {
                        let es = sp_expr_list(toks, (f - 1) as nat);
                        assert(es == SpParse::<Seq<SpExpr>> { res: Ok(gexprs), rest: rem1 });
                    }
                }
                return Err(e);
            },
            Ok(b) => b,
        };
        let from: Option<String> = if has_from {
            match self.expected_identifier() {
                Err(e) => {
                    proof {
                        assert forall|f: nat| f > 8 * n + 12 implies sp_select(toks, f)
                            == (SpParse::<SpStatement> { res: Err(e@), rest: final(self).remaining() }) by {
                            let es = sp_expr_list(toks, (f - 1) as nat);
                            assert(es == SpParse::<Seq<SpExpr>> { res: Ok(gexprs), rest: rem1 });
                        }
                    }
                    return Err(e);
                },
                Ok(nm) => Some(nm),
            }
        } else {
            None
        };
        let ghost gfrom: Option<Seq<char>> = match &from {
            Some(nm) => Some(nm@),
            None => None,
        };
        let ghost rem2 = self.remaining();
        match self.parse_predicate() {
            Err(e) => {
                proof {
                    assert forall|f: nat| f > 8 * n + 12 implies sp_select(toks, f)
                        == (SpParse::<SpStatement> { res: Err(e@), rest: final(self).remaining() }) by {
                        let es = sp_expr_list(toks, (f - 1) as nat);
                        assert(es == SpParse::<Seq<SpExpr>> { res: Ok(gexprs), rest: rem1 });
                        let pd = sp_predicate(rem2, (f - 1) as nat);
                        assert(pd == SpParse::<Option<SpExpr>> {
                            res: Err(e@),
                            rest: final(self).remaining(),
                        });
                    }
                }
                Err(e)
            },
            Ok(predicate) => {
                let ghost gpred: Option<SpExpr> = match &predicate {
                    Some(e) => Some(e@),
                    None => None,
                };
                let st = Statement::Select { select_expressions: exprs, from, predicate };
                proof {
                    assert forall|f: nat| f > 8 * n + 12 implies sp_select(toks, f)
                        == (SpParse::<SpStatement> { res: Ok(st@), rest: final(self).remaining() }) by {
                        let es = sp_expr_list(toks, (f - 1) as nat);
                        assert(es == SpParse::<Seq<SpExpr>> { res: Ok(gexprs), rest: rem1 });
                        let pd = sp_predicate(rem2, (f - 1) as nat);
                        assert(pd == SpParse::<Option<SpExpr>> {
                            res: Ok(gpred),
                            rest: final(self).remaining(),
                        });
                    }
                }
                Ok(st)
            },
        }
    }

    /// Parse `ident SET ident = expr {, ident = expr} [WHERE expr]`
    /// after UPDATE.
    pub fn parse_update_statement(&mut self) -> (r: Result<Statement, ParseError>)
        requires
            old(self).wf(),
        ensures
            final(self).wf(),
            final(self).remaining().len() <= old(self).remaining().len(),
            forall|f: nat|
                f > 8 * old(self).remaining().len() + 12 ==> sp_update(old(self).remaining(), f)
                    == (SpParse::<SpStatement> { res: stmt_res_view(r), rest: final(self).remaining() }),
    {
        let ghost toks = old(self).remaining();
        let ghost n = toks.len();
        let name = match self.expected_identifier() {
            Err(e) => {
                proof {
                    assert forall|f: nat| f > 8 * n + 12 implies sp_update(toks, f)
                        == (SpParse::<SpStatement> { res: Err(e@), rest: final(self).remaining() }) by {
                        assert(f > 0);
                    }
                }
                return Err(e);
            },
            Ok(s) => s,
        };
        if let Err(e) = self.expect_keyword(Keyword::SetClause) {
            proof {
                assert forall|f: nat| f > 8 * n + 12 implies sp_update(toks, f)
                    == (SpParse::<SpStatement> { res: Err(e@), rest: final(self).remaining() }) by {
                    assert(f > 0);
                }
            }
            return Err(e);
        }
        let ghost rest2 = self.remaining();
        let set = match self.parse_update_list() {
            Err(e) => {
                proof {
                    assert forall|f: nat| f > 8 * n + 12 implies sp_update(toks, f)
                        == (SpParse::<SpStatement> { res: Err(e@), rest: final(self).remaining() }) by {
                        let us = sp_update_list(rest2, (f - 1) as nat);
                        assert(us == SpParse::<Seq<SpUpdateSet>> {
                            res: Err(e@),
                            rest: final(self).remaining(),
                        });
                    }
                }
                return Err(e);
            },
            Ok(us) => us,
        };
        let ghost gsets = spec_updates_view(set@);
        let ghost rem2 = self.remaining();
        match self.parse_predicate() {
            Err(e) => {
                proof {
                    assert forall|f: nat| f > 8 * n + 12 implies sp_update(toks, f)
                        == (SpParse::<SpStatement> { res: Err(e@), rest: final(self).remaining() }) by {
                        let us = sp_update_list(rest2, (f - 1) as nat);
                        assert(us == SpParse::<Seq<SpUpdateSet>> { res: Ok(gsets), rest: rem2 });
                        let pd = sp_predicate(rem2, (f - 1) as nat);
                        assert(pd == SpParse::<Option<SpExpr>> {
                            res: Err(e@),
                            rest: final(self).remaining(),
                        });
                    }
                }
                Err(e)
            },
            Ok(predicate) => {
                let ghost gpred: Option<SpExpr> = match &predicate {
                    Some(e) => Some(e@),
                    None => None,
                };
                let st = Statement::Update { table_name: name, set, predicate };
                proof {
                    assert forall|f: nat| f > 8 * n + 12 implies sp_update(toks, f)
                        == (SpParse::<SpStatement> { res: Ok(st@), rest: final(self).remaining() }) by {
                        let us = sp_update_list(rest2, (f - 1) as nat);
                        assert(us == SpParse::<Seq<SpUpdateSet>> { res: Ok(gsets), rest: rem2 });
                        let pd = sp_predicate(rem2, (f - 1) as nat);
                        assert(pd == SpParse::<Option<SpExpr>> {
                            res: Ok(gpred),
                            rest: final(self).remaining(),
                        });
                    }
                }
                Ok(st)
            },
        }
    }

    /// Parse `FROM ident [WHERE expr]` after DELETE.
    pub fn parse_delete_statement(&mut self) -> (r: Result<Statement, ParseError>)
        requires
            old(self).wf(),
        ensures
            final(self).wf(),
            final(self).remaining().len() <= old(self).remaining().len(),
            forall|f: nat|
                f > 8 * old(self).remaining().len() + 12 ==> sp_delete(old(self).remaining(), f)
                    == (SpParse::<SpStatement> { res: stmt_res_view(r), rest: final(self).remaining() }),
    {
        let ghost toks = old(self).remaining();
        let ghost n = toks.len();
        if let Err(e) = self.expect_keyword(Keyword::From) {
            proof {
                assert forall|f: nat| f > 8 * n + 12 implies sp_delete(toks, f)
                    == (SpParse::<SpStatement> { res: Err(e@), rest: final(self).remaining() }) by {
                    assert(f > 0);
                }
            }
            return Err(e);
        }
        let name = match self.expected_identifier() {
            Err(e) => {
                proof {
                    assert forall|f: nat| f > 8 * n + 12 implies sp_delete(toks, f)
                        == (SpParse::<SpStatement> { res: Err(e@), rest: final(self).remaining() }) by {
                        assert(f > 0);
                    }
                }
                return Err(e);
            },
            Ok(s) => s,
        };
        let ghost rem2 = self.remaining();
        match self.parse_predicate() {
            Err(e) => {
                proof {
                    assert forall|f: nat| f > 8 * n + 12 implies sp_delete(toks, f)
                        == (SpParse::<SpStatement> { res: Err(e@), rest: final(self).remaining() }) by {
                        let pd = sp_predicate(rem2, (f - 1) as nat);
                        assert(pd == SpParse::<Option<SpExpr>> {
                            res: Err(e@),
                            rest: final(self).remaining(),
                        });
                    }
                }
                Err(e)
            },
            Ok(predicate) => {
                let ghost gpred: Option<SpExpr> = match &predicate {
                    Some(e) => Some(e@),
                    None => None,
                };
                let st = Statement::Delete { table_name: name, predicate };
                proof {
                    assert forall|f: nat| f > 8 * n + 12 implies sp_delete(toks, f)
                        == (SpParse::<SpStatement> { res: Ok(st@), rest: final(self).remaining() }) by {
                        let pd = sp_predicate(rem2, (f - 1) as nat);
                        assert(pd == SpParse::<Option<SpExpr>> {
                            res: Ok(gpred),
                            rest: final(self).remaining(),
                        });
                    }
                }
                Ok(st)
            },
        }
    }
}

/// View of one `Parser::next` outcome.
pub open spec fn step_res_view(r: Option<Result<Statement, ParseError>>) -> Option<
    Result<SpStatement, SpParseError>,
> {
    match r {
        None => None,
        Some(Ok(st)) => Some(Ok(st@)),
        Some(Err(e)) => Some(Err(e@)),
    }
}

/// The statement results of a whole token stream: `sp_step` iterated to
/// exhaustion, with fuel ample for the input.
pub open spec fn spec_statements(toks: Seq<SpTRes>) -> Seq<Result<SpStatement, SpParseError>>
    decreases toks.len(),
{
    let step = sp_step(toks, 8 * toks.len() + 15);
    match step.0 {
        None => Seq::empty(),
        Some(x) => seq![x] + if step.1.len() < toks.len() {
            spec_statements(step.1)
        } else {
            Seq::empty()
        },
    }
}

/// View of a collected statement result sequence.
pub open spec fn spec_stmt_results_view(s: Seq<Result<Statement, ParseError>>) -> Seq<
    Result<SpStatement, SpParseError>,
> {
    s.map(|i: int, r: Result<Statement, ParseError>| match r {
        Ok(st) => Ok(st@),
        Err(e) => Err(e@),
    })
}

impl Parser {
    /// Panic-mode recovery: discard tokens through the next semicolon, a
    /// lexer error, or the end of input.
    fn resync(&mut self)
        requires
            old(self).wf(),
        ensures
            final(self).wf(),
            final(self).remaining() == sp_resync(old(self).remaining()),
            final(self).remaining().len() <= old(self).remaining().len(),
        decreases self.remaining().len(),
    {
        match self.get_next_token() {
            Err(_) => {},
            Ok(t) => {
                let is_semi = matches!(&t.kind, TokenKind::Symbol(Symbol::Semicolon));
                if !is_semi {
                    self.resync();
                }
            },
        }
    }

    /// Produce the next statement or error, or `None` at the end of
    /// input: exactly what one step of the parser model says.  On any
    /// error the stream is resynchronized through the next semicolon.
    pub fn next(&mut self) -> (r: Option<Result<Statement, ParseError>>)
        requires
            old(self).wf(),
        ensures
            final(self).wf(),
            final(self).remaining().len() <= old(self).remaining().len(),
            r is Some ==> final(self).remaining().len() < old(self).remaining().len(),
            forall|f: nat|
                f > 8 * old(self).remaining().len() + 14 ==> sp_step(old(self).remaining(), f) == (
                    step_res_view(r),
                    final(self).remaining(),
                ),
    {
        let ghost toks = old(self).remaining();
        let ghost n = toks.len();
        let kw = match self.expect_keyword_kind() {
            Err(e) => {
                let is_eof = matches!(&e, ParseError::Eof);
                if is_eof {
                    proof {
                        assert(n == 0);
                    }
                    return None;
                }
                self.resync();
                proof {
                    assert forall|f: nat| f > 8 * n + 14 implies sp_step(toks, f) == (
                        Some(Err::<SpStatement, SpParseError>(e@)),
                        final(self).remaining(),
                    ) by {
                        assert(f > 0);
                    }
                }
                return Some(Err(e));
            },
            Ok(k) => k,
        };
        let ghost rest = self.remaining();
        let dispatched: Option<Result<Statement, ParseError>> = match kw {
            Keyword::Create => Some(self.parse_create_statement()),
            Keyword::Alter => Some(self.parse_alter_statement()),
            Keyword::Drop => Some(self.parse_drop_statement()),
            Keyword::Insert => Some(self.parse_insert_statement()),
            Keyword::Select => Some(self.parse_select_statement()),
            Keyword::Update => Some(self.parse_update_statement()),
            Keyword::Delete => Some(self.parse_delete_statement()),
            _ => None,
        };
        let st = match dispatched {
            None => {
                self.resync();
                proof {
                    assert forall|f: nat| f > 8 * n + 14 implies sp_step(toks, f) == (
                        Some(Err::<SpStatement, SpParseError>(SpParseError::UnexpectedStatement)),
                        final(self).remaining(),
                    ) by {
                        assert(f > 0);
                    }
                }
                return Some(Err(ParseError::UnexpectedStatement));
            },
            Some(st) => st,
        };
        let ghost grest = self.remaining();
        let ghost gres = stmt_res_view(st);
        proof {
            if kw == Keyword::Create {
                assert forall|g: nat| g > 8 * n + 13 implies sp_create(rest, g)
                    == (SpParse::<SpStatement> { res: gres, rest: grest }) by {
                    assert(rest.len() < n);
                }
            } else if kw == Keyword::Alter {
                assert forall|g: nat| g > 8 * n + 13 implies sp_alter(rest, g)
                    == (SpParse::<SpStatement> { res: gres, rest: grest }) by {
                    assert(rest.len() < n);
                }
            } else if kw == Keyword::Insert {
                assert forall|g: nat| g > 8 * n + 13 implies sp_insert(rest, g)
                    == (SpParse::<SpStatement> { res: gres, rest: grest }) by {
                    assert(rest.len() < n);
                }
            } else if kw == Keyword::Select {
                assert forall|g: nat| g > 8 * n + 13 implies sp_select(rest, g)
                    == (SpParse::<SpStatement> { res: gres, rest: grest }) by {
                    assert(rest.len() < n);
                }
            } else if kw == Keyword::Update {
                assert forall|g: nat| g > 8 * n + 13 implies sp_update(rest, g)
                    == (SpParse::<SpStatement> { res: gres, rest: grest }) by {
                    assert(rest.len() < n);
                }
            } else if kw == Keyword::Delete {
                assert forall|g: nat| g > 8 * n + 13 implies sp_delete(rest, g)
                    == (SpParse::<SpStatement> { res: gres, rest: grest }) by {
                    assert(rest.len() < n);
                }
            } else {
                assert(kw == Keyword::Drop);
                assert(sp_drop(rest) == SpParse::<SpStatement> { res: gres, rest: grest });
            }
        }
        match st {
            Err(e) => {
                self.resync();
                proof {
                    assert forall|f: nat| f > 8 * n + 14 implies sp_step(toks, f) == (
                        Some(Err::<SpStatement, SpParseError>(e@)),
                        final(self).remaining(),
                    ) by {
                        assert(f > 0);
                    }
                }
                Some(Err(e))
            },
            Ok(stmt) => {
                match self.expect_symbol(Symbol::Semicolon) {
                    Ok(_) => {
                        proof {
                            assert forall|f: nat| f > 8 * n + 14 implies sp_step(toks, f) == (
                                Some(Ok::<SpStatement, SpParseError>(stmt@)),
                                final(self).remaining(),
                            ) by {
                                assert(f > 0);
                            }
                        }
                        Some(Ok(stmt))
                    },
                    Err(e) => {
                        self.resync();
                        proof {
                            assert forall|f: nat| f > 8 * n + 14 implies sp_step(toks, f) == (
                                Some(Err::<SpStatement, SpParseError>(e@)),
                                final(self).remaining(),
                            ) by {
                                assert(f > 0);
                            }
                        }
                        Some(Err(e))
                    },
                }
            },
        }
    }
}

/// Parse a whole input: every statement and error `spec_statements`
/// names, in order, with per-statement error recovery.
pub fn parse(content: Vec<char>, start: crate::position::Position) -> (out: Vec<
    Result<Statement, ParseError>,
>)
    requires
        start.row + content@.len() <= usize::MAX,
        start.col + 4 * content@.len() <= usize::MAX,
        start.index + 4 * content@.len() <= usize::MAX,
    ensures
        spec_stmt_results_view(out@) == spec_statements(
            crate::lexer::spec_tokens(content@, start),
        ),
{
    let lx = Lexer::new(content, start);
    let layer = BufferedLayer::new(lx);
    let mut parser = Parser::new(layer);
    let ghost all = spec_statements(parser.remaining());
    let mut out: Vec<Result<Statement, ParseError>> = Vec::new();
    proof {
        assert(spec_stmt_results_view(out@) =~= Seq::<Result<SpStatement, SpParseError>>::empty());
        assert(all =~= spec_stmt_results_view(out@) + all);
    }
    loop
        invariant
            parser.wf(),
            all == spec_stmt_results_view(out@) + spec_statements(parser.remaining()),
        ensures
            all == spec_stmt_results_view(out@),
        decreases parser.remaining().len(),
    {
        let ghost pre = parser.remaining();
        let ghost pre_out = out@;
        let step = parser.next();
        proof {
            assert(sp_step(pre, 8 * pre.len() + 15) == (step_res_view(step), parser.remaining()));
        }
        match step {
            Some(x) => {
                out.push(x);
                proof {
                    let sx = step_res_view(Some(x))->Some_0;
                    assert(spec_statements(pre) == seq![sx] + spec_statements(parser.remaining()));
                    assert(spec_stmt_results_view(out@) =~= spec_stmt_results_view(pre_out).push(
                        sx,
                    ));
                    assert(spec_stmt_results_view(pre_out).push(sx) + spec_statements(
                        parser.remaining(),
                    ) =~= spec_stmt_results_view(pre_out) + (seq![sx] + spec_statements(
                        parser.remaining(),
                    )));
                }
            },
            None => {
                proof {
                    assert(spec_statements(pre) =~= Seq::<
                        Result<SpStatement, SpParseError>,
                    >::empty());
                    assert(spec_stmt_results_view(out@) + spec_statements(parser.remaining())
                        =~= spec_stmt_results_view(out@));
                }
                break ;
            },
        }
    }
    out
}

} // verus!
