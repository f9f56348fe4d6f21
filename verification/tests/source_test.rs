use sqlfront::ast::{Expression, Statement};
use sqlfront::lexer::LexError;
use sqlfront::parser::{parse, ParseError};
use sqlfront::position::{Position, Span};
use sqlfront::source::{RawStatement, Source};
use sqlfront::token::Literal;

fn parse_str(command: &str) -> Vec<Result<Statement, ParseError>> {
    let chars: Vec<char> = command.chars().collect();
    parse(chars, Position::default())
}

#[test]
fn two_statements_parse_in_order() {
    let statements = parse_str("select 1; select 2;");
    assert_eq!(statements.len(), 2);
    assert_eq!(
        *statements[0].as_ref().unwrap(),
        Statement::Select {
            select_expressions: vec![Expression::Literal(Literal::Integer(1))],
            from: None,
            predicate: None,
        }
    );
    assert_eq!(
        *statements[1].as_ref().unwrap(),
        Statement::Select {
            select_expressions: vec![Expression::Literal(Literal::Integer(2))],
            from: None,
            predicate: None,
        }
    );
}

#[test]
fn float_literal_parses_with_its_spelling() {
    let mut statements = parse_str("select 1.5;");
    assert_eq!(statements.len(), 1);
    assert_eq!(
        statements.pop().unwrap().unwrap(),
        Statement::Select {
            select_expressions: vec![Expression::Literal(Literal::Float("1.5".to_string()))],
            from: None,
            predicate: None,
        }
    );
}

#[test]
fn boolean_literal_parses() {
    let mut statements = parse_str("select true;");
    assert_eq!(statements.len(), 1);
    assert_eq!(
        statements.pop().unwrap().unwrap(),
        Statement::Select {
            select_expressions: vec![Expression::Literal(Literal::Boolean(true))],
            from: None,
            predicate: None,
        }
    );
}

#[test]
fn raw_statement_yields_positioned_atoms() {
    let raw = RawStatement {
        content: "a\nb".chars().collect(),
        span: Span {
            start: Position { row: 2, col: 1, index: 10 },
            end: Position { row: 3, col: 1, index: 13 },
        },
    };
    let mut it = raw.iter();
    let a = it.next().unwrap();
    assert_eq!(a.value, 'a');
    assert_eq!(a.position, Position { row: 2, col: 1, index: 10 });
    let nl = it.next().unwrap();
    assert_eq!(nl.value, '\n');
    assert_eq!(nl.position, Position { row: 2, col: 2, index: 11 });
    let b = it.next().unwrap();
    assert_eq!(b.value, 'b');
    assert_eq!(b.position, Position { row: 3, col: 0, index: 12 });
    assert_eq!(it.next(), None);
}

#[test]
fn raw_statement_slice_recovers_excerpt() {
    let raw = RawStatement {
        content: "select x;".chars().collect(),
        span: Span {
            start: Position { row: 0, col: 0, index: 100 },
            end: Position { row: 0, col: 9, index: 109 },
        },
    };
    let excerpt = raw.slice(&Span {
        start: Position { row: 0, col: 7, index: 107 },
        end: Position { row: 0, col: 7, index: 107 },
    });
    assert_eq!(excerpt, vec!['x']);
}

#[test]
fn source_hands_out_characters_and_excerpts() {
    let src = Source::new("ab;".chars().collect());
    assert_eq!(src.char_at(0), Some('a'));
    assert_eq!(src.char_at(3), None);
    let mut it = src.iter();
    let first = it.next().unwrap();
    assert_eq!(first.value, 'a');
    assert_eq!(first.position, Position { row: 0, col: 0, index: 0 });
    let excerpt = src.slice(Span {
        start: Position { row: 0, col: 1, index: 1 },
        end: Position { row: 0, col: 2, index: 2 },
    });
    assert_eq!(excerpt, vec!['b', ';']);
}

#[test]
fn errors_describe_themselves() {
    let pos = Position { row: 0, col: 0, index: 0 };
    assert_eq!(
        LexError::UnterminatedStringLiteral(pos).describe(),
        "unterminated string literal"
    );
    assert_eq!(LexError::UnterminatedStringLiteral(pos).position(), pos);
    assert_eq!(
        ParseError::Lex(LexError::NumberExceededSize(pos)).describe(),
        "number exceeds the integer size limit"
    );
    assert_eq!(
        ParseError::UnexpectedStatement.describe(),
        "no statement starts with this keyword"
    );
}
