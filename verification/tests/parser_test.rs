use sqlfront::ast::{AlterType, BinaryOperator, Column, Datatype, Expression, Statement, UpdateSet};
use sqlfront::lexer::LexError;
use sqlfront::parser::{parse, ParseError};
use sqlfront::position::Position;
use sqlfront::token::{Keyword, Literal, TokenKind};

fn parse_str(command: &str) -> Vec<Result<Statement, ParseError>> {
    let chars: Vec<char> = command.chars().collect();
    parse(chars, Position::default())
}

fn int_lit(n: i32) -> Expression {
    Expression::Literal(Literal::Integer(n))
}

fn binary(left: Expression, op: BinaryOperator, right: Expression) -> Expression {
    Expression::Binary { left: Box::new(left), operator: op, right: Box::new(right) }
}

#[test]
fn precedence_multiplication_binds_tighter() {
    let mut statements = parse_str("select 1 + 2 * 3;");
    assert_eq!(statements.len(), 1);
    let expected = Statement::Select {
        select_expressions: vec![binary(
            int_lit(1),
            BinaryOperator::Add,
            binary(int_lit(2), BinaryOperator::Mul, int_lit(3)),
        )],
        from: None,
        predicate: None,
    };
    assert_eq!(statements.pop().unwrap().unwrap(), expected);
}

#[test]
fn precedence_parentheses_override() {
    let mut statements = parse_str("select (1 + 2) * 3;");
    assert_eq!(statements.len(), 1);
    let expected = Statement::Select {
        select_expressions: vec![binary(
            binary(int_lit(1), BinaryOperator::Add, int_lit(2)),
            BinaryOperator::Mul,
            int_lit(3),
        )],
        from: None,
        predicate: None,
    };
    assert_eq!(statements.pop().unwrap().unwrap(), expected);
}

#[test]
fn error_recovery_resumes_after_semicolon() {
    let statements = parse_str("selct 1; select 2;");
    assert_eq!(statements.len(), 2, "one error, then one statement");
    assert!(statements[0].is_err());
    let expected = Statement::Select {
        select_expressions: vec![int_lit(2)],
        from: None,
        predicate: None,
    };
    assert_eq!(*statements[1].as_ref().unwrap(), expected);
}

#[test]
fn unterminated_string_statement_yields_one_error() {
    let statements = parse_str("select 'abc;");
    assert_eq!(statements.len(), 1, "exactly one error, and the stream ends");
    match &statements[0] {
        Err(ParseError::Lex(LexError::UnterminatedStringLiteral(p))) => {
            assert_eq!(*p, Position { row: 0, col: 7, index: 7 });
        },
        other => panic!("expected an unterminated string error, got {:?}", other),
    }
}

#[test]
fn create_table_statement() {
    let mut statements = parse_str("create table users (id int, name string);");
    assert_eq!(statements.len(), 1);
    let expected = Statement::Create {
        table_name: "users".into(),
        columns: vec![
            Column { name: "id".into(), data_type: Datatype::Integer },
            Column { name: "name".into(), data_type: Datatype::String },
        ],
    };
    assert_eq!(statements.pop().unwrap().unwrap(), expected);
}

#[test]
fn alter_table_statement() {
    let mut statements = parse_str(
        "alter table users add column age int, drop column nick, rename column id to key_id;",
    );
    assert_eq!(statements.len(), 1);
    let expected = Statement::Alter {
        table_name: "users".into(),
        alter_types: vec![
            AlterType::Add(Column { name: "age".into(), data_type: Datatype::Integer }),
            AlterType::Drop("nick".into()),
            AlterType::Rename { from: "id".into(), to: "key_id".into() },
        ],
    };
    assert_eq!(statements.pop().unwrap().unwrap(), expected);
}

#[test]
fn drop_table_statement() {
    let mut statements = parse_str("drop table users;");
    assert_eq!(statements.len(), 1);
    let expected = Statement::Drop { table_name: "users".into() };
    assert_eq!(statements.pop().unwrap().unwrap(), expected);
}

#[test]
fn insert_statement_with_columns() {
    let mut statements = parse_str("insert into users (id, name) values (1, 'Bob');");
    assert_eq!(statements.len(), 1);
    let expected = Statement::Insert {
        table_name: "users".into(),
        columns: Some(vec!["id".into(), "name".into()]),
        values: vec![int_lit(1), Expression::Literal(Literal::String("Bob".into()))],
    };
    assert_eq!(statements.pop().unwrap().unwrap(), expected);
}

#[test]
fn insert_statement_without_columns() {
    let mut statements = parse_str("insert into users values (1);");
    assert_eq!(statements.len(), 1);
    let expected = Statement::Insert {
        table_name: "users".into(),
        columns: None,
        values: vec![int_lit(1)],
    };
    assert_eq!(statements.pop().unwrap().unwrap(), expected);
}

#[test]
fn update_statement() {
    let mut statements = parse_str("update users set name = 'x', age = 3 where id == 1;");
    assert_eq!(statements.len(), 1);
    let expected = Statement::Update {
        table_name: "users".into(),
        set: vec![
            UpdateSet {
                column: "name".into(),
                value: Expression::Literal(Literal::String("x".into())),
            },
            UpdateSet { column: "age".into(), value: int_lit(3) },
        ],
        predicate: Some(binary(
            Expression::Identifier("id".into()),
            BinaryOperator::Equals,
            int_lit(1),
        )),
    };
    assert_eq!(statements.pop().unwrap().unwrap(), expected);
}

#[test]
fn delete_statement() {
    let mut statements = parse_str("delete from users where id == 1;");
    assert_eq!(statements.len(), 1);
    let expected = Statement::Delete {
        table_name: "users".into(),
        predicate: Some(binary(
            Expression::Identifier("id".into()),
            BinaryOperator::Equals,
            int_lit(1),
        )),
    };
    assert_eq!(statements.pop().unwrap().unwrap(), expected);
}

#[test]
fn function_call_expression() {
    let mut statements = parse_str("select count(id, 1) from users;");
    assert_eq!(statements.len(), 1);
    let expected = Statement::Select {
        select_expressions: vec![Expression::FunctionCall {
            ident: "count".into(),
            arguments: vec![Expression::Identifier("id".into()), int_lit(1)],
        }],
        from: Some("users".into()),
        predicate: None,
    };
    assert_eq!(statements.pop().unwrap().unwrap(), expected);
}

#[test]
fn negation_expression() {
    let mut statements = parse_str("select 1 from users where not id == 1;");
    assert_eq!(statements.len(), 1);
    let expected = Statement::Select {
        select_expressions: vec![int_lit(1)],
        from: Some("users".into()),
        predicate: Some(Expression::Negation(Box::new(binary(
            Expression::Identifier("id".into()),
            BinaryOperator::Equals,
            int_lit(1),
        )))),
    };
    assert_eq!(statements.pop().unwrap().unwrap(), expected);
}

#[test]
fn missing_semicolon_is_reported() {
    let statements = parse_str("select 1");
    assert_eq!(statements.len(), 1);
    match &statements[0] {
        Err(ParseError::UnexpectedEof { expected }) => {
            assert_eq!(
                *expected,
                TokenKind::Symbol(sqlfront::token::Symbol::Semicolon)
            );
        },
        other => panic!("expected a missing-semicolon error, got {:?}", other),
    }
}

#[test]
fn unknown_leading_keyword_is_rejected() {
    let statements = parse_str("table users; select 1;");
    assert_eq!(statements.len(), 2);
    assert!(matches!(statements[0], Err(ParseError::UnexpectedStatement)));
    assert!(statements[1].is_ok());
}

#[test]
fn datatype_expected_error() {
    let statements = parse_str("create table t (x select);");
    assert_eq!(statements.len(), 1);
    assert!(matches!(statements[0], Err(ParseError::DatatypeExpected(_))));
}

#[test]
fn ident_expected_error() {
    let statements = parse_str("drop table 1;");
    assert_eq!(statements.len(), 1);
    assert!(matches!(statements[0], Err(ParseError::IdentExpected(_))));
}

#[test]
fn alter_unexpected_keyword_error() {
    let statements = parse_str("alter table t select column x;");
    assert_eq!(statements.len(), 1);
    match &statements[0] {
        Err(ParseError::UnexpectedKeyword { found, allowed }) => {
            assert_eq!(*found, Keyword::Select);
            assert_eq!(
                *allowed,
                vec![Keyword::Add, Keyword::Drop, Keyword::Modify, Keyword::Rename]
            );
        },
        other => panic!("expected an alter keyword error, got {:?}", other),
    }
}

#[test]
fn where_without_from_is_allowed() {
    let mut statements = parse_str("select id where id == 1;");
    assert_eq!(statements.len(), 1);
    let expected = Statement::Select {
        select_expressions: vec![Expression::Identifier("id".into())],
        from: None,
        predicate: Some(binary(
            Expression::Identifier("id".into()),
            BinaryOperator::Equals,
            int_lit(1),
        )),
    };
    assert_eq!(statements.pop().unwrap().unwrap(), expected);
}

#[test]
fn empty_input_yields_no_statements() {
    let statements = parse_str("   # only a comment\n");
    assert_eq!(statements.len(), 0);
}
