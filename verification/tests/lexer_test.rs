use sqlfront::lexer::{lex, LexError};
use sqlfront::position::Position;
use sqlfront::token::{Keyword, Literal, Symbol, Token, TokenKind};

fn lex_str(src: &str) -> Vec<Result<Token, LexError>> {
    let chars: Vec<char> = src.chars().collect();
    lex(chars, Position::default())
}

fn kinds(src: &str) -> Vec<TokenKind> {
    lex_str(src)
        .into_iter()
        .map(|r| r.expect("expected a token").kind)
        .collect()
}

#[test]
fn lex_select_statement_tokens() {
    assert_eq!(
        kinds("select 69;"),
        vec![
            TokenKind::Keyword(Keyword::Select),
            TokenKind::Literal(Literal::Integer(69)),
            TokenKind::Symbol(Symbol::Semicolon),
        ]
    );
}

#[test]
fn lex_every_keyword_spelling() {
    let table: Vec<(&str, Keyword)> = vec![
        ("create", Keyword::Create),
        ("table", Keyword::Table),
        ("alter", Keyword::Alter),
        ("drop", Keyword::Drop),
        ("insert", Keyword::Insert),
        ("update", Keyword::Update),
        ("delete", Keyword::Delete),
        ("select", Keyword::Select),
        ("from", Keyword::From),
        ("int", Keyword::Int),
        ("float", Keyword::Float),
        ("string", Keyword::String),
        ("boolean", Keyword::Boolean),
        ("datetime", Keyword::DateTime),
        ("add", Keyword::Add),
        ("modify", Keyword::Modify),
        ("rename", Keyword::Rename),
        ("column", Keyword::Column),
        ("to", Keyword::To),
        ("into", Keyword::Into),
        ("values", Keyword::Values),
        ("where", Keyword::Where),
        ("in", Keyword::In),
        ("not", Keyword::Not),
        ("like", Keyword::Like),
        ("and", Keyword::And),
        ("or", Keyword::Or),
        ("set", Keyword::SetClause),
    ];
    for (spelling, kw) in table {
        let toks = kinds(spelling);
        assert_eq!(toks.len(), 1, "one token for {}", spelling);
        assert_eq!(toks[0], TokenKind::Keyword(kw), "keyword {}", spelling);
    }
}

#[test]
fn lex_every_symbol_spelling() {
    let table: Vec<(&str, Symbol)> = vec![
        ("(", Symbol::OpenParanthesis),
        (")", Symbol::CloseParanthesis),
        ("[", Symbol::OpenSquareBracket),
        ("]", Symbol::CloseSquareBracket),
        ("{", Symbol::OpenCurlyBracket),
        ("}", Symbol::CloseCurlyBracket),
        (",", Symbol::Comma),
        (";", Symbol::Semicolon),
        ("+", Symbol::Plus),
        ("-", Symbol::Minus),
        ("*", Symbol::Star),
        ("/", Symbol::Divide),
        ("%", Symbol::Percent),
        ("=", Symbol::Equal),
        ("+=", Symbol::PlusEquals),
        ("-=", Symbol::MinusEquals),
        ("*=", Symbol::StarEquals),
        ("/=", Symbol::DivideEquals),
        ("%=", Symbol::PercentEquals),
        ("==", Symbol::Equals),
        ("!=", Symbol::NotEquals),
        ("<", Symbol::LessThan),
        ("<=", Symbol::LessThanOrEquals),
        (">", Symbol::GreaterThan),
        (">=", Symbol::GreaterThanOrEquals),
        ("&&", Symbol::And),
        ("||", Symbol::Or),
        ("!", Symbol::Not),
        ("&", Symbol::BitAnd),
        ("|", Symbol::BitOr),
        ("~", Symbol::BitNot),
        ("^", Symbol::Carret),
    ];
    for (spelling, sym) in table {
        let toks = kinds(spelling);
        assert_eq!(toks.len(), 1, "one token for {}", spelling);
        assert_eq!(toks[0], TokenKind::Symbol(sym), "symbol {}", spelling);
    }
}

#[test]
fn lex_keywords_case_insensitively() {
    assert_eq!(
        kinds("SELECT From WhErE"),
        vec![
            TokenKind::Keyword(Keyword::Select),
            TokenKind::Keyword(Keyword::From),
            TokenKind::Keyword(Keyword::Where),
        ]
    );
}

#[test]
fn lex_boolean_literals() {
    assert_eq!(
        kinds("true FALSE"),
        vec![
            TokenKind::Literal(Literal::Boolean(true)),
            TokenKind::Literal(Literal::Boolean(false)),
        ]
    );
}

#[test]
fn lex_float_keeps_spelling() {
    assert_eq!(
        kinds("1.25"),
        vec![TokenKind::Literal(Literal::Float("1.25".to_string()))]
    );
}

#[test]
fn lex_string_literal_both_quotes() {
    assert_eq!(
        kinds("'abc' \"x y\""),
        vec![
            TokenKind::Literal(Literal::String("abc".to_string())),
            TokenKind::Literal(Literal::String("x y".to_string())),
        ]
    );
}

#[test]
fn lex_comment_discarded_through_line_end() {
    assert_eq!(
        kinds("select # all of this is noise\n 1;"),
        vec![
            TokenKind::Keyword(Keyword::Select),
            TokenKind::Literal(Literal::Integer(1)),
            TokenKind::Symbol(Symbol::Semicolon),
        ]
    );
}

#[test]
fn lex_unterminated_string_is_one_error() {
    let toks = lex_str("select 'abc;");
    assert_eq!(toks.len(), 2, "one keyword, then exactly one error");
    assert!(toks[0].is_ok());
    let expected_pos = Position { row: 0, col: 7, index: 7 };
    assert_eq!(
        toks[1],
        Err(LexError::UnterminatedStringLiteral(expected_pos)),
        "the error points at the opening quote"
    );
}

#[test]
fn lex_integer_bounds() {
    assert_eq!(
        kinds("2147483647"),
        vec![TokenKind::Literal(Literal::Integer(2147483647))]
    );
    let toks = lex_str("2147483648");
    assert_eq!(toks.len(), 1);
    assert_eq!(
        toks[0],
        Err(LexError::NumberExceededSize(Position { row: 0, col: 0, index: 0 }))
    );
}

#[test]
fn lex_unterminated_float() {
    let toks = lex_str("1.;");
    assert_eq!(toks.len(), 2);
    assert_eq!(
        toks[0],
        Err(LexError::UnterminatedFloat(Position { row: 0, col: 1, index: 1 }))
    );
    assert!(toks[1].is_ok());
}

#[test]
fn lex_illegal_character() {
    let toks = lex_str("@");
    assert_eq!(toks.len(), 1);
    assert_eq!(
        toks[0],
        Err(LexError::IllegalCharacter('@', Position { row: 0, col: 0, index: 0 }))
    );
}

#[test]
fn lex_spans_track_rows_and_columns() {
    let toks = lex_str("ab\n <=");
    let t0 = toks[0].as_ref().unwrap();
    assert_eq!(t0.span.start, Position { row: 0, col: 0, index: 0 });
    assert_eq!(t0.span.end, Position { row: 0, col: 1, index: 1 });
    let t1 = toks[1].as_ref().unwrap();
    assert_eq!(t1.kind, TokenKind::Symbol(Symbol::LessThanOrEquals));
    assert_eq!(t1.span.start, Position { row: 1, col: 1, index: 4 });
    assert_eq!(t1.span.end, Position { row: 1, col: 2, index: 5 });
}

#[test]
fn lex_greedy_longest_match() {
    assert_eq!(
        kinds("a+=1"),
        vec![
            TokenKind::Ident("a".to_string()),
            TokenKind::Symbol(Symbol::PlusEquals),
            TokenKind::Literal(Literal::Integer(1)),
        ]
    );
}
