use sqlfront::layer::BufferedLayer;
use sqlfront::lexer::Lexer;
use sqlfront::position::{Position, Span};
use sqlfront::token::{Symbol, Token, TokenKind};

fn token_at(kind: TokenKind, col: usize) -> Token {
    let p = Position { row: 0, col, index: col };
    Token::new(kind, Span { start: p, end: p })
}

#[test]
fn rewind_replays_before_the_source() {
    let chars: Vec<char> = ";".chars().collect();
    let mut layer = BufferedLayer::new(Lexer::new(chars, Position::default()));
    let t = token_at(TokenKind::Symbol(Symbol::Comma), 9);
    layer.rewind(t.clone());
    assert_eq!(layer.next(), Some(Ok(t)), "the rewound token comes first");
    assert_eq!(
        layer.next(),
        Some(Ok(token_at(TokenKind::Symbol(Symbol::Semicolon), 0))),
        "then the underlying source resumes"
    );
    assert_eq!(layer.next(), None);
}

#[test]
fn two_rewinds_replay_in_lifo_order() {
    let chars: Vec<char> = Vec::new();
    let mut layer = BufferedLayer::new(Lexer::new(chars, Position::default()));
    let first = token_at(TokenKind::Symbol(Symbol::Plus), 1);
    let second = token_at(TokenKind::Symbol(Symbol::Minus), 2);
    layer.rewind(first.clone());
    layer.rewind(second.clone());
    assert_eq!(layer.next(), Some(Ok(second)), "the last rewound token replays first");
    assert_eq!(layer.next(), Some(Ok(first)));
    assert_eq!(layer.next(), None);
}
