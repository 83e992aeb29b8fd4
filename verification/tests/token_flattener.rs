use ama::host::DelimToken;
use ama::host::Ident;
use ama::host::Span;
use ama::host::Token;
use ama::host::TokenAndSpan;
use ama::token_flattener::TokenCursor;
use ama::token_flattener::TokenFlattener;

fn at(tok: Token, lo: u32, hi: u32) -> TokenAndSpan {
    TokenAndSpan { tok: tok, sp: Span { lo: lo, hi: hi } }
}

fn word(name: &str) -> Token {
    Token::Ident(Ident { name: name.to_string(), id: 0 })
}

fn plus() -> Token {
    Token::Other { id: 0, text: "+".to_string() }
}

#[test]
fn flatten_wraps_the_stream_in_braces() {
    // a + b
    let stream = vec![at(word("a"), 5, 6), at(plus(), 7, 8), at(word("b"), 9, 10), at(Token::Eof, 9, 10)];
    let flat = TokenFlattener::flatten(TokenCursor::new(stream.clone()).unwrap());
    assert_eq!(
        flat,
        vec![
            at(Token::OpenDelim(DelimToken::Brace), 5, 6),
            stream[0].clone(),
            stream[1].clone(),
            stream[2].clone(),
            at(Token::CloseDelim(DelimToken::Brace), 9, 10),
            at(Token::Eof, 9, 10),
        ]
    );
}

#[test]
fn flatten_of_an_empty_stream() {
    let flat = TokenFlattener::flatten(TokenCursor::new(vec![at(Token::Eof, 0, 0)]).unwrap());
    assert_eq!(
        flat,
        vec![
            at(Token::OpenDelim(DelimToken::Brace), 0, 0),
            at(Token::CloseDelim(DelimToken::Brace), 0, 0),
            at(Token::Eof, 0, 0),
        ]
    );
}

#[test]
fn flatten_stops_at_the_first_end_of_stream() {
    let stream = vec![at(word("a"), 1, 2), at(Token::Eof, 3, 3), at(word("b"), 4, 5), at(Token::Eof, 6, 6)];
    let flat = TokenFlattener::flatten(TokenCursor::new(stream.clone()).unwrap());
    assert_eq!(
        flat,
        vec![
            at(Token::OpenDelim(DelimToken::Brace), 1, 2),
            stream[0].clone(),
            at(Token::CloseDelim(DelimToken::Brace), 3, 3),
            at(Token::Eof, 3, 3),
        ]
    );
}

#[test]
fn flatten_keeps_nested_groups_in_order() {
    // f ( [ x ] ) { }
    let toks = vec![
        word("f"),
        Token::OpenDelim(DelimToken::Paren),
        Token::OpenDelim(DelimToken::Bracket),
        word("x"),
        Token::CloseDelim(DelimToken::Bracket),
        Token::CloseDelim(DelimToken::Paren),
        Token::OpenDelim(DelimToken::Brace),
        Token::CloseDelim(DelimToken::Brace),
        Token::Eof,
    ];
    let mut stream = vec![];
    let mut lo = 0;
    for tok in toks {
        stream.push(at(tok, lo, lo + 1));
        lo += 2;
    }
    let flat = TokenFlattener::flatten(TokenCursor::new(stream.clone()).unwrap());
    assert_eq!(flat.len(), stream.len() + 2);
    assert_eq!(flat[0], at(Token::OpenDelim(DelimToken::Brace), 0, 1));
    assert_eq!(&flat[1..9], &stream[0..8]);
    assert_eq!(flat[9], at(Token::CloseDelim(DelimToken::Brace), 16, 17));
    assert_eq!(flat[10], stream[8]);
    let mut depth: i64 = 0;
    for t in &flat {
        match t.tok {
            Token::OpenDelim(_) => depth += 1,
            Token::CloseDelim(_) => depth -= 1,
            _ => {}
        }
        assert!(depth >= 0);
    }
    assert_eq!(depth, 0);
}

#[test]
fn cursor_wants_the_end_of_stream_last() {
    assert!(TokenCursor::new(vec![]).is_none());
    assert!(TokenCursor::new(vec![at(word("a"), 0, 1)]).is_none());
    assert!(TokenCursor::new(vec![at(Token::Eof, 0, 0), at(word("a"), 0, 1)]).is_none());
    assert!(TokenCursor::new(vec![at(word("a"), 0, 1), at(Token::Eof, 1, 1)]).is_some());
}

#[test]
fn cursor_presents_the_tokens_in_turn_and_stays_on_the_last() {
    let mut rp = TokenCursor::new(vec![at(word("a"), 0, 1), at(plus(), 2, 3), at(Token::Eof, 3, 4)]).unwrap();
    assert_eq!(*rp.token(), word("a"));
    assert_eq!(rp.span(), Span { lo: 0, hi: 1 });
    rp.bump();
    assert_eq!(*rp.token(), plus());
    assert_eq!(rp.span(), Span { lo: 2, hi: 3 });
    rp.bump();
    assert_eq!(*rp.token(), Token::Eof);
    assert_eq!(rp.span(), Span { lo: 3, hi: 4 });
    rp.bump();
    assert_eq!(*rp.token(), Token::Eof);
    assert_eq!(rp.span(), Span { lo: 3, hi: 4 });
}
