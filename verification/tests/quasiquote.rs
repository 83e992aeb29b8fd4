use ama::compiler::Compiler;
use ama::compiler::Unquote;
use ama::host::Block;
use ama::host::DelimToken;
use ama::host::Diagnostic;
use ama::host::Expr;
use ama::host::Ident;
use ama::host::Level;
use ama::host::Nonterminal;
use ama::host::Span;
use ama::host::Token;
use ama::host::TokenAndSpan;
use ama::quasiquote::Quasiquote;
use ama::quasiquote::UNCLOSED_DELIMITER;

/// One call of the collaborator, as the test collaborator saw it.
#[derive(Debug, PartialEq)]
struct Call {
    block: bool,
    code: String,
    span: Span,
    idents: usize,
}

/// A collaborator that records its calls and answers with numbered nodes.
struct Recorder {
    calls: Vec<Call>,
    seen: Vec<(String, Option<u64>)>,
    watch: Vec<String>,
}

impl Recorder {
    fn new(watch: &[&str]) -> Recorder {
        Recorder { calls: vec![], seen: vec![], watch: watch.iter().map(|s| s.to_string()).collect() }
    }

    fn record(&mut self, block: bool, unquote: &Unquote) -> u64 {
        for name in &self.watch {
            let found = unquote.text_to_ident.get(name.as_str()).map(|ident| ident.id);
            self.seen.push((name.clone(), found));
        }
        self.calls.push(Call {
            block: block,
            code: unquote.code.clone(),
            span: unquote.span,
            idents: unquote.text_to_ident.len(),
        });
        self.calls.len() as u64
    }
}

impl Compiler for Recorder {
    fn compile_expr(&mut self, unquote: Unquote) -> Expr {
        let id = self.record(false, &unquote);
        Expr { id: id, text: format!("({})", unquote.code.trim_end()) }
    }

    fn compile_block(&mut self, unquote: Unquote) -> Block {
        let id = self.record(true, &unquote);
        Block { id: id, text: format!("{{ {} }}", unquote.code.trim_end()) }
    }
}

fn sp(lo: u32, hi: u32) -> Span {
    Span { lo: lo, hi: hi }
}

/// Lays tokens out one after the other, each one byte wide at positions
/// 10, 20, 30 and so on.
fn lay_out(toks: Vec<Token>) -> Vec<TokenAndSpan> {
    let mut out = vec![];
    let mut lo = 10;
    for tok in toks {
        out.push(TokenAndSpan { tok: tok, sp: sp(lo, lo + 1) });
        lo += 10;
    }
    out
}

fn other(text: &str) -> Token {
    Token::Other { id: 0, text: text.to_string() }
}

fn ident(name: &str, id: u64) -> Token {
    Token::Ident(Ident { name: name.to_string(), id: id })
}

fn open(d: DelimToken) -> Token {
    Token::OpenDelim(d)
}

fn close(d: DelimToken) -> Token {
    Token::CloseDelim(d)
}

fn interpolated_expr(id: u64, text: &str, lo: u32, hi: u32) -> TokenAndSpan {
    TokenAndSpan {
        tok: Token::Interpolated(Nonterminal::NtExpr(Expr { id: id, text: text.to_string() })),
        sp: sp(lo, hi),
    }
}

fn interpolated_block(id: u64, text: &str, lo: u32, hi: u32) -> TokenAndSpan {
    TokenAndSpan {
        tok: Token::Interpolated(Nonterminal::NtBlock(Block { id: id, text: text.to_string() })),
        sp: sp(lo, hi),
    }
}

fn region_starts(seq: &[TokenAndSpan]) -> usize {
    let mut n = 0;
    for i in 0..seq.len() {
        if i + 1 < seq.len() && seq[i].tok == Token::Sigil {
            if seq[i + 1].tok == open(DelimToken::Paren) || seq[i + 1].tok == open(DelimToken::Brace) {
                n += 1;
            }
        }
    }
    n
}

fn unclosed_at(lo: u32, hi: u32) -> Diagnostic {
    Diagnostic { level: Level::Fatal, span: Some(sp(lo, hi)), message: UNCLOSED_DELIMITER.to_string() }
}

#[test]
fn identity_without_region() {
    let input = lay_out(vec![ident("a", 1), other("+"), ident("b", 2)]);
    let mut rec = Recorder::new(&[]);
    let out = Quasiquote::compile(input.clone(), &mut rec);
    assert_eq!(out, Ok(input));
    assert!(rec.calls.is_empty());
}

#[test]
fn empty_input_gives_empty_output() {
    let mut rec = Recorder::new(&[]);
    let out = Quasiquote::compile(vec![], &mut rec);
    assert_eq!(out, Ok(vec![]));
    assert!(rec.calls.is_empty());
}

#[test]
fn single_expression_quasiquote() {
    // 1 + #(x * y) + 3
    let input = lay_out(vec![
        other("1"),
        other("+"),
        Token::Sigil,
        open(DelimToken::Paren),
        ident("x", 7),
        other("*"),
        ident("y", 8),
        close(DelimToken::Paren),
        other("+"),
        other("3"),
    ]);
    let mut rec = Recorder::new(&["x", "y", "z"]);
    let out = Quasiquote::compile(input.clone(), &mut rec).unwrap();
    let mut expected = vec![input[0].clone(), input[1].clone()];
    expected.push(interpolated_expr(1, "(x * y)", 30, 81));
    expected.push(input[8].clone());
    expected.push(input[9].clone());
    assert_eq!(out, expected);
    assert_eq!(out.len(), input.len() - 6 + 1);
    assert_eq!(
        rec.calls,
        vec![Call { block: false, code: "x * y ".to_string(), span: sp(30, 81), idents: 2 }]
    );
    assert_eq!(
        rec.seen,
        vec![("x".to_string(), Some(7)), ("y".to_string(), Some(8)), ("z".to_string(), None)]
    );
}

#[test]
fn nested_same_kind_delimiters() {
    // #((a + b) * c)
    let input = lay_out(vec![
        Token::Sigil,
        open(DelimToken::Paren),
        open(DelimToken::Paren),
        ident("a", 1),
        other("+"),
        ident("b", 2),
        close(DelimToken::Paren),
        other("*"),
        ident("c", 3),
        close(DelimToken::Paren),
    ]);
    let mut rec = Recorder::new(&[]);
    let out = Quasiquote::compile(input, &mut rec).unwrap();
    assert_eq!(out, vec![interpolated_expr(1, "(( a + b ) * c)", 10, 101)]);
    assert_eq!(
        rec.calls,
        vec![Call { block: false, code: "( a + b ) * c ".to_string(), span: sp(10, 101), idents: 3 }]
    );
}

#[test]
fn block_quasiquote() {
    // let r = #{ stmt1; stmt2 };
    let input = lay_out(vec![
        other("let"),
        ident("r", 1),
        other("="),
        Token::Sigil,
        open(DelimToken::Brace),
        ident("stmt1", 2),
        other(";"),
        ident("stmt2", 3),
        close(DelimToken::Brace),
        other(";"),
    ]);
    let mut rec = Recorder::new(&[]);
    let out = Quasiquote::compile(input.clone(), &mut rec).unwrap();
    assert_eq!(
        out,
        vec![
            input[0].clone(),
            input[1].clone(),
            input[2].clone(),
            interpolated_block(1, "{ stmt1 ; stmt2 }", 40, 91),
            input[9].clone(),
        ]
    );
    assert_eq!(
        rec.calls,
        vec![Call { block: true, code: "stmt1 ; stmt2 ".to_string(), span: sp(40, 91), idents: 2 }]
    );
}

#[test]
fn unclosed_region() {
    // #( a + b
    let input =
        lay_out(vec![Token::Sigil, open(DelimToken::Paren), ident("a", 1), other("+"), ident("b", 2)]);
    let mut rec = Recorder::new(&[]);
    let out = Quasiquote::compile(input, &mut rec);
    assert_eq!(out, Err(unclosed_at(20, 21)));
    assert_eq!(UNCLOSED_DELIMITER, "unclosed delimiter of anonymous macro.");
    assert!(rec.calls.is_empty());
}

#[test]
fn unclosed_nested_region() {
    // #( ( a )
    let input = lay_out(vec![
        Token::Sigil,
        open(DelimToken::Paren),
        open(DelimToken::Paren),
        ident("a", 1),
        close(DelimToken::Paren),
    ]);
    let mut rec = Recorder::new(&[]);
    assert_eq!(Quasiquote::compile(input, &mut rec), Err(unclosed_at(20, 21)));
}

#[test]
fn unclosed_region_after_a_closed_one() {
    // #(a) #{ b
    let input = lay_out(vec![
        Token::Sigil,
        open(DelimToken::Paren),
        ident("a", 1),
        close(DelimToken::Paren),
        Token::Sigil,
        open(DelimToken::Brace),
        ident("b", 2),
    ]);
    let mut rec = Recorder::new(&[]);
    assert_eq!(Quasiquote::compile(input, &mut rec), Err(unclosed_at(60, 61)));
    assert_eq!(rec.calls, vec![Call { block: false, code: "a ".to_string(), span: sp(10, 41), idents: 1 }]);
}

#[test]
fn sigil_and_opener_at_the_very_end_are_unclosed() {
    let input = lay_out(vec![other("x"), Token::Sigil, open(DelimToken::Brace)]);
    let mut rec = Recorder::new(&[]);
    assert_eq!(Quasiquote::compile(input, &mut rec), Err(unclosed_at(30, 31)));
}

#[test]
fn mixed_sibling_regions() {
    // #(e1) + #{b1}
    let input = lay_out(vec![
        Token::Sigil,
        open(DelimToken::Paren),
        ident("e1", 1),
        close(DelimToken::Paren),
        other("+"),
        Token::Sigil,
        open(DelimToken::Brace),
        ident("b1", 2),
        close(DelimToken::Brace),
    ]);
    let mut rec = Recorder::new(&[]);
    let out = Quasiquote::compile(input.clone(), &mut rec).unwrap();
    assert_eq!(
        out,
        vec![
            interpolated_expr(1, "(e1)", 10, 41),
            input[4].clone(),
            interpolated_block(2, "{ b1 }", 60, 91),
        ]
    );
    assert_eq!(
        rec.calls,
        vec![
            Call { block: false, code: "e1 ".to_string(), span: sp(10, 41), idents: 1 },
            Call { block: true, code: "b1 ".to_string(), span: sp(60, 91), idents: 1 },
        ]
    );
}

#[test]
fn sigil_at_end_of_stream_passes_through() {
    let input = lay_out(vec![ident("a", 1), Token::Sigil]);
    let mut rec = Recorder::new(&[]);
    assert_eq!(Quasiquote::compile(input.clone(), &mut rec), Ok(input));
    assert!(rec.calls.is_empty());
}

#[test]
fn lone_sigil_passes_through() {
    let input = lay_out(vec![Token::Sigil]);
    let mut rec = Recorder::new(&[]);
    assert_eq!(Quasiquote::compile(input.clone(), &mut rec), Ok(input));
}

#[test]
fn sigil_before_bracket_passes_through() {
    // #[inline] x
    let input = lay_out(vec![
        Token::Sigil,
        open(DelimToken::Bracket),
        ident("inline", 1),
        close(DelimToken::Bracket),
        ident("x", 2),
    ]);
    let mut rec = Recorder::new(&[]);
    assert_eq!(Quasiquote::compile(input.clone(), &mut rec), Ok(input));
    assert!(rec.calls.is_empty());
}

#[test]
fn sigil_before_anything_else_passes_through() {
    let input = lay_out(vec![
        Token::Sigil,
        ident("x", 1),
        Token::Sigil,
        close(DelimToken::Paren),
        Token::Sigil,
        Token::Sigil,
        Token::Eof,
    ]);
    let mut rec = Recorder::new(&[]);
    assert_eq!(Quasiquote::compile(input.clone(), &mut rec), Ok(input));
}

#[test]
fn delimiters_of_other_kinds_are_not_counted() {
    // #( [ ) ] : the region ends at the first `)`, whatever the bracket does.
    let input = lay_out(vec![
        Token::Sigil,
        open(DelimToken::Paren),
        open(DelimToken::Bracket),
        close(DelimToken::Paren),
        close(DelimToken::Bracket),
    ]);
    let mut rec = Recorder::new(&[]);
    let out = Quasiquote::compile(input.clone(), &mut rec).unwrap();
    assert_eq!(out, vec![interpolated_expr(1, "([)", 10, 41), input[4].clone()]);
    assert_eq!(rec.calls[0].code, "[ ");
}

#[test]
fn braces_inside_parentheses_do_not_close_the_region() {
    // #( { } } ) in a paren region: braces are ignored, one `)` closes.
    let input = lay_out(vec![
        Token::Sigil,
        open(DelimToken::Paren),
        open(DelimToken::Brace),
        close(DelimToken::Brace),
        close(DelimToken::Brace),
        close(DelimToken::Paren),
    ]);
    let mut rec = Recorder::new(&[]);
    let out = Quasiquote::compile(input, &mut rec).unwrap();
    assert_eq!(out.len(), 1);
    assert_eq!(out[0].sp, sp(10, 61));
    assert_eq!(rec.calls[0].code, "{ } } ");
}

#[test]
fn nested_braces_in_a_block_region() {
    // #{ a { b } c }
    let input = lay_out(vec![
        Token::Sigil,
        open(DelimToken::Brace),
        ident("a", 1),
        open(DelimToken::Brace),
        ident("b", 2),
        close(DelimToken::Brace),
        ident("c", 3),
        close(DelimToken::Brace),
        other(";"),
    ]);
    let mut rec = Recorder::new(&[]);
    let out = Quasiquote::compile(input.clone(), &mut rec).unwrap();
    assert_eq!(out, vec![interpolated_block(1, "{ a { b } c }", 10, 81), input[8].clone()]);
    assert_eq!(rec.calls[0].code, "a { b } c ");
}

#[test]
fn empty_region() {
    let input = lay_out(vec![Token::Sigil, open(DelimToken::Paren), close(DelimToken::Paren)]);
    let mut rec = Recorder::new(&[]);
    let out = Quasiquote::compile(input, &mut rec).unwrap();
    assert_eq!(out, vec![interpolated_expr(1, "()", 10, 31)]);
    assert_eq!(rec.calls, vec![Call { block: false, code: "".to_string(), span: sp(10, 31), idents: 0 }]);
}

#[test]
fn region_inside_a_region_is_not_scanned_again() {
    // #( a #(b) )
    let input = lay_out(vec![
        Token::Sigil,
        open(DelimToken::Paren),
        ident("a", 1),
        Token::Sigil,
        open(DelimToken::Paren),
        ident("b", 2),
        close(DelimToken::Paren),
        close(DelimToken::Paren),
    ]);
    let mut rec = Recorder::new(&[]);
    let out = Quasiquote::compile(input, &mut rec).unwrap();
    assert_eq!(out.len(), 1);
    assert_eq!(rec.calls.len(), 1);
    assert_eq!(rec.calls[0].code, "a # ( b ) ");
    assert_eq!(rec.calls[0].span, sp(10, 81));
}

#[test]
fn later_identifier_overwrites_earlier_one_of_the_same_spelling() {
    // #(x y x) with two different `x`
    let input = lay_out(vec![
        Token::Sigil,
        open(DelimToken::Paren),
        ident("x", 1),
        ident("y", 2),
        ident("x", 3),
        close(DelimToken::Paren),
    ]);
    let mut rec = Recorder::new(&["x", "y"]);
    Quasiquote::compile(input, &mut rec).unwrap();
    assert_eq!(rec.calls[0].idents, 2);
    assert_eq!(rec.calls[0].code, "x y x ");
    assert_eq!(rec.seen, vec![("x".to_string(), Some(3)), ("y".to_string(), Some(2))]);
}

#[test]
fn delimiters_of_the_region_are_not_among_its_identifiers_or_code() {
    let input = lay_out(vec![
        Token::Sigil,
        open(DelimToken::Brace),
        other("42"),
        close(DelimToken::Brace),
    ]);
    let mut rec = Recorder::new(&["{", "}", "#"]);
    Quasiquote::compile(input, &mut rec).unwrap();
    assert_eq!(rec.calls[0].code, "42 ");
    assert_eq!(rec.calls[0].idents, 0);
    assert_eq!(
        rec.seen,
        vec![("{".to_string(), None), ("}".to_string(), None), ("#".to_string(), None)]
    );
}

#[test]
fn interpolated_token_inside_a_region_is_written_as_its_text() {
    let inner = interpolated_expr(9, "f(1)", 30, 35);
    let mut input =
        lay_out(vec![Token::Sigil, open(DelimToken::Paren), other("?"), close(DelimToken::Paren)]);
    input[2] = inner;
    let mut rec = Recorder::new(&[]);
    Quasiquote::compile(input, &mut rec).unwrap();
    assert_eq!(rec.calls[0].code, "f(1) ");
}

#[test]
fn no_region_is_left_in_the_output() {
    let inputs = vec![
        vec![Token::Sigil, Token::Sigil, open(DelimToken::Paren), close(DelimToken::Paren)],
        vec![
            Token::Sigil,
            Token::Sigil,
            open(DelimToken::Brace),
            close(DelimToken::Brace),
            open(DelimToken::Paren),
        ],
        vec![
            Token::Sigil,
            open(DelimToken::Paren),
            close(DelimToken::Paren),
            open(DelimToken::Paren),
            Token::Sigil,
            open(DelimToken::Bracket),
        ],
        vec![
            Token::Sigil,
            open(DelimToken::Paren),
            Token::Sigil,
            close(DelimToken::Paren),
            Token::Sigil,
            open(DelimToken::Brace),
            close(DelimToken::Brace),
        ],
    ];
    for toks in inputs {
        let mut rec = Recorder::new(&[]);
        let out = Quasiquote::compile(lay_out(toks), &mut rec).unwrap();
        assert_eq!(region_starts(&out), 0);
    }
}

#[test]
fn tokens_outside_regions_keep_order_and_spans() {
    let input = lay_out(vec![
        other("a"),
        Token::Sigil,
        open(DelimToken::Paren),
        other("b"),
        close(DelimToken::Paren),
        other("c"),
        Token::Sigil,
        open(DelimToken::Brace),
        close(DelimToken::Brace),
        other("d"),
        Token::Eof,
    ]);
    let mut rec = Recorder::new(&[]);
    let out = Quasiquote::compile(input.clone(), &mut rec).unwrap();
    assert_eq!(out.len(), 6);
    assert_eq!(out[0], input[0]);
    assert_eq!(out[1].sp, sp(20, 51));
    assert_eq!(out[2], input[5]);
    assert_eq!(out[3].sp, sp(70, 91));
    assert_eq!(out[4], input[9]);
    assert_eq!(out[5], input[10]);
}
