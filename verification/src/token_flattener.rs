//! The flattener: reads the tokens that the host's parser presents up to the
//! end of the stream and wraps them in one pair of braces, so that the whole
//! parses as a single block.

use vstd::prelude::*;
use crate::balance::balanced;
use crate::balance::lemma_balanced_in_delims;
use crate::balance::lemma_balanced_push_plain;
use crate::host::DelimToken;
use crate::host::Span;
use crate::host::Token;
use crate::host::TokenAndSpan;

verus! {

/// `s` is not empty and its last token is the end of the stream.
pub open spec fn ends_in_eof(s: Seq<TokenAndSpan>) -> bool {
    s.len() > 0 && s.last().tok is Eof
}

/// The index of the first end-of-stream token of `s`; the length of `s`
/// where it has none.
pub open spec fn eof_index(s: Seq<TokenAndSpan>) -> int
    decreases s.len(),
{
    if s.len() == 0 || s[0].tok is Eof {
        0
    } else {
        1 + eof_index(s.drop_first())
    }
}

/// The flat sequence for the tokens that a parser presents: an opening
/// brace with the span of the first token, the tokens before the end of the
/// stream, a closing brace with the span of the end-of-stream token, and
/// that token.
pub open spec fn flat(stream: Seq<TokenAndSpan>) -> Seq<TokenAndSpan> {
    let e = eof_index(stream);
    seq![TokenAndSpan { tok: Token::OpenDelim(DelimToken::Brace), sp: stream[0].sp }]
        + stream.subrange(0, e) + seq![
        TokenAndSpan { tok: Token::CloseDelim(DelimToken::Brace), sp: stream[e].sp },
        stream[e],
    ]
}

/// The first end-of-stream token stands at `k` where one stands there and
/// none before.
pub proof fn lemma_eof_index(s: Seq<TokenAndSpan>, k: int)
    requires
        0 <= k < s.len(),
        s[k].tok is Eof,
        forall|j: int| 0 <= j < k ==> !(#[trigger] s[j].tok is Eof),
    ensures
        eof_index(s) == k,
    decreases k,
{
    if k > 0 {
        assert(!(s[0].tok is Eof));
        let rest = s.drop_first();
        assert(rest[k - 1] == s[k]);
        assert forall|j: int| 0 <= j < k - 1 implies !(#[trigger] rest[j].tok is Eof) by {
            assert(rest[j] == s[j + 1]);
        }
        lemma_eof_index(rest, k - 1);
    }
}

/// In a stream that ends with the end-of-stream token, the first such token
/// stands inside the stream.
pub proof fn lemma_eof_index_in_bounds(s: Seq<TokenAndSpan>)
    requires
        ends_in_eof(s),
    ensures
        0 <= eof_index(s) < s.len(),
        s[eof_index(s)].tok is Eof,
        forall|j: int| 0 <= j < eof_index(s) ==> !(#[trigger] s[j].tok is Eof),
    decreases s.len(),
{
    if !(s[0].tok is Eof) {
        let rest = s.drop_first();
        assert(rest.last() == s.last());
        lemma_eof_index_in_bounds(rest);
        assert forall|j: int| 0 <= j < eof_index(s) implies !(#[trigger] s[j].tok is Eof) by {
            if j > 0 {
                assert(rest[j - 1] == s[j]);
            }
        }
    }
}

/// The flat sequence begins with an opening brace and ends with a closing
/// brace and the end-of-stream token; where the tokens that the parser
/// presented before the end of the stream are balanced, so is the flat
/// sequence.
pub proof fn lemma_flat_shape(stream: Seq<TokenAndSpan>)
    requires
        ends_in_eof(stream),
    ensures
        flat(stream).len() == eof_index(stream) + 3,
        flat(stream).first().tok == Token::OpenDelim(DelimToken::Brace),
        flat(stream)[flat(stream).len() - 2].tok == Token::CloseDelim(DelimToken::Brace),
        flat(stream).last().tok is Eof,
        balanced(stream.subrange(0, eof_index(stream))) ==> balanced(flat(stream)),
{
    lemma_eof_index_in_bounds(stream);
    let e = eof_index(stream);
    let body = stream.subrange(0, e);
    let open = TokenAndSpan { tok: Token::OpenDelim(DelimToken::Brace), sp: stream[0].sp };
    let close = TokenAndSpan { tok: Token::CloseDelim(DelimToken::Brace), sp: stream[e].sp };
    if balanced(body) {
        lemma_balanced_in_delims(open, body, close, DelimToken::Brace);
        lemma_balanced_push_plain(seq![open] + body + seq![close], stream[e]);
        assert((seq![open] + body + seq![close]).push(stream[e]) =~= flat(stream));
    }
}

/// The tokens that a parser presents, one at a time: the current token and
/// its span, and after each advance the next. The last token is the end of
/// the stream, and the cursor stays on it.
pub struct TokenCursor {
    tokens: Vec<TokenAndSpan>,
    pos: usize,
}

impl View for TokenCursor {
    type V = Seq<TokenAndSpan>;

    /// The tokens from the current one on.
    closed spec fn view(&self) -> Seq<TokenAndSpan> {
        self.tokens@.subrange(self.pos as int, self.tokens@.len() as int)
    }
}

impl TokenCursor {
    #[verifier::type_invariant]
    spec fn inv(self) -> bool {
        self.pos < self.tokens.len() && self.tokens@.last().tok is Eof
    }

    /// A cursor on the first of `tokens`, which are what the parser presents
    /// up to and including the end of the stream; `None` where they do not
    /// end with the end-of-stream token.
    pub fn new(tokens: Vec<TokenAndSpan>) -> (cursor: Option<TokenCursor>)
        ensures
            match cursor {
                Some(c) => c@ == tokens@ && ends_in_eof(tokens@),
                None => !ends_in_eof(tokens@),
            },
    {
        let n = tokens.len();
        if n > 0 && tokens[n - 1].tok.is_eof() {
            let cursor = TokenCursor { tokens: tokens, pos: 0 };
            assert(cursor@ =~= tokens@);
            Some(cursor)
        } else {
            None
        }
    }

    /// The current token.
    pub fn token(&self) -> (tok: &Token)
        ensures
            ends_in_eof(self@),
            *tok == self@[0].tok,
    {
        proof {
            use_type_invariant(self);
        }
        &self.tokens[self.pos].tok
    }

    /// The span of the current token.
    pub fn span(&self) -> (sp: Span)
        ensures
            ends_in_eof(self@),
            sp == self@[0].sp,
    {
        proof {
            use_type_invariant(self);
        }
        self.tokens[self.pos].sp
    }

    /// Advances to the next token; on the last token the cursor stays.
    pub fn bump(&mut self)
        ensures
            ends_in_eof(old(self)@),
            old(self)@.len() > 1 ==> final(self)@ == old(self)@.drop_first(),
            old(self)@.len() == 1 ==> final(self)@ == old(self)@,
    {
        proof {
            use_type_invariant(&*self);
        }
        if self.pos + 1 < self.tokens.len() {
            self.pos = self.pos + 1;
            assert(self@ =~= old(self)@.drop_first());
        }
    }
}

/// The state of one flattening: the parser's cursor and the flat sequence
/// written so far.
pub struct TokenFlattener {
    rp: TokenCursor,
    tokens: Vec<TokenAndSpan>,
}

impl TokenFlattener {
    /// The flat sequence for what the parser presents from `rp` on.
    pub fn flatten(rp: TokenCursor) -> (tokens: Vec<TokenAndSpan>)
        ensures
            ends_in_eof(rp@),
            tokens@ == flat(rp@),
            tokens@.len() >= 3,
            tokens@.first().tok == Token::OpenDelim(DelimToken::Brace),
            tokens@[tokens@.len() - 2].tok == Token::CloseDelim(DelimToken::Brace),
            tokens@.last().tok is Eof,
            balanced(rp@.subrange(0, eof_index(rp@))) ==> balanced(tokens@),
    {
        let mut flattener = TokenFlattener::new(rp);
        flattener.flatten_tokens();
        proof {
            lemma_eof_index_in_bounds(rp@);
            lemma_flat_shape(rp@);
        }
        flattener.tokens
    }

    fn new(rp: TokenCursor) -> (flattener: TokenFlattener)
        ensures
            flattener.rp == rp,
            flattener.tokens@ == Seq::<TokenAndSpan>::empty(),
    {
        TokenFlattener { rp: rp, tokens: Vec::new() }
    }

    fn flatten_tokens(&mut self)
        requires
            old(self).tokens@.len() == 0,
        ensures
            ends_in_eof(old(self).rp@),
            final(self).tokens@ == flat(old(self).rp@),
    {
        let ghost stream = self.rp@;
        let ghost mut k: int = 0;
        self.push_open_brace();
        loop
            invariant_except_break
                ends_in_eof(stream),
                0 <= k < stream.len(),
                self.rp@ == stream.subrange(k, stream.len() as int),
                forall|j: int| 0 <= j < k ==> !(#[trigger] stream[j].tok is Eof),
                self.tokens@ == seq![
                    TokenAndSpan { tok: Token::OpenDelim(DelimToken::Brace), sp: stream[0].sp },
                ] + stream.subrange(0, k),
            ensures
                ends_in_eof(stream),
                self.tokens@ == flat(stream),
            decreases stream.len() - k,
        {
            if self.rp.token().is_eof() {
                self.push_close_brace();
                self.push_current_tok();
                proof {
                    lemma_eof_index(stream, k);
                    assert(self.tokens@ =~= flat(stream));
                }
                break ;
            }
            self.push_current_tok();
            self.rp.bump();
            proof {
                assert(stream.subrange(k, stream.len() as int).drop_first() =~= stream.subrange(
                    k + 1,
                    stream.len() as int,
                ));
                assert(self.tokens@ =~= seq![
                    TokenAndSpan { tok: Token::OpenDelim(DelimToken::Brace), sp: stream[0].sp },
                ] + stream.subrange(0, k + 1));
                k = k + 1;
            }
        }
    }

    fn push_open_brace(&mut self)
        ensures
            ends_in_eof(old(self).rp@),
            final(self).rp == old(self).rp,
            final(self).tokens@ == old(self).tokens@.push(
                TokenAndSpan { tok: Token::OpenDelim(DelimToken::Brace), sp: old(self).rp@[0].sp },
            ),
    {
        self.push_tok(Token::OpenDelim(DelimToken::Brace));
    }

    fn push_close_brace(&mut self)
        ensures
            ends_in_eof(old(self).rp@),
            final(self).rp == old(self).rp,
            final(self).tokens@ == old(self).tokens@.push(
                TokenAndSpan { tok: Token::CloseDelim(DelimToken::Brace), sp: old(self).rp@[0].sp },
            ),
    {
        self.push_tok(Token::CloseDelim(DelimToken::Brace));
    }

    fn push_current_tok(&mut self)
        ensures
            ends_in_eof(old(self).rp@),
            final(self).rp == old(self).rp,
            final(self).tokens@ == old(self).tokens@.push(old(self).rp@[0]),
    {
        let cur = self.token_and_span();
        self.tokens.push(cur);
    }

    fn token_and_span(&mut self) -> (cur: TokenAndSpan)
        ensures
            ends_in_eof(old(self).rp@),
            final(self).rp == old(self).rp,
            final(self).tokens == old(self).tokens,
            cur == old(self).rp@[0],
    {
        TokenAndSpan { tok: self.rp.token().clone(), sp: self.rp.span() }
    }

    fn push_tok(&mut self, tok: Token)
        ensures
            ends_in_eof(old(self).rp@),
            final(self).rp == old(self).rp,
            final(self).tokens@ == old(self).tokens@.push(
                TokenAndSpan { tok: tok, sp: old(self).rp@[0].sp },
            ),
    {
        self.tokens.push(TokenAndSpan { tok: tok, sp: self.rp.span() })
    }
}

} // verus!
