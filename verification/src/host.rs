//! The host compiler's side of the work, as plain values: spans, tokens, the
//! handles of parsed nodes, and diagnostics.

use syntex_syntax::parse::token;
use syntex_syntax::print::pprust;
use vstd::prelude::*;
use vstd::string::StringExecFns;

verus! {

/// A source span: the position where it starts and the position where it ends.
#[derive(Clone, Copy, PartialEq, Eq, Structural, Debug)]
pub struct Span {
    pub lo: u32,
    pub hi: u32,
}

/// The three shapes of bracket.
#[derive(Clone, Copy, PartialEq, Eq, Structural, Debug)]
pub enum DelimToken {
    /// A round parenthesis: `(` or `)`.
    Paren,
    /// A square bracket: `[` or `]`.
    Bracket,
    /// A curly brace: `{` or `}`.
    Brace,
}

/// A plain identifier: its spelling, and the number under which the host
/// keeps it, hygiene context and all.
#[derive(PartialEq, Eq, Debug)]
pub struct Ident {
    pub name: String,
    pub id: u64,
}

/// An expression that the host has parsed: the number under which the host
/// keeps the node, and the node printed as source text.
#[derive(PartialEq, Eq, Debug)]
pub struct Expr {
    pub id: u64,
    pub text: String,
}

/// A block that the host has parsed: the number under which the host keeps
/// the node, and the node printed as source text.
#[derive(PartialEq, Eq, Debug)]
pub struct Block {
    pub id: u64,
    pub text: String,
}

/// A parsed subtree that one token can stand for.
#[derive(PartialEq, Eq, Debug)]
pub enum Nonterminal {
    NtExpr(Expr),
    NtBlock(Block),
}

/// The kinds of token that quasiquotation tells apart. Every other token of
/// the host is `Other`: the number under which the host keeps it, and its text.
#[derive(PartialEq, Eq, Debug)]
pub enum Token {
    /// The lead marker of an anonymous macro, written `#`.
    Sigil,
    /// An opening delimiter.
    OpenDelim(DelimToken),
    /// A closing delimiter.
    CloseDelim(DelimToken),
    /// A plain identifier.
    Ident(Ident),
    /// One token that stands for a subtree parsed already.
    Interpolated(Nonterminal),
    /// The end of the stream.
    Eof,
    /// Any other token.
    Other { id: u64, text: String },
}

/// How grave a diagnostic is.
#[derive(Clone, Copy, PartialEq, Eq, Structural, Debug)]
pub enum Level {
    /// The expansion cannot go on.
    Fatal,
    /// An error that does not stop the expansion.
    Error,
    /// For information only.
    Note,
}

/// A message for the host's diagnostic channel.
#[derive(PartialEq, Eq, Debug)]
pub struct Diagnostic {
    pub level: Level,
    /// The place the message is about, where it has one.
    pub span: Option<Span>,
    pub message: String,
}

/// A token with the place it came from.
#[derive(PartialEq, Eq, Debug)]
pub struct TokenAndSpan {
    pub tok: Token,
    pub sp: Span,
}

impl Span {
    /// The span from the start of `self` to the end of `last`.
    pub open spec fn spec_to(self, last: Span) -> Span {
        Span { lo: self.lo, hi: last.hi }
    }

    /// The span from the start of `self` to the end of `last`.
    #[verifier::when_used_as_spec(spec_to)]
    pub fn to(self, last: Span) -> (sp: Span)
        ensures
            sp == self.spec_to(last),
    {
        Span { lo: self.lo, hi: last.hi }
    }
}

impl DelimToken {
    /// The character that opens a group of this shape.
    pub open spec fn open_char(self) -> char {
        match self {
            DelimToken::Paren => '(',
            DelimToken::Bracket => '[',
            DelimToken::Brace => '{',
        }
    }

    /// The character that closes a group of this shape.
    pub open spec fn close_char(self) -> char {
        match self {
            DelimToken::Paren => ')',
            DelimToken::Bracket => ']',
            DelimToken::Brace => '}',
        }
    }
}

impl Clone for Ident {
    fn clone(&self) -> (res: Self)
        ensures
            res == *self,
    {
        Ident { name: self.name.clone(), id: self.id }
    }
}

impl Clone for Expr {
    fn clone(&self) -> (res: Self)
        ensures
            res == *self,
    {
        Expr { id: self.id, text: self.text.clone() }
    }
}

impl Clone for Block {
    fn clone(&self) -> (res: Self)
        ensures
            res == *self,
    {
        Block { id: self.id, text: self.text.clone() }
    }
}

impl Clone for Nonterminal {
    fn clone(&self) -> (res: Self)
        ensures
            res == *self,
    {
        match self {
            Nonterminal::NtExpr(e) => Nonterminal::NtExpr(e.clone()),
            Nonterminal::NtBlock(b) => Nonterminal::NtBlock(b.clone()),
        }
    }
}

impl Clone for Token {
    fn clone(&self) -> (res: Self)
        ensures
            res == *self,
    {
        match self {
            Token::Sigil => Token::Sigil,
            Token::OpenDelim(d) => Token::OpenDelim(*d),
            Token::CloseDelim(d) => Token::CloseDelim(*d),
            Token::Ident(id) => Token::Ident(id.clone()),
            Token::Interpolated(nt) => Token::Interpolated(nt.clone()),
            Token::Eof => Token::Eof,
            Token::Other { id, text } => Token::Other { id: *id, text: text.clone() },
        }
    }
}

impl Clone for TokenAndSpan {
    fn clone(&self) -> (res: Self)
        ensures
            res == *self,
    {
        TokenAndSpan { tok: self.tok.clone(), sp: self.sp }
    }
}

impl Nonterminal {
    /// The subtree printed as source text.
    pub open spec fn text(self) -> Seq<char> {
        match self {
            Nonterminal::NtExpr(e) => e.text@,
            Nonterminal::NtBlock(b) => b.text@,
        }
    }
}

impl Token {
    /// Whether the token is the sigil.
    pub fn is_sigil(&self) -> (b: bool)
        ensures
            b == (*self is Sigil),
    {
        match self {
            Token::Sigil => true,
            _ => false,
        }
    }

    /// Whether the token is the end of the stream.
    pub fn is_eof(&self) -> (b: bool)
        ensures
            b == (*self is Eof),
    {
        match self {
            Token::Eof => true,
            _ => false,
        }
    }

    /// The token written out as source text.
    pub open spec fn text(self) -> Seq<char> {
        match self {
            Token::Sigil => seq!['#'],
            Token::OpenDelim(d) => seq![d.open_char()],
            Token::CloseDelim(d) => seq![d.close_char()],
            Token::Ident(id) => id.name@,
            Token::Interpolated(nt) => nt.text(),
            Token::Eof => seq!['<', 'e', 'o', 'f', '>'],
            Token::Other { id, text } => text@,
        }
    }
}

impl Diagnostic {
    /// A fatal error at `sp`.
    pub fn span_fatal(sp: Span, msg: &str) -> (d: Diagnostic)
        ensures
            d.level == Level::Fatal,
            d.span == Some(sp),
            d.message@ == msg@,
    {
        Diagnostic { level: Level::Fatal, span: Some(sp), message: String::from_str(msg) }
    }

    /// An error at `sp` that does not stop the expansion.
    pub fn span_err(sp: Span, msg: &str) -> (d: Diagnostic)
        ensures
            d.level == Level::Error,
            d.span == Some(sp),
            d.message@ == msg@,
    {
        Diagnostic { level: Level::Error, span: Some(sp), message: String::from_str(msg) }
    }

    /// A note without a place.
    pub fn note(msg: &str) -> (d: Diagnostic)
        ensures
            d.level == Level::Note,
            d.span is None,
            d.message@ == msg@,
    {
        Diagnostic { level: Level::Note, span: None, message: String::from_str(msg) }
    }
}

impl Clone for Diagnostic {
    fn clone(&self) -> (res: Self)
        ensures
            res == *self,
    {
        Diagnostic { level: self.level, span: self.span, message: self.message.clone() }
    }
}

/// The host's printer, `syntex_syntax::print::pprust::token_to_string`, on
/// the tokens whose text is fixed: it prints the sigil as `#`, an opening or
/// closing delimiter as its one character, and the end of the stream as
/// `<eof>`.
#[verifier::external_body]
fn fixed_token_to_string(tok: &Token) -> (res: String)
    requires
        tok is Sigil || tok is OpenDelim || tok is CloseDelim || tok is Eof,
    ensures
        res@ == tok.text(),
{
    let host = match tok {
        Token::Sigil => token::Pound,
        Token::OpenDelim(DelimToken::Paren) => token::OpenDelim(token::Paren),
        Token::OpenDelim(DelimToken::Bracket) => token::OpenDelim(token::Bracket),
        Token::OpenDelim(DelimToken::Brace) => token::OpenDelim(token::Brace),
        Token::CloseDelim(DelimToken::Paren) => token::CloseDelim(token::Paren),
        Token::CloseDelim(DelimToken::Bracket) => token::CloseDelim(token::Bracket),
        Token::CloseDelim(DelimToken::Brace) => token::CloseDelim(token::Brace),
        _ => token::Eof,
    };
    pprust::token_to_string(&host)
}

/// Writes a token out as source text.
pub fn token_to_string(tok: &Token) -> (res: String)
    ensures
        res@ == tok.text(),
{
    match tok {
        Token::Ident(id) => id.name.clone(),
        Token::Interpolated(Nonterminal::NtExpr(e)) => e.text.clone(),
        Token::Interpolated(Nonterminal::NtBlock(b)) => b.text.clone(),
        Token::Other { id, text } => text.clone(),
        _ => fixed_token_to_string(tok),
    }
}

} // verus!
