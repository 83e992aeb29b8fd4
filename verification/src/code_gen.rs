//! The code generator: feeds the unquoted sequence to the host's parser as
//! one expression and wraps what the parser made of it.

use vstd::prelude::*;
use crate::host::Diagnostic;
use crate::host::Expr;
use crate::host::Level;
use crate::host::Span;
use crate::host::TokenAndSpan;

verus! {

/// What the macro expands to: the expression that the host parsed, and the
/// note that shows the developer the expansion, printed as source text.
#[derive(PartialEq, Eq, Debug)]
pub struct MacResult {
    pub expr: Expr,
    pub note: Diagnostic,
}

impl MacResult {
    /// The result for a parsed expression: the expression itself, and a
    /// note without a place whose message is the expression's text.
    pub open spec fn is_expr(self, expr: Expr) -> bool {
        &&& self.expr == expr
        &&& self.note.level == Level::Note
        &&& self.note.span is None
        &&& self.note.message@ == expr.text@
    }

    /// Wraps a parsed expression as the macro's result.
    pub fn expr(expr: Expr) -> (res: MacResult)
        ensures
            res.is_expr(expr),
    {
        let note = Diagnostic::note(expr.text.as_str());
        MacResult { expr: expr, note: note }
    }
}

/// `res` is what becomes of the parser's answer `parsed`: a parsed
/// expression is wrapped, a diagnostic is handed on as it is.
pub open spec fn is_generated(parsed: Result<Expr, Diagnostic>, res: Result<MacResult, Diagnostic>) -> bool {
    match parsed {
        Ok(expr) => res matches Ok(m) && m.is_expr(expr),
        Err(d) => res == Err::<MacResult, Diagnostic>(d),
    }
}

/// Wraps the parser's answer: a parsed expression becomes the macro's
/// result, a diagnostic is handed on as it is.
pub fn generated(parsed: Result<Expr, Diagnostic>) -> (res: Result<MacResult, Diagnostic>)
    ensures
        is_generated(parsed, res),
{
    match parsed {
        Ok(expr) => Ok(MacResult::expr(expr)),
        Err(d) => Err(d),
    }
}

/// Feeds `tokens` to the host's parser, `parse_expr`, through a reader, and
/// wraps what the parser made of them.
pub fn generate_rust_code<P>(tokens: Vec<TokenAndSpan>, parse_expr: P) -> (res: Result<
    MacResult,
    Diagnostic,
>) where P: FnOnce(TokenAndSpanArray) -> Result<Expr, Diagnostic>
    requires
        forall|reader: TokenAndSpanArray|
            reader.tokens() == tokens@ && reader.index() == 0 ==> call_requires(parse_expr, (reader,)),
    ensures
        exists|reader: TokenAndSpanArray, parsed: Result<Expr, Diagnostic>|
            {
                &&& reader.tokens() == tokens@
                &&& reader.index() == 0
                &&& call_ensures(parse_expr, (reader,), parsed)
                &&& is_generated(parsed, res)
            },
{
    let reader = TokenAndSpanArray::new(tokens);
    let parsed = parse_expr(reader);
    generated(parsed)
}

/// TokenAndSpanArray is used to feed the parser with tokens.
pub struct TokenAndSpanArray {
    tokens: Vec<TokenAndSpan>,
    current_idx: usize,
}

impl TokenAndSpanArray {
    /// The tokens that the reader holds.
    pub closed spec fn tokens(&self) -> Seq<TokenAndSpan> {
        self.tokens@
    }

    /// The index of the token that the reader presents next.
    pub closed spec fn index(&self) -> int {
        self.current_idx as int
    }

    /// The reader has a current token: it has not been read past its end.
    pub open spec fn has_current(&self) -> bool {
        0 <= self.index() < self.tokens().len()
    }

    /// A reader on the first of `tokens`.
    pub fn new(tokens: Vec<TokenAndSpan>) -> (reader: TokenAndSpanArray)
        ensures
            reader.tokens() == tokens@,
            reader.index() == 0,
    {
        TokenAndSpanArray { tokens: tokens, current_idx: 0 }
    }

    /// Whether the reader has a current token.
    pub fn in_bounds(&self) -> (b: bool)
        ensures
            b == self.has_current(),
    {
        self.current_idx < self.tokens.len()
    }

    /// The current token.
    pub fn current(&self) -> (cur: TokenAndSpan)
        requires
            self.has_current(),
        ensures
            cur == self.tokens()[self.index()],
    {
        self.tokens[self.current_idx].clone()
    }

    /// The span of the current token.
    pub fn current_span(&self) -> (sp: Span)
        requires
            self.has_current(),
        ensures
            sp == self.tokens()[self.index()].sp,
    {
        self.current().sp
    }

    /// Whether the current token is the end of the stream.
    pub fn is_eof(&self) -> (b: bool)
        requires
            self.has_current(),
        ensures
            b == (self.tokens()[self.index()].tok is Eof),
    {
        self.current().tok.is_eof()
    }

    /// The current token; the reader goes on to the next. It cannot fail.
    pub fn try_next_token(&mut self) -> (res: Result<TokenAndSpan, ()>)
        requires
            old(self).has_current(),
        ensures
            res == Ok::<TokenAndSpan, ()>(old(self).tokens()[old(self).index()]),
            final(self).tokens() == old(self).tokens(),
            final(self).index() == old(self).index() + 1,
    {
        Ok(self.next_token())
    }

    /// The current token; the reader goes on to the next.
    pub fn next_token(&mut self) -> (cur: TokenAndSpan)
        requires
            old(self).has_current(),
        ensures
            cur == old(self).tokens()[old(self).index()],
            final(self).tokens() == old(self).tokens(),
            final(self).index() == old(self).index() + 1,
    {
        let cur = self.current();
        assert(self.tokens().len() == self.tokens.len());
        self.current_idx = self.current_idx + 1;
        cur
    }

    /// A fatal error at the current token.
    pub fn fatal(&self, m: &str) -> (d: Diagnostic)
        requires
            self.has_current(),
        ensures
            d.level == Level::Fatal,
            d.span == Some(self.tokens()[self.index()].sp),
            d.message@ == m@,
    {
        Diagnostic::span_fatal(self.current_span(), m)
    }

    /// The reader keeps no fatal errors back: there is nothing to emit.
    pub fn emit_fatal_errors(&mut self)
        ensures
            final(self).tokens() == old(self).tokens(),
            final(self).index() == old(self).index(),
    {
    }

    /// An error at the current token that does not stop the expansion.
    pub fn err(&self, m: &str) -> (d: Diagnostic)
        requires
            self.has_current(),
        ensures
            d.level == Level::Error,
            d.span == Some(self.tokens()[self.index()].sp),
            d.message@ == m@,
    {
        Diagnostic::span_err(self.current_span(), m)
    }

    /// The current token; the reader stays on it.
    pub fn peek(&self) -> (cur: TokenAndSpan)
        requires
            self.has_current(),
        ensures
            cur == self.tokens()[self.index()],
    {
        self.current()
    }
}

} // verus!
