//! The quasiquoter: one pass over a flat token sequence that hands every
//! region of an anonymous macro to the collaborator and puts one interpolated
//! token in the region's place.

use vstd::prelude::*;
use vstd::hash_map::StringHashMap;
use vstd::pervasive::unreached;
use vstd::string::StringExecFns;
use crate::compiler::Compiler;
use crate::compiler::Unquote;
use crate::host::token_to_string;
use crate::host::DelimToken;
use crate::host::Diagnostic;
use crate::host::Ident;
use crate::host::Level;
use crate::host::Nonterminal;
use crate::host::Span;
use crate::host::Token;
use crate::host::TokenAndSpan;
use crate::region::closes_at;
use crate::region::code_of;
use crate::region::compiles;
use crate::region::delim_delta;
use crate::region::depth_after;
use crate::region::idents_of;
use crate::region::is_compiled;
use crate::region::is_package;
use crate::region::is_unquoted;
use crate::region::kind_agrees;
use crate::region::lemma_piece_at;
use crate::region::lemma_region_end;
use crate::region::pieces;
use crate::region::region_end;
use crate::region::region_span;
use crate::region::unclosed;
use crate::region::unquote_delim;
use crate::region::yields;
use crate::region::Piece;

verus! {

/// The message of the fatal error for a region that never closes.
pub const UNCLOSED_DELIMITER: &'static str = "unclosed delimiter of anonymous macro.";

/// `e` is the fatal error for the region of `s` whose opening delimiter
/// stands at `open`.
pub open spec fn is_unclosed_at(s: Seq<TokenAndSpan>, open: int, e: Diagnostic) -> bool {
    &&& e.level == Level::Fatal
    &&& e.span == Some(s[open].sp)
    &&& e.message@ == UNCLOSED_DELIMITER@
}

/// `e` is the fatal error for the first region of `s` that never closes.
pub open spec fn is_unclosed_error(s: Seq<TokenAndSpan>, e: Diagnostic) -> bool {
    unclosed(s, 0) matches Some(open) && is_unclosed_at(s, open, e)
}

/// The state of one pass: the input, the place reached in it, and the
/// output written so far.
pub struct Quasiquote<'c, C> {
    compiler: &'c mut C,
    tokens: Vec<TokenAndSpan>,
    current_idx: usize,
    unquoted_tokens: Vec<TokenAndSpan>,
}

impl<'c, C: Compiler> Quasiquote<'c, C> {
    /// Replaces every region of `tokens` by one interpolated token that holds
    /// what the collaborator made of the region; every other token is copied.
    /// A region that never closes is a fatal error at its opening delimiter;
    /// the regions before it have been compiled by then.
    pub fn compile(tokens: Vec<TokenAndSpan>, compiler: &'c mut C) -> (res: Result<
        Vec<TokenAndSpan>,
        Diagnostic,
    >)
        ensures
            exists|out: Seq<TokenAndSpan>, states: Seq<C>|
                {
                    &&& #[trigger] is_compiled(tokens@, out, states)
                    &&& states.first() == *old(compiler)
                    &&& states.last() == *final(compiler)
                    &&& match res {
                        Ok(unquoted) => unclosed(tokens@, 0) is None && unquoted@ == out,
                        Err(e) => is_unclosed_error(tokens@, e),
                    }
                },
            res matches Ok(unquoted) ==> is_unquoted(tokens@, unquoted@),
    {
        let mut quasiquote = Quasiquote::new(compiler, tokens);
        match quasiquote.unquote_all() {
            Ok(()) => Ok(quasiquote.unquoted_tokens),
            Err(e) => Err(e),
        }
    }

    fn new(compiler: &'c mut C, tokens: Vec<TokenAndSpan>) -> (quasiquote: Quasiquote<'c, C>)
        ensures
            *quasiquote.compiler == *old(compiler),
            *final(quasiquote.compiler) == *final(compiler),
            quasiquote.tokens == tokens,
            quasiquote.current_idx == 0,
            quasiquote.unquoted_tokens@ == Seq::<TokenAndSpan>::empty(),
    {
        Quasiquote { compiler: compiler, tokens: tokens, current_idx: 0, unquoted_tokens: Vec::new() }
    }

    fn unquote_all(&mut self) -> (res: Result<(), Diagnostic>)
        requires
            old(self).current_idx == 0,
            old(self).unquoted_tokens@.len() == 0,
        ensures
            final(self).tokens == old(self).tokens,
            *final(final(self).compiler) == *final(old(self).compiler),
            exists|states: Seq<C>|
                {
                    &&& #[trigger] is_compiled(old(self).tokens@, final(self).unquoted_tokens@, states)
                    &&& states.first() == *old(self).compiler
                    &&& states.last() == *final(self).compiler
                },
            match res {
                Ok(()) => unclosed(old(self).tokens@, 0) is None,
                Err(e) => is_unclosed_error(old(self).tokens@, e),
            },
    {
        let ghost s = self.tokens@;
        let ghost mut done: Seq<Piece> = Seq::empty();
        let ghost mut states: Seq<C> = seq![*self.compiler];
        while !self.at_end()
            invariant
                self.tokens == old(self).tokens,
                *final(self.compiler) == *final(old(self).compiler),
                self.tokens@ == s,
                s.len() == self.tokens.len(),
                self.current_idx <= s.len(),
                unclosed(s, 0) == unclosed(s, self.current_idx as int),
                pieces(s, 0) == done + pieces(s, self.current_idx as int),
                self.unquoted_tokens@.len() == done.len(),
                forall|j: int|
                    0 <= j < done.len() ==> yields(s, #[trigger] done[j], self.unquoted_tokens@[j]),
                states.len() == done.len() + 1,
                states.first() == *old(self).compiler,
                states.last() == *self.compiler,
                forall|j: int|
                    0 <= j < done.len() ==> compiles(
                        s,
                        done[j],
                        #[trigger] states[j],
                        states[j + 1],
                        self.unquoted_tokens@[j],
                    ),
            decreases s.len() - self.current_idx,
        {
            let ghost i = self.current_idx as int;
            let ghost before = done;
            let ghost states_before = states;
            let ghost out_before = self.unquoted_tokens@;
            proof {
                lemma_piece_at(s, i);
            }
            match self.peek_unquote() {
                None => {
                    let tok = self.token();
                    self.unquoted_tokens.push(tok);
                    proof {
                        done = done.push(Piece::Verbatim { at: i });
                    }
                },
                Some(d) => {
                    match self.unquote(d) {
                        Err(e) => {
                            proof {
                                assert(pieces(s, i) =~= Seq::<Piece>::empty());
                                assert(pieces(s, 0) =~= done);
                                assert(is_compiled(s, self.unquoted_tokens@, states));
                            }
                            return Err(e);
                        },
                        Ok(()) => {
                            proof {
                                done =
                                done.push(
                                    Piece::Region { start: i, end: self.current_idx as int, delim: d },
                                );
                            }
                        },
                    }
                },
            }
            self.bump(1);
            proof {
                states = states.push(*self.compiler);
                assert(pieces(s, i) == seq![done.last()] + pieces(s, self.current_idx as int));
                assert(done + pieces(s, self.current_idx as int) =~= before + pieces(s, i));
                assert forall|j: int| 0 <= j < done.len() implies compiles(
                    s,
                    done[j],
                    #[trigger] states[j],
                    states[j + 1],
                    self.unquoted_tokens@[j],
                ) by {
                    if j < before.len() {
                        assert(states[j] == states_before[j]);
                        assert(states[j + 1] == states_before[j + 1]);
                        assert(self.unquoted_tokens@[j] == out_before[j]);
                        assert(compiles(s, before[j], states_before[j], states_before[j + 1], out_before[j]));
                    }
                }
            }
        }
        proof {
            assert(pieces(s, 0) =~= done);
            assert(is_compiled(s, self.unquoted_tokens@, states));
        }
        Ok(())
    }

    fn bump(&mut self, n: usize)
        requires
            old(self).current_idx + n <= usize::MAX,
        ensures
            final(self).current_idx == old(self).current_idx + n,
            *final(self).compiler == *old(self).compiler,
            *final(final(self).compiler) == *final(old(self).compiler),
            final(self).tokens == old(self).tokens,
            final(self).unquoted_tokens == old(self).unquoted_tokens,
    {
        self.current_idx = self.current_idx + n;
    }

    fn at_end(&self) -> (b: bool)
        ensures
            b == (self.current_idx >= self.tokens.len()),
    {
        self.current_idx >= self.tokens.len()
    }

    fn token(&self) -> (tok: TokenAndSpan)
        requires
            self.current_idx < self.tokens.len(),
        ensures
            tok == self.tokens@[self.current_idx as int],
    {
        self.tokens[self.current_idx].clone()
    }

    fn peek_unquote(&self) -> (res: Option<DelimToken>)
        requires
            self.current_idx < self.tokens.len(),
        ensures
            res == unquote_delim(self.tokens@, self.current_idx as int),
    {
        if self.current_idx + 1 < self.tokens.len() && self.tokens[self.current_idx].tok.is_sigil() {
            match self.tokens[self.current_idx + 1].tok {
                Token::OpenDelim(DelimToken::Paren) => Some(DelimToken::Paren),
                Token::OpenDelim(DelimToken::Brace) => Some(DelimToken::Brace),
                _ => None,
            }
        } else {
            None
        }
    }

    fn unquote(&mut self, delim: DelimToken) -> (res: Result<(), Diagnostic>)
        requires
            unquote_delim(old(self).tokens@, old(self).current_idx as int) == Some(delim),
        ensures
            final(self).tokens == old(self).tokens,
            *final(final(self).compiler) == *final(old(self).compiler),
            match res {
                Ok(()) => {
                    &&& region_end(old(self).tokens@, delim, old(self).current_idx + 1) == Some(
                        final(self).current_idx as int,
                    )
                    &&& final(self).unquoted_tokens@.len() == old(self).unquoted_tokens@.len() + 1
                    &&& final(self).unquoted_tokens@.drop_last() == old(self).unquoted_tokens@
                    &&& yields(
                        old(self).tokens@,
                        Piece::Region {
                            start: old(self).current_idx as int,
                            end: final(self).current_idx as int,
                            delim: delim,
                        },
                        final(self).unquoted_tokens@.last(),
                    )
                    &&& compiles(
                        old(self).tokens@,
                        Piece::Region {
                            start: old(self).current_idx as int,
                            end: final(self).current_idx as int,
                            delim: delim,
                        },
                        *old(self).compiler,
                        *final(self).compiler,
                        final(self).unquoted_tokens@.last(),
                    )
                },
                Err(e) => {
                    &&& region_end(old(self).tokens@, delim, old(self).current_idx + 1) is None
                    &&& is_unclosed_at(old(self).tokens@, old(self).current_idx + 1, e)
                    &&& final(self).unquoted_tokens == old(self).unquoted_tokens
                    &&& *final(self).compiler == *old(self).compiler
                },
            },
    {
        let ghost s = self.tokens@;
        let pound_idx = self.current_idx;
        let ghost open = pound_idx + 1;
        let mut opened_delims: usize = 1;
        assert(s.len() == self.tokens.len());
        self.bump(2);
        while !self.at_end() && self.still_in_quote(delim, opened_delims)
            invariant
                self.tokens == old(self).tokens,
                self.tokens@ == s,
                s.len() == self.tokens.len(),
                *self.compiler == *old(self).compiler,
                *final(self.compiler) == *final(old(self).compiler),
                self.unquoted_tokens == old(self).unquoted_tokens,
                pound_idx == old(self).current_idx,
                open == pound_idx + 1,
                open < self.current_idx <= s.len(),
                opened_delims == depth_after(s, delim, open, self.current_idx - 1),
                1 <= opened_delims <= self.current_idx - open,
                forall|k: int| open < k < self.current_idx ==> #[trigger] depth_after(s, delim, open, k) > 0,
            decreases s.len() - self.current_idx,
        {
            let step = self.count_delim(delim);
            if step > 0 {
                opened_delims = opened_delims + 1;
            } else if step < 0 {
                opened_delims = opened_delims - 1;
            }
            self.bump(1);
        }
        proof {
            lemma_region_end(s, delim, open);
        }
        if self.at_end() || opened_delims != 1 {
            proof {
                assert forall|j: int| !closes_at(s, delim, open, j) by {
                    if closes_at(s, delim, open, j) {
                        assert(depth_after(s, delim, open, j) > 0);
                    }
                }
            }
            return Err(Diagnostic::span_fatal(self.tokens[pound_idx + 1].sp, UNCLOSED_DELIMITER));
        }
        proof {
            assert(closes_at(s, delim, open, self.current_idx as int));
        }
        let unquote = self.make_unquote(pound_idx);
        let ghost package = unquote;
        self.compile_unquote(delim, unquote);
        proof {
            let t = self.unquoted_tokens@.last();
            let p = Piece::Region { start: pound_idx as int, end: self.current_idx as int, delim: delim };
            assert(yields(s, p, t));
            assert(is_package(s, pound_idx as int, self.current_idx as int, package));
            assert(compiles(s, p, *old(self).compiler, *self.compiler, t));
        }
        Ok(())
    }

    fn still_in_quote(&self, delim: DelimToken, opened_delims: usize) -> (b: bool)
        requires
            self.current_idx < self.tokens.len(),
        ensures
            b == (opened_delims != 1 || self.tokens@[self.current_idx as int].tok
                != Token::CloseDelim(delim)),
    {
        opened_delims != 1 || match self.tokens[self.current_idx].tok {
            Token::CloseDelim(d) => d != delim,
            _ => true,
        }
    }

    fn count_delim(&self, delim: DelimToken) -> (step: isize)
        requires
            self.current_idx < self.tokens.len(),
        ensures
            step == delim_delta(self.tokens@[self.current_idx as int].tok, delim),
    {
        match self.tokens[self.current_idx].tok {
            Token::CloseDelim(d) => if d == delim {
                -1
            } else {
                0
            },
            Token::OpenDelim(d) => if d == delim {
                1
            } else {
                0
            },
            _ => 0,
        }
    }

    fn compile_unquote(&mut self, delim: DelimToken, unquote: Unquote)
        requires
            delim != DelimToken::Bracket,
        ensures
            final(self).tokens == old(self).tokens,
            final(self).current_idx == old(self).current_idx,
            *final(final(self).compiler) == *final(old(self).compiler),
            final(self).unquoted_tokens@.len() == old(self).unquoted_tokens@.len() + 1,
            final(self).unquoted_tokens@.drop_last() == old(self).unquoted_tokens@,
            final(self).unquoted_tokens@.last().sp == unquote.span,
            match final(self).unquoted_tokens@.last().tok {
                Token::Interpolated(Nonterminal::NtExpr(expr)) => delim == DelimToken::Paren && old(
                    self,
                ).compiler.compiles_expr(unquote, final(self).compiler, expr),
                Token::Interpolated(Nonterminal::NtBlock(block)) => delim == DelimToken::Brace && old(
                    self,
                ).compiler.compiles_block(unquote, final(self).compiler, block),
                _ => false,
            },
    {
        let span = unquote.span;
        let non_terminal = match delim {
            DelimToken::Paren => Nonterminal::NtExpr(self.compiler.compile_expr(unquote)),
            DelimToken::Brace => Nonterminal::NtBlock(self.compiler.compile_block(unquote)),
            DelimToken::Bracket => unreached(),
        };
        let interpolated_tok = Token::Interpolated(non_terminal);
        let unquoted_tok = TokenAndSpan { tok: interpolated_tok, sp: span };
        self.unquoted_tokens.push(unquoted_tok);
        proof {
            assert(self.unquoted_tokens@.drop_last() =~= old(self).unquoted_tokens@);
        }
    }

    fn make_unquote(&self, start_idx: usize) -> (unquote: Unquote)
        requires
            start_idx + 2 <= self.current_idx < self.tokens.len(),
        ensures
            unquote.code@ == code_of(self.tokens@.subrange(start_idx + 2, self.current_idx as int)),
            unquote.text_to_ident@ == idents_of(
                self.tokens@.subrange(start_idx + 2, self.current_idx as int),
            ),
            unquote.span == region_span(self.tokens@, start_idx as int, self.current_idx as int),
    {
        let mut code = String::new();
        let mut text_to_ident: StringHashMap<Ident> = StringHashMap::new();
        let mut idx: usize = start_idx + 2;
        while idx < self.current_idx
            invariant
                start_idx + 2 <= idx <= self.current_idx < self.tokens.len(),
                code@ == code_of(self.tokens@.subrange(start_idx + 2, idx as int)),
                text_to_ident@ == idents_of(self.tokens@.subrange(start_idx + 2, idx as int)),
            decreases self.current_idx - idx,
        {
            proof {
                reveal_strlit(" ");
                assert(self.tokens@.subrange(start_idx + 2, idx + 1).drop_last()
                    =~= self.tokens@.subrange(start_idx + 2, idx as int));
            }
            if let Token::Ident(id) = &self.tokens[idx].tok {
                text_to_ident.insert(id.name.clone(), id.clone());
            }
            let text = token_to_string(&self.tokens[idx].tok);
            code.append(text.as_str());
            code.append(" ");
            idx = idx + 1;
        }
        Unquote { text_to_ident: text_to_ident, code: code, span: self.span_from(start_idx) }
    }

    fn span_from(&self, start_idx: usize) -> (span: Span)
        requires
            start_idx < self.tokens.len(),
            self.current_idx < self.tokens.len(),
        ensures
            span == region_span(self.tokens@, start_idx as int, self.current_idx as int),
    {
        self.tokens[start_idx].sp.to(self.tokens[self.current_idx].sp)
    }
}

} // verus!
