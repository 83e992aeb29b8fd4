//! Where the regions of a flat token sequence lie: the mathematical account
//! of the scan, of the balanced search for a region's end, and of what a
//! region is packaged as.

use vstd::prelude::*;
use crate::compiler::Compiler;
use crate::compiler::Unquote;
use crate::host::DelimToken;
use crate::host::Ident;
use crate::host::Nonterminal;
use crate::host::Span;
use crate::host::Token;
use crate::host::TokenAndSpan;

verus! {

/// The delimiter of the region that starts at `i`: `s[i]` is a sigil and
/// `s[i + 1]` opens a parenthesis or a brace. `None` where no region starts.
pub open spec fn unquote_delim(s: Seq<TokenAndSpan>, i: int) -> Option<DelimToken> {
    if 0 <= i && i + 1 < s.len() && s[i].tok is Sigil {
        match s[i + 1].tok {
            Token::OpenDelim(DelimToken::Paren) => Some(DelimToken::Paren),
            Token::OpenDelim(DelimToken::Brace) => Some(DelimToken::Brace),
            _ => None,
        }
    } else {
        None
    }
}

/// What a token adds to the depth of a region delimited by `d`: one more for
/// an opener of that shape, one less for a closer of that shape, nothing for
/// any other token.
pub open spec fn delim_delta(tok: Token, d: DelimToken) -> int {
    match tok {
        Token::OpenDelim(x) => if x == d { 1 } else { 0 },
        Token::CloseDelim(x) => if x == d { -1 } else { 0 },
        _ => 0,
    }
}

/// The depth after the token at `j`, for the region whose opening delimiter
/// stands at `open`: 1 after the opener itself, then changed by each token
/// after it up to and including `s[j]`.
pub open spec fn depth_after(s: Seq<TokenAndSpan>, d: DelimToken, open: int, j: int) -> int
    decreases j - open,
{
    if j <= open {
        1
    } else {
        depth_after(s, d, open, j - 1) + delim_delta(s[j].tok, d)
    }
}

/// `j` is where the region opened at `open` closes: the first place after
/// the opener at which the depth is back to 0.
pub open spec fn closes_at(s: Seq<TokenAndSpan>, d: DelimToken, open: int, j: int) -> bool {
    &&& open < j < s.len()
    &&& depth_after(s, d, open, j) == 0
    &&& forall|k: int| open < k < j ==> #[trigger] depth_after(s, d, open, k) > 0
}

/// The index of the closing delimiter of the region opened at `open`, or
/// `None` where the sequence ends before the depth is back to 0.
pub open spec fn region_end(s: Seq<TokenAndSpan>, d: DelimToken, open: int) -> Option<int> {
    if exists|j: int| closes_at(s, d, open, j) {
        Some(choose|j: int| closes_at(s, d, open, j))
    } else {
        None
    }
}

/// One step of the scan: a token that is copied, or a region that is
/// replaced by one token.
pub enum Piece {
    /// The token at `at` stands outside every region.
    Verbatim { at: int },
    /// A region: the sigil stands at `start`, the closing delimiter at `end`.
    Region { start: int, end: int, delim: DelimToken },
}

impl Piece {
    /// The index of the first token of the piece.
    pub open spec fn first(self) -> int {
        match self {
            Piece::Verbatim { at } => at,
            Piece::Region { start, .. } => start,
        }
    }

    /// The index of the token after the piece.
    pub open spec fn next(self) -> int {
        match self {
            Piece::Verbatim { at } => at + 1,
            Piece::Region { end, .. } => end + 1,
        }
    }
}

/// The piece that the scan finds at `i`, or `None` where the sequence is over
/// or a region starts at `i` that never closes.
pub open spec fn piece_at(s: Seq<TokenAndSpan>, i: int) -> Option<Piece> {
    if i < 0 || i >= s.len() {
        None
    } else {
        match unquote_delim(s, i) {
            None => Some(Piece::Verbatim { at: i }),
            Some(d) => match region_end(s, d, i + 1) {
                None => None,
                Some(e) => Some(Piece::Region { start: i, end: e, delim: d }),
            },
        }
    }
}

/// The pieces that the scan finds from `i` on, left to right, up to the end
/// of the sequence or to a region that never closes. Every piece ends after
/// `i` (`lemma_piece_at`); the test for it is there for the recursion to be
/// seen to end.
pub open spec fn pieces(s: Seq<TokenAndSpan>, i: int) -> Seq<Piece>
    decreases s.len() - i,
{
    match piece_at(s, i) {
        None => Seq::empty(),
        Some(p) => if p.next() > i {
            seq![p] + pieces(s, p.next())
        } else {
            Seq::empty()
        },
    }
}

/// The index of the opening delimiter of the first region, scanning from `i`
/// on, that never closes; `None` where every region closes.
pub open spec fn unclosed(s: Seq<TokenAndSpan>, i: int) -> Option<int>
    decreases s.len() - i,
{
    if i < 0 || i >= s.len() {
        None
    } else {
        match piece_at(s, i) {
            None => Some(i + 1),
            Some(p) => if p.next() > i {
                unclosed(s, p.next())
            } else {
                None
            },
        }
    }
}

/// The span of a region: from the start of the sigil to the end of the
/// closing delimiter.
pub open spec fn region_span(s: Seq<TokenAndSpan>, start: int, end: int) -> Span {
    s[start].sp.to(s[end].sp)
}

/// A parsed node is of the kind that the delimiter asks for: an expression
/// for parentheses, a block for braces.
pub open spec fn kind_agrees(delim: DelimToken, nt: Nonterminal) -> bool {
    match delim {
        DelimToken::Paren => nt is NtExpr,
        DelimToken::Brace => nt is NtBlock,
        DelimToken::Bracket => false,
    }
}

/// `t` is what piece `p` of `s` leaves in the output: the token itself where
/// it is copied; for a region, one interpolated token of the region's kind
/// with the region's span.
pub open spec fn yields(s: Seq<TokenAndSpan>, p: Piece, t: TokenAndSpan) -> bool {
    match p {
        Piece::Verbatim { at } => t == s[at],
        Piece::Region { start, end, delim } => {
            &&& t.sp == region_span(s, start, end)
            &&& t.tok matches Token::Interpolated(nt)
            &&& kind_agrees(delim, nt)
        },
    }
}

/// `out` is `s` with every region replaced by one interpolated token and
/// every other token left as it was.
pub open spec fn is_unquoted(s: Seq<TokenAndSpan>, out: Seq<TokenAndSpan>) -> bool {
    &&& out.len() == pieces(s, 0).len()
    &&& forall|j: int| 0 <= j < out.len() ==> yields(s, #[trigger] pieces(s, 0)[j], out[j])
}

/// The code of a region: the text of each inner token, a space after each.
pub open spec fn code_of(inner: Seq<TokenAndSpan>) -> Seq<char>
    decreases inner.len(),
{
    if inner.len() == 0 {
        Seq::empty()
    } else {
        code_of(inner.drop_last()) + inner.last().tok.text() + seq![' ']
    }
}

/// The identifiers of a region under their spelling. A later identifier
/// takes the place of an earlier one with the same spelling.
pub open spec fn idents_of(inner: Seq<TokenAndSpan>) -> Map<Seq<char>, Ident>
    decreases inner.len(),
{
    if inner.len() == 0 {
        Map::empty()
    } else {
        match inner.last().tok {
            Token::Ident(id) => idents_of(inner.drop_last()).insert(id.name@, id),
            _ => idents_of(inner.drop_last()),
        }
    }
}

/// `unquote` is the package of the region from `start` to `end`: the code
/// and the identifiers of the tokens between the delimiters, and the
/// region's span.
pub open spec fn is_package(s: Seq<TokenAndSpan>, start: int, end: int, unquote: Unquote) -> bool {
    &&& unquote.code@ == code_of(s.subrange(start + 2, end))
    &&& unquote.text_to_ident@ == idents_of(s.subrange(start + 2, end))
    &&& unquote.span == region_span(s, start, end)
}

/// What piece `p` of `s` asks of the collaborator, which is `before` when
/// the scan comes to the piece and `after` when it leaves it. A copied token
/// leaves the collaborator alone. For a region the collaborator is asked
/// once, for the region's package, and its answer is the node that the
/// interpolated token `t` holds: an expression for parentheses, a block for
/// braces.
pub open spec fn compiles<C: Compiler>(
    s: Seq<TokenAndSpan>,
    p: Piece,
    before: C,
    after: C,
    t: TokenAndSpan,
) -> bool {
    match p {
        Piece::Verbatim { at } => after == before,
        Piece::Region { start, end, delim } => exists|unquote: Unquote| #[trigger]
            is_package(s, start, end, unquote) && match t.tok {
                Token::Interpolated(Nonterminal::NtExpr(expr)) => delim == DelimToken::Paren
                    && before.compiles_expr(unquote, &after, expr),
                Token::Interpolated(Nonterminal::NtBlock(block)) => delim == DelimToken::Brace
                    && before.compiles_block(unquote, &after, block),
                _ => false,
            },
    }
}

/// `out` is `s` unquoted by a collaborator that went through `states`, one
/// state before each piece and one after the last: every copied token left
/// it as it was, and every region was compiled by it, in the order of the
/// pieces.
pub open spec fn is_compiled<C: Compiler>(
    s: Seq<TokenAndSpan>,
    out: Seq<TokenAndSpan>,
    states: Seq<C>,
) -> bool {
    &&& is_unquoted(s, out)
    &&& states.len() == out.len() + 1
    &&& forall|j: int|
        0 <= j < out.len() ==> compiles(s, pieces(s, 0)[j], #[trigger] states[j], states[j + 1], out[j])
}

/// Two places where one region closes are the same place.
pub proof fn lemma_closes_at_unique(s: Seq<TokenAndSpan>, d: DelimToken, open: int, j1: int, j2: int)
    requires
        closes_at(s, d, open, j1),
        closes_at(s, d, open, j2),
    ensures
        j1 == j2,
{
    if j1 < j2 {
        assert(depth_after(s, d, open, j1) > 0);
    } else if j2 < j1 {
        assert(depth_after(s, d, open, j2) > 0);
    }
}

/// `region_end` is the one place where the region closes, if there is one.
pub proof fn lemma_region_end(s: Seq<TokenAndSpan>, d: DelimToken, open: int)
    ensures
        match region_end(s, d, open) {
            Some(e) => closes_at(s, d, open, e) && s[e].tok == Token::CloseDelim(d),
            None => forall|j: int| !closes_at(s, d, open, j),
        },
        forall|j: int| closes_at(s, d, open, j) ==> region_end(s, d, open) == Some(j),
{
    assert forall|j: int| closes_at(s, d, open, j) implies region_end(s, d, open) == Some(j) by {
        let e = choose|j: int| closes_at(s, d, open, j);
        lemma_closes_at_unique(s, d, open, e, j);
    }
    match region_end(s, d, open) {
        Some(e) => {
            assert(closes_at(s, d, open, e));
            assert(depth_after(s, d, open, e) == depth_after(s, d, open, e - 1) + delim_delta(
                s[e].tok,
                d,
            ));
            if e - 1 > open {
                assert(depth_after(s, d, open, e - 1) > 0);
            } else {
                assert(depth_after(s, d, open, e - 1) == 1);
            }
            assert(delim_delta(s[e].tok, d) == -1);
        },
        None => {},
    }
}

/// What the scan finds at one place: the piece starts there, ends inside the
/// sequence, and goes forward.
pub proof fn lemma_piece_at(s: Seq<TokenAndSpan>, i: int)
    ensures
        match piece_at(s, i) {
            Some(Piece::Verbatim { at }) => at == i && 0 <= i < s.len() && unquote_delim(s, i) is None,
            Some(Piece::Region { start, end, delim }) => {
                &&& start == i
                &&& 0 <= i
                &&& i + 1 < end < s.len()
                &&& unquote_delim(s, i) == Some(delim)
                &&& region_end(s, delim, i + 1) == Some(end)
                &&& delim != DelimToken::Bracket
            },
            None => true,
        },
        piece_at(s, i) matches Some(p) ==> p.first() == i && i < p.next() <= s.len(),
{
    if 0 <= i < s.len() {
        if let Some(d) = unquote_delim(s, i) {
            lemma_region_end(s, d, i + 1);
        }
    }
}

} // verus!
