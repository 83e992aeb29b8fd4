//! What holds of every scan and of every unquoted sequence.

use vstd::prelude::*;
use crate::host::DelimToken;
use crate::host::Token;
use crate::host::TokenAndSpan;
use crate::region::closes_at;
use crate::region::delim_delta;
use crate::region::depth_after;
use crate::region::is_unquoted;
use crate::region::kind_agrees;
use crate::region::lemma_piece_at;
use crate::region::lemma_region_end;
use crate::region::piece_at;
use crate::region::pieces;
use crate::region::region_end;
use crate::region::region_span;
use crate::region::unclosed;
use crate::region::unquote_delim;
use crate::region::yields;
use crate::region::Piece;

verus! {

/// The tokens from `a` up to `b`, each one copied.
pub open spec fn verbatim_run(a: int, b: int) -> Seq<Piece> {
    Seq::new((b - a) as nat, |k: int| Piece::Verbatim { at: a + k })
}

/// Every piece of a scan is the piece that the scan finds where the piece
/// starts; the first piece starts where the scan starts, each further piece
/// where the one before it ends, and after the last piece the scan finds
/// nothing more.
pub proof fn lemma_pieces_index(s: Seq<TokenAndSpan>, i: int, j: int)
    requires
        0 <= j < pieces(s, i).len(),
    ensures
        piece_at(s, pieces(s, i)[j].first()) == Some(pieces(s, i)[j]),
        j == 0 ==> pieces(s, i)[j].first() == i,
        j + 1 < pieces(s, i).len() ==> pieces(s, i)[j + 1].first() == pieces(s, i)[j].next(),
        j + 1 == pieces(s, i).len() ==> piece_at(s, pieces(s, i)[j].next()) is None,
    decreases s.len() - i, j,
{
    lemma_piece_at(s, i);
    let p = piece_at(s, i)->0;
    let rest = pieces(s, p.next());
    assert(pieces(s, i) == seq![p] + rest);
    if j == 0 {
        if rest.len() > 0 {
            lemma_pieces_index(s, p.next(), 0);
            assert(pieces(s, i)[1] == rest[0]);
        } else {
            lemma_piece_at(s, p.next());
        }
    } else {
        lemma_pieces_index(s, p.next(), j - 1);
        assert(pieces(s, i)[j] == rest[j - 1]);
        if j + 1 < pieces(s, i).len() {
            assert(pieces(s, i)[j + 1] == rest[j]);
        }
    }
}

/// Where no region starts between `a` and `b`, the scan copies every token
/// from `a` up to `b` and goes on at `b`.
pub proof fn lemma_verbatim_run(s: Seq<TokenAndSpan>, a: int, b: int)
    requires
        0 <= a <= b <= s.len(),
        forall|i: int| a <= i < b ==> unquote_delim(s, i) is None,
    ensures
        pieces(s, a) == verbatim_run(a, b) + pieces(s, b),
        unclosed(s, a) == unclosed(s, b),
    decreases b - a,
{
    if a < b {
        lemma_verbatim_run(s, a + 1, b);
        assert(piece_at(s, a) == Some(Piece::Verbatim { at: a }));
        assert(pieces(s, a) == seq![Piece::Verbatim { at: a }] + pieces(s, a + 1));
        assert(seq![Piece::Verbatim { at: a }] + (verbatim_run(a + 1, b) + pieces(s, b))
            =~= verbatim_run(a, b) + pieces(s, b));
    } else {
        assert(verbatim_run(a, b) + pieces(s, b) =~= pieces(s, b));
    }
}

/// In an unquoted sequence no sigil stands before an opening parenthesis or
/// brace: no region is left.
pub proof fn lemma_no_region_left(s: Seq<TokenAndSpan>, out: Seq<TokenAndSpan>)
    requires
        is_unquoted(s, out),
    ensures
        forall|i: int| unquote_delim(out, i) is None,
{
    assert forall|i: int| unquote_delim(out, i) is None by {
        if unquote_delim(out, i) is Some {
            let p = pieces(s, 0)[i];
            let q = pieces(s, 0)[i + 1];
            assert(yields(s, p, out[i]));
            assert(yields(s, q, out[i + 1]));
            lemma_pieces_index(s, 0, i);
            lemma_pieces_index(s, 0, i + 1);
            lemma_piece_at(s, p.first());
            lemma_piece_at(s, q.first());
            assert(p is Verbatim);
            assert(q is Verbatim);
            assert(unquote_delim(s, p.first()) is Some);
        }
    }
}

/// A sequence in which no region starts is unquoted to itself, and unquoting
/// it does not fail.
pub proof fn lemma_identity_without_region(s: Seq<TokenAndSpan>, out: Seq<TokenAndSpan>)
    requires
        forall|i: int| unquote_delim(s, i) is None,
        is_unquoted(s, out),
    ensures
        unclosed(s, 0) is None,
        out == s,
{
    lemma_verbatim_run(s, 0, s.len() as int);
    assert(pieces(s, 0) =~= verbatim_run(0, s.len() as int));
    assert forall|j: int| 0 <= j < out.len() implies out[j] == s[j] by {
        assert(yields(s, pieces(s, 0)[j], out[j]));
    }
    assert(out =~= s);
}

/// A sequence with one region, from `start` to `end`, is unquoted to the
/// tokens before the region, one interpolated token of the region's kind
/// with the region's span, and the tokens after the region: its length is that of the input less
/// the region's length plus one. Unquoting it does not fail.
pub proof fn lemma_single_region(
    s: Seq<TokenAndSpan>,
    out: Seq<TokenAndSpan>,
    start: int,
    end: int,
    delim: DelimToken,
)
    requires
        unquote_delim(s, start) == Some(delim),
        region_end(s, delim, start + 1) == Some(end),
        forall|i: int| i < start || end < i ==> unquote_delim(s, i) is None,
        is_unquoted(s, out),
    ensures
        unclosed(s, 0) is None,
        out.len() == s.len() - (end - start + 1) + 1,
        out.subrange(0, start) == s.subrange(0, start),
        out[start].tok matches Token::Interpolated(nt) && kind_agrees(delim, nt),
        out[start].sp == region_span(s, start, end),
        out.subrange(start + 1, out.len() as int) == s.subrange(end + 1, s.len() as int),
        forall|j: int| 0 <= j < start ==> out[j] == s[j],
        forall|j: int| start < j < out.len() ==> out[j] == s[j - start + end],
{
    let n = s.len() as int;
    let region = Piece::Region { start: start, end: end, delim: delim };
    lemma_piece_at(s, start);
    lemma_verbatim_run(s, 0, start);
    lemma_verbatim_run(s, end + 1, n);
    assert(pieces(s, start) == seq![region] + pieces(s, end + 1));
    assert(pieces(s, end + 1) =~= verbatim_run(end + 1, n));
    let all = verbatim_run(0, start) + (seq![region] + verbatim_run(end + 1, n));
    assert(pieces(s, 0) == all);
    assert(all.len() == start + 1 + (n - end - 1));
    assert(yields(s, pieces(s, 0)[start], out[start]));
    assert(all[start] == region);
    assert forall|j: int| 0 <= j < start implies out[j] == s[j] by {
        assert(yields(s, pieces(s, 0)[j], out[j]));
        assert(all[j] == Piece::Verbatim { at: j });
    }
    assert forall|j: int| start < j < out.len() implies out[j] == s[j - start + end] by {
        assert(yields(s, pieces(s, 0)[j], out[j]));
        assert(all[j] == verbatim_run(end + 1, n)[j - start - 1]);
    }
    assert(out.subrange(0, start) =~= s.subrange(0, start));
    assert(out.subrange(start + 1, out.len() as int) =~= s.subrange(end + 1, n));
}

/// Where every region closes, the scan from a place inside the sequence
/// ends with the copy of the last token, if that token is a sigil.
proof fn lemma_last_piece(s: Seq<TokenAndSpan>, i: int)
    requires
        0 <= i < s.len(),
        s.last().tok is Sigil,
        unclosed(s, i) is None,
    ensures
        pieces(s, i).len() > 0,
        pieces(s, i).last() == (Piece::Verbatim { at: s.len() - 1 }),
    decreases s.len() - i,
{
    lemma_piece_at(s, i);
    let p = piece_at(s, i)->0;
    assert(pieces(s, i) == seq![p] + pieces(s, p.next()));
    if p.next() < s.len() {
        lemma_last_piece(s, p.next());
    } else {
        if let Piece::Region { start, end, delim } = p {
            lemma_region_end(s, delim, i + 1);
        }
        assert(pieces(s, p.next()) =~= Seq::<Piece>::empty());
    }
}

/// A sigil at the end of the sequence comes out as it went in, wherever
/// every region before it closes.
pub proof fn lemma_trailing_sigil(s: Seq<TokenAndSpan>, out: Seq<TokenAndSpan>)
    requires
        s.len() > 0,
        s.last().tok is Sigil,
        unclosed(s, 0) is None,
        is_unquoted(s, out),
    ensures
        out.len() > 0,
        out.last() == s.last(),
{
    lemma_last_piece(s, 0);
    assert(yields(s, pieces(s, 0)[out.len() - 1], out[out.len() - 1]));
}

/// A sigil before an opening bracket starts no region: where the scan comes
/// to it, at piece `j`, the sigil and the bracket both come out as they
/// went in.
pub proof fn lemma_sigil_before_bracket(s: Seq<TokenAndSpan>, out: Seq<TokenAndSpan>, j: int)
    requires
        is_unquoted(s, out),
        0 <= j < pieces(s, 0).len(),
        s[pieces(s, 0)[j].first()].tok is Sigil,
        pieces(s, 0)[j].first() + 1 < s.len(),
        s[pieces(s, 0)[j].first() + 1].tok == Token::OpenDelim(DelimToken::Bracket),
    ensures
        unquote_delim(s, pieces(s, 0)[j].first()) is None,
        j + 1 < out.len(),
        out[j] == s[pieces(s, 0)[j].first()],
        out[j + 1] == s[pieces(s, 0)[j].first() + 1],
{
    let i = pieces(s, 0)[j].first();
    lemma_pieces_index(s, 0, j);
    lemma_piece_at(s, i);
    lemma_piece_at(s, i + 1);
    assert(piece_at(s, i + 1) == Some(Piece::Verbatim { at: i + 1 }));
    assert(yields(s, pieces(s, 0)[j], out[j]));
    lemma_pieces_index(s, 0, j + 1);
    assert(yields(s, pieces(s, 0)[j + 1], out[j + 1]));
}

/// A region ends at the first closing delimiter of its shape at which the
/// depth is back to 0. A closing delimiter of that shape before the end
/// closes a nested group: the depth before it was 2 or more, and it does not
/// end the region.
pub proof fn lemma_nested_delimiters(s: Seq<TokenAndSpan>, d: DelimToken, open: int, end: int)
    requires
        region_end(s, d, open) == Some(end),
    ensures
        open < end < s.len(),
        s[end].tok == Token::CloseDelim(d),
        depth_after(s, d, open, end) == 0,
        forall|k: int| open < k < end ==> #[trigger] depth_after(s, d, open, k) >= 1,
        forall|k: int|
            open < k < end && s[k].tok == Token::CloseDelim(d) ==> #[trigger] depth_after(
                s,
                d,
                open,
                k - 1,
            ) >= 2,
{
    lemma_region_end(s, d, open);
    assert forall|k: int| open < k < end && s[k].tok == Token::CloseDelim(d) implies #[trigger] depth_after(
        s,
        d,
        open,
        k - 1,
    ) >= 2 by {
        assert(depth_after(s, d, open, k) > 0);
    }
}

/// The depth is the same in two sequences whose tokens change it alike.
proof fn lemma_depth_alike(s: Seq<TokenAndSpan>, t: Seq<TokenAndSpan>, d: DelimToken, open: int, j: int)
    requires
        0 <= open,
        j < s.len(),
        s.len() == t.len(),
        forall|k: int| open < k < s.len() ==> delim_delta(s[k].tok, d) == delim_delta(t[k].tok, d),
    ensures
        depth_after(s, d, open, j) == depth_after(t, d, open, j),
    decreases j - open,
{
    if j > open {
        lemma_depth_alike(s, t, d, open, j - 1);
    }
}

/// Where a region ends depends on the delimiters of its own shape only:
/// two sequences that differ in other tokens, delimiters of other shapes
/// among them, have the region's end at the same place.
pub proof fn lemma_other_shapes_ignored(
    s: Seq<TokenAndSpan>,
    t: Seq<TokenAndSpan>,
    d: DelimToken,
    open: int,
)
    requires
        0 <= open,
        s.len() == t.len(),
        forall|k: int| open < k < s.len() ==> delim_delta(s[k].tok, d) == delim_delta(t[k].tok, d),
    ensures
        region_end(s, d, open) == region_end(t, d, open),
{
    assert forall|j: int| closes_at(s, d, open, j) == closes_at(t, d, open, j) by {
        if open < j < s.len() {
            lemma_depth_alike(s, t, d, open, j);
            assert forall|k: int| open < k < j implies depth_after(s, d, open, k) == depth_after(
                t,
                d,
                open,
                k,
            ) by {
                lemma_depth_alike(s, t, d, open, k);
            }
        }
    }
    lemma_region_end(s, d, open);
    lemma_region_end(t, d, open);
}

} // verus!
