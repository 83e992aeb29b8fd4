//! Balance of delimiters in a flat token sequence.

use vstd::prelude::*;
use crate::host::DelimToken;
use crate::host::Token;
use crate::host::TokenAndSpan;

verus! {

/// The delimiters that `s` has opened and not closed, the outermost first;
/// `None` where `s` closes a delimiter that is not the innermost open one.
pub open spec fn open_delims(s: Seq<TokenAndSpan>) -> Option<Seq<DelimToken>>
    decreases s.len(),
{
    if s.len() == 0 {
        Some(Seq::empty())
    } else {
        match open_delims(s.drop_last()) {
            None => None,
            Some(stack) => match s.last().tok {
                Token::OpenDelim(d) => Some(stack.push(d)),
                Token::CloseDelim(d) => if stack.len() > 0 && stack.last() == d {
                    Some(stack.drop_last())
                } else {
                    None
                },
                _ => Some(stack),
            },
        }
    }
}

/// Every opening delimiter of `s` has its closing delimiter, of the same
/// shape and properly nested, and every closing delimiter its opening one.
pub open spec fn balanced(s: Seq<TokenAndSpan>) -> bool {
    open_delims(s) == Some(Seq::<DelimToken>::empty())
}

/// What a sequence leaves open stays open below what a second sequence,
/// read after it, leaves open by itself.
pub proof fn lemma_open_delims_concat(a: Seq<TokenAndSpan>, b: Seq<TokenAndSpan>)
    requires
        open_delims(a) is Some,
        open_delims(b) is Some,
    ensures
        open_delims(a + b) == Some(open_delims(a)->0 + open_delims(b)->0),
    decreases b.len(),
{
    let sa = open_delims(a)->0;
    if b.len() == 0 {
        assert(a + b =~= a);
        assert(sa + open_delims(b)->0 =~= sa);
    } else {
        let sb = open_delims(b.drop_last())->0;
        lemma_open_delims_concat(a, b.drop_last());
        assert((a + b).drop_last() =~= a + b.drop_last());
        assert((a + b).last() == b.last());
        match b.last().tok {
            Token::OpenDelim(d) => {
                assert((sa + sb).push(d) =~= sa + sb.push(d));
            },
            Token::CloseDelim(d) => {
                assert((sa + sb).last() == sb.last());
                assert((sa + sb).drop_last() =~= sa + sb.drop_last());
            },
            _ => {},
        }
    }
}

/// A balanced sequence between an opening delimiter and the closing
/// delimiter of the same shape is balanced.
pub proof fn lemma_balanced_in_delims(
    open: TokenAndSpan,
    body: Seq<TokenAndSpan>,
    close: TokenAndSpan,
    d: DelimToken,
)
    requires
        open.tok == Token::OpenDelim(d),
        close.tok == Token::CloseDelim(d),
        balanced(body),
    ensures
        balanced(seq![open] + body + seq![close]),
{
    let head = seq![open];
    assert(head.drop_last() =~= Seq::<TokenAndSpan>::empty());
    assert(open_delims(head.drop_last()) == Some(Seq::<DelimToken>::empty()));
    assert(open_delims(head) == Some(Seq::<DelimToken>::empty().push(d)));
    lemma_open_delims_concat(head, body);
    let whole = head + body + seq![close];
    assert(whole.drop_last() =~= head + body);
    assert(whole.last() == close);
    let stack = Seq::<DelimToken>::empty().push(d) + Seq::<DelimToken>::empty();
    assert(stack =~= seq![d]);
    assert(stack.drop_last() =~= Seq::<DelimToken>::empty());
}

/// A token that is no delimiter, read after a balanced sequence, leaves it
/// balanced.
pub proof fn lemma_balanced_push_plain(s: Seq<TokenAndSpan>, t: TokenAndSpan)
    requires
        balanced(s),
        !(t.tok is OpenDelim),
        !(t.tok is CloseDelim),
    ensures
        balanced(s.push(t)),
{
    assert(s.push(t).drop_last() =~= s);
}

} // verus!
