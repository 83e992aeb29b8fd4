//! Quasiquotation for anonymous macros: a region of the form sigil, opening
//! parenthesis or brace, tokens, closing delimiter is handed to a
//! collaborator, and what the collaborator makes of it takes the region's
//! place in the token stream as one interpolated token.

use vstd::prelude::*;

pub mod balance;
pub mod code_gen;
pub mod compiler;
pub mod host;
pub mod laws;
pub mod quasiquote;
pub mod region;
pub mod token_flattener;

use crate::code_gen::generate_rust_code;
use crate::code_gen::is_generated;
use crate::code_gen::MacResult;
use crate::code_gen::TokenAndSpanArray;
use crate::compiler::Compiler;
use crate::host::Diagnostic;
use crate::host::Expr;
use crate::host::TokenAndSpan;
use crate::quasiquote::is_unclosed_error;
use crate::quasiquote::Quasiquote;
use crate::region::is_compiled;
use crate::region::is_unquoted;
use crate::region::unclosed;
use crate::token_flattener::flat;
use crate::token_flattener::TokenCursor;
use crate::token_flattener::TokenFlattener;

verus! {

/// Expands one anonymous macro: flattens what the parser presents from `rp`
/// on, has `compiler` compile every region, and has the host's parser,
/// `parse_expr`, read the result as one expression. Where a region never
/// closes, the parser is not asked, and the result is the fatal error.
pub fn compile_anonymous_macro<C, P>(rp: TokenCursor, compiler: &mut C, parse_expr: P) -> (res: Result<
    MacResult,
    Diagnostic,
>) where C: Compiler, P: FnOnce(TokenAndSpanArray) -> Result<Expr, Diagnostic>
    requires
        forall|reader: TokenAndSpanArray|
            reader.index() == 0 && is_unquoted(flat(rp@), reader.tokens()) ==> call_requires(
                parse_expr,
                (reader,),
            ),
    ensures
        exists|out: Seq<TokenAndSpan>, states: Seq<C>|
            {
                &&& #[trigger] is_compiled(flat(rp@), out, states)
                &&& states.first() == *old(compiler)
                &&& states.last() == *final(compiler)
                &&& match unclosed(flat(rp@), 0) {
                    Some(_) => res matches Err(e) && is_unclosed_error(flat(rp@), e),
                    None => exists|reader: TokenAndSpanArray, parsed: Result<Expr, Diagnostic>|
                        {
                            &&& reader.tokens() == out
                            &&& reader.index() == 0
                            &&& call_ensures(parse_expr, (reader,), parsed)
                            &&& is_generated(parsed, res)
                        },
                }
            },
{
    let tokens = TokenFlattener::flatten(rp);
    match Quasiquote::compile(tokens, compiler) {
        Ok(tokens) => generate_rust_code(tokens, parse_expr),
        Err(e) => Err(e),
    }
}

} // verus!
