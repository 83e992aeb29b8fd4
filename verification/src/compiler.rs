//! What a quasiquote region is handed over as, and the collaborator that
//! compiles it.

use vstd::prelude::*;
use vstd::hash_map::StringHashMap;
use crate::host::Block;
use crate::host::Expr;
use crate::host::Ident;
use crate::host::Span;

verus! {

/// One region of an anonymous macro, packaged for the collaborator.
pub struct Unquote {
    /// Every plain identifier that occurs in the region, under its spelling.
    /// Of two identifiers with one spelling the later one stays.
    pub text_to_ident: StringHashMap<Ident>,
    /// The text of the tokens between the delimiters, a space after each.
    pub code: String,
    /// The region's span, from the sigil to the closing delimiter.
    pub span: Span,
}

/// The collaborator: turns a packaged region into a parsed node of the host.
///
/// What a collaborator answers is its own affair. Its two relations are its
/// own account of it, by which the contracts of this library say which
/// regions it was asked for, in which order, and where its answers went. A
/// collaborator that gives no account leaves both relations as they are
/// here: every answer is allowed.
pub trait Compiler {
    /// Whether the collaborator, asked to compile `unquote` to an
    /// expression, may answer `expr` and be `after` when it has answered.
    open spec fn compiles_expr(&self, unquote: Unquote, after: &Self, expr: Expr) -> bool {
        true
    }

    /// Whether the collaborator, asked to compile `unquote` to a block, may
    /// answer `block` and be `after` when it has answered.
    open spec fn compiles_block(&self, unquote: Unquote, after: &Self, block: Block) -> bool {
        true
    }

    /// Compiles a region written between parentheses to an expression.
    fn compile_expr(&mut self, unquote: Unquote) -> (expr: Expr)
        ensures
            old(self).compiles_expr(unquote, final(self), expr),
    ;

    /// Compiles a region written between braces to a block.
    fn compile_block(&mut self, unquote: Unquote) -> (block: Block)
        ensures
            old(self).compiles_block(unquote, final(self), block),
    ;
}

} // verus!
