use crate::lexer::token::ByteString;
use crate::lexer::token::Span;
use crate::lexer::token::Token;
use crate::parser::ast::identifiers::spanned;
use vstd::prelude::*;

verus! {

/// A variable; the name is kept without its `$`.
#[derive(Debug, Clone, PartialEq, Eq)]
pub struct Variable {
    pub start: Span,
    pub name: ByteString,
    pub end: Span,
}

impl Variable {
    pub open spec fn valid(self, tokens: Seq<Token>) -> bool {
        spanned(tokens, self.start, self.end)
    }
}

} // verus!
