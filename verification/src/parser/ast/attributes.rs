use crate::lexer::token::Span;
use crate::lexer::token::Token;
use crate::parser::ast::Expression;
use crate::parser::ast::identifiers::spanned;
use vstd::prelude::*;

verus! {

/// One attribute: an expression, most often a call-like form.
#[derive(Debug, PartialEq, Eq)]
pub struct Attribute {
    pub start: Span,
    pub end: Span,
    pub expression: Expression,
}

impl Attribute {
    /// Whether every position in the node comes from `tokens` in order, and
    /// every list that the grammar makes non-empty holds an item.
    pub open spec fn valid(self, tokens: Seq<Token>) -> bool
        decreases self,
    {
        &&& spanned(tokens, self.start, self.end)
        &&& self.expression.valid(tokens)
    }
}

/// The attributes between one `#[` and its `]`.
#[derive(Debug, PartialEq, Eq)]
pub struct AttributeGroup {
    pub start: Span,
    pub end: Span,
    pub members: Vec<Attribute>,
}

impl AttributeGroup {
    /// Whether every position in the node comes from `tokens` in order, and
    /// every list that the grammar makes non-empty holds an item.
    pub open spec fn valid(self, tokens: Seq<Token>) -> bool
        decreases self,
    {
        &&& spanned(tokens, self.start, self.end)
        &&& forall|i: int| 0 <= i < self.members@.len() ==> (#[trigger] self.members@[i]).valid(tokens)
    }
}

} // verus!
