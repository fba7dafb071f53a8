use crate::lexer::token::Span;
use crate::lexer::token::Token;
use crate::parser::ast::attributes::AttributeGroup;
use crate::parser::ast::constant::ClassishConstant;
use crate::parser::ast::functions::Method;
use crate::parser::ast::identifiers::Identifier;
use crate::parser::ast::identifiers::spanned;
use vstd::prelude::*;

verus! {

/// An interface declaration.
#[derive(Debug, PartialEq, Eq)]
pub struct Interface {
    pub start: Span,
    pub end: Span,
    pub name: Identifier,
    pub attributes: Vec<AttributeGroup>,
    pub extends: Vec<Identifier>,
    pub members: Vec<InterfaceMember>,
}

impl Interface {
    /// Whether every position in the node comes from `tokens` in order, and
    /// every list that the grammar makes non-empty holds an item.
    pub open spec fn valid(self, tokens: Seq<Token>) -> bool
        decreases self,
    {
        &&& spanned(tokens, self.start, self.end)
        &&& self.name.valid(tokens)
        &&& forall|i: int| 0 <= i < self.attributes@.len() ==> (#[trigger] self.attributes@[i]).valid(tokens)
        &&& forall|i: int| 0 <= i < self.extends@.len() ==> (#[trigger] self.extends@[i]).valid(tokens)
        &&& forall|i: int| 0 <= i < self.members@.len() ==> (#[trigger] self.members@[i]).valid(tokens)
    }
}

/// What an interface body holds.
#[derive(Debug, PartialEq, Eq)]
pub enum InterfaceMember {
    Constant(ClassishConstant),
    Method(Method),
}

impl InterfaceMember {
    /// Whether every position in the node comes from `tokens` in order, and
    /// every list that the grammar makes non-empty holds an item.
    pub open spec fn valid(self, tokens: Seq<Token>) -> bool
        decreases self,
    {
        match self {
            InterfaceMember::Constant(x) => x.valid(tokens),
            InterfaceMember::Method(x) => x.valid(tokens),
        }
    }
}

} // verus!
