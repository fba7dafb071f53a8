use crate::lexer::token::Token;
use crate::parser::ast::Expression;
use crate::parser::ast::attributes::AttributeGroup;
use crate::parser::ast::identifiers::Identifier;
use crate::parser::ast::modifiers::ConstantModifier;
use vstd::prelude::*;

verus! {

/// A constant declared inside a class, interface, trait or enum.
#[derive(Debug, PartialEq, Eq)]
pub struct ClassishConstant {
    pub attributes: Vec<AttributeGroup>,
    pub modifiers: Vec<ConstantModifier>,
    pub name: Identifier,
    pub value: Expression,
}

impl ClassishConstant {
    /// Whether every position in the node comes from `tokens` in order, and
    /// every list that the grammar makes non-empty holds an item.
    pub open spec fn valid(self, tokens: Seq<Token>) -> bool
        decreases self,
    {
        &&& forall|i: int| 0 <= i < self.attributes@.len() ==> (#[trigger] self.attributes@[i]).valid(tokens)
        &&& self.name.valid(tokens)
        &&& self.value.valid(tokens)
    }
}

} // verus!
