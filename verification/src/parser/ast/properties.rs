use crate::lexer::token::Token;
use crate::parser::ast::Expression;
use crate::parser::ast::Type;
use crate::parser::ast::attributes::AttributeGroup;
use crate::parser::ast::modifiers::PropertyModifier;
use crate::parser::ast::variables::Variable;
use vstd::prelude::*;

verus! {

/// A property declared with modifiers.
#[derive(Debug, PartialEq, Eq)]
pub struct Property {
    pub attributes: Vec<AttributeGroup>,
    pub modifiers: Vec<PropertyModifier>,
    pub ty: Option<Type>,
    pub var: Variable,
    pub value: Option<Expression>,
}

impl Property {
    /// Whether every position in the node comes from `tokens` in order, and
    /// every list that the grammar makes non-empty holds an item.
    pub open spec fn valid(self, tokens: Seq<Token>) -> bool
        decreases self,
    {
        &&& forall|i: int| 0 <= i < self.attributes@.len() ==> (#[trigger] self.attributes@[i]).valid(tokens)
        &&& self.var.valid(tokens)
        &&& match self.value {
                Some(x) => x.valid(tokens),
                None => true,
            }
    }
}

/// A property declared with `var`.
#[derive(Debug, PartialEq, Eq)]
pub struct VariableProperty {
    pub attributes: Vec<AttributeGroup>,
    pub ty: Option<Type>,
    pub var: Variable,
    pub value: Option<Expression>,
}

impl VariableProperty {
    /// Whether every position in the node comes from `tokens` in order, and
    /// every list that the grammar makes non-empty holds an item.
    pub open spec fn valid(self, tokens: Seq<Token>) -> bool
        decreases self,
    {
        &&& forall|i: int| 0 <= i < self.attributes@.len() ==> (#[trigger] self.attributes@[i]).valid(tokens)
        &&& self.var.valid(tokens)
        &&& match self.value {
                Some(x) => x.valid(tokens),
                None => true,
            }
    }
}

} // verus!
