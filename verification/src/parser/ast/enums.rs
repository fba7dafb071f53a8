use crate::lexer::token::Span;
use crate::lexer::token::Token;
use crate::parser::ast::Expression;
use crate::parser::ast::attributes::AttributeGroup;
use crate::parser::ast::constant::ClassishConstant;
use crate::parser::ast::functions::Method;
use crate::parser::ast::identifiers::Identifier;
use crate::parser::ast::identifiers::spanned;
use crate::parser::ast::traits::TraitUsage;
use vstd::prelude::*;

verus! {

/// The scalar type behind a backed enum.
#[derive(Debug, Clone, Copy, PartialEq, Eq, Structural)]
pub enum BackedEnumType {
    String,
    Int,
}

/// One case of an enum; a backed enum gives each case a value.
#[derive(Debug, PartialEq, Eq)]
pub struct EnumCase {
    pub attributes: Vec<AttributeGroup>,
    pub name: Identifier,
    pub value: Option<Expression>,
}

impl EnumCase {
    /// Whether every position in the node comes from `tokens` in order, and
    /// every list that the grammar makes non-empty holds an item.
    pub open spec fn valid(self, tokens: Seq<Token>) -> bool
        decreases self,
    {
        &&& forall|i: int| 0 <= i < self.attributes@.len() ==> (#[trigger] self.attributes@[i]).valid(tokens)
        &&& self.name.valid(tokens)
        &&& match self.value {
                Some(x) => x.valid(tokens),
                None => true,
            }
    }
}

/// What an enum body holds.
#[derive(Debug, PartialEq, Eq)]
pub enum EnumMember {
    Case(EnumCase),
    Constant(ClassishConstant),
    TraitUsage(TraitUsage),
    Method(Method),
}

impl EnumMember {
    /// Whether every position in the node comes from `tokens` in order, and
    /// every list that the grammar makes non-empty holds an item.
    pub open spec fn valid(self, tokens: Seq<Token>) -> bool
        decreases self,
    {
        match self {
            EnumMember::Case(x) => x.valid(tokens),
            EnumMember::Constant(x) => x.valid(tokens),
            EnumMember::TraitUsage(x) => x.valid(tokens),
            EnumMember::Method(x) => x.valid(tokens),
        }
    }
}

/// An enum declaration, untyped or backed.
#[derive(Debug, PartialEq, Eq)]
pub struct Enum {
    pub start: Span,
    pub end: Span,
    pub name: Identifier,
    pub attributes: Vec<AttributeGroup>,
    pub backing: Option<BackedEnumType>,
    pub implements: Vec<Identifier>,
    pub members: Vec<EnumMember>,
}

impl Enum {
    /// Whether every position in the node comes from `tokens` in order, and
    /// every list that the grammar makes non-empty holds an item.
    pub open spec fn valid(self, tokens: Seq<Token>) -> bool
        decreases self,
    {
        &&& spanned(tokens, self.start, self.end)
        &&& self.name.valid(tokens)
        &&& forall|i: int| 0 <= i < self.attributes@.len() ==> (#[trigger] self.attributes@[i]).valid(tokens)
        &&& forall|i: int| 0 <= i < self.implements@.len() ==> (#[trigger] self.implements@[i]).valid(tokens)
        &&& forall|i: int| 0 <= i < self.members@.len() ==> (#[trigger] self.members@[i]).valid(tokens)
    }
}

} // verus!
