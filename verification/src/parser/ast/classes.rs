use crate::lexer::token::Span;
use crate::lexer::token::Token;
use crate::parser::ast::attributes::AttributeGroup;
use crate::parser::ast::constant::ClassishConstant;
use crate::parser::ast::functions::Method;
use crate::parser::ast::identifiers::Identifier;
use crate::parser::ast::identifiers::spanned;
use crate::parser::ast::modifiers::ClassModifier;
use crate::parser::ast::properties::Property;
use crate::parser::ast::properties::VariableProperty;
use crate::parser::ast::traits::TraitUsage;
use vstd::prelude::*;

verus! {

/// A class declaration.
#[derive(Debug, PartialEq, Eq)]
pub struct Class {
    pub start: Span,
    pub end: Span,
    pub name: Identifier,
    pub attributes: Vec<AttributeGroup>,
    pub modifiers: Vec<ClassModifier>,
    pub extends: Option<Identifier>,
    pub implements: Vec<Identifier>,
    pub members: Vec<ClassMember>,
}

impl Class {
    /// Whether every position in the node comes from `tokens` in order, and
    /// every list that the grammar makes non-empty holds an item.
    pub open spec fn valid(self, tokens: Seq<Token>) -> bool
        decreases self,
    {
        &&& spanned(tokens, self.start, self.end)
        &&& self.name.valid(tokens)
        &&& forall|i: int| 0 <= i < self.attributes@.len() ==> (#[trigger] self.attributes@[i]).valid(tokens)
        &&& match self.extends {
                Some(x) => x.valid(tokens),
                None => true,
            }
        &&& forall|i: int| 0 <= i < self.implements@.len() ==> (#[trigger] self.implements@[i]).valid(tokens)
        &&& forall|i: int| 0 <= i < self.members@.len() ==> (#[trigger] self.members@[i]).valid(tokens)
    }
}

/// A class without a name, as `new class` creates it.
#[derive(Debug, PartialEq, Eq)]
pub struct AnonymousClass {
    pub start: Span,
    pub end: Span,
    pub attributes: Vec<AttributeGroup>,
    pub extends: Option<Identifier>,
    pub implements: Vec<Identifier>,
    pub members: Vec<ClassMember>,
}

impl AnonymousClass {
    /// Whether every position in the node comes from `tokens` in order, and
    /// every list that the grammar makes non-empty holds an item.
    pub open spec fn valid(self, tokens: Seq<Token>) -> bool
        decreases self,
    {
        &&& spanned(tokens, self.start, self.end)
        &&& forall|i: int| 0 <= i < self.attributes@.len() ==> (#[trigger] self.attributes@[i]).valid(tokens)
        &&& match self.extends {
                Some(x) => x.valid(tokens),
                None => true,
            }
        &&& forall|i: int| 0 <= i < self.implements@.len() ==> (#[trigger] self.implements@[i]).valid(tokens)
        &&& forall|i: int| 0 <= i < self.members@.len() ==> (#[trigger] self.members@[i]).valid(tokens)
    }
}

/// What a class body holds.
#[derive(Debug, PartialEq, Eq)]
pub enum ClassMember {
    Constant(ClassishConstant),
    TraitUsage(TraitUsage),
    Property(Property),
    VariableProperty(VariableProperty),
    Method(Method),
}

impl ClassMember {
    /// Whether every position in the node comes from `tokens` in order, and
    /// every list that the grammar makes non-empty holds an item.
    pub open spec fn valid(self, tokens: Seq<Token>) -> bool
        decreases self,
    {
        match self {
            ClassMember::Constant(x) => x.valid(tokens),
            ClassMember::TraitUsage(x) => x.valid(tokens),
            ClassMember::Property(x) => x.valid(tokens),
            ClassMember::VariableProperty(x) => x.valid(tokens),
            ClassMember::Method(x) => x.valid(tokens),
        }
    }
}

} // verus!
