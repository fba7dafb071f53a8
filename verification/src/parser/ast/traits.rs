use crate::lexer::token::Span;
use crate::lexer::token::Token;
use crate::parser::ast::attributes::AttributeGroup;
use crate::parser::ast::constant::ClassishConstant;
use crate::parser::ast::functions::Method;
use crate::parser::ast::identifiers::Identifier;
use crate::parser::ast::identifiers::spanned;
use crate::parser::ast::modifiers::VisibilityModifier;
use crate::parser::ast::properties::Property;
use crate::parser::ast::properties::VariableProperty;
use vstd::prelude::*;

verus! {

/// A trait declaration.
#[derive(Debug, PartialEq, Eq)]
pub struct Trait {
    pub start: Span,
    pub end: Span,
    pub name: Identifier,
    pub attributes: Vec<AttributeGroup>,
    pub members: Vec<TraitMember>,
}

impl Trait {
    /// Whether every position in the node comes from `tokens` in order, and
    /// every list that the grammar makes non-empty holds an item.
    pub open spec fn valid(self, tokens: Seq<Token>) -> bool
        decreases self,
    {
        &&& spanned(tokens, self.start, self.end)
        &&& self.name.valid(tokens)
        &&& forall|i: int| 0 <= i < self.attributes@.len() ==> (#[trigger] self.attributes@[i]).valid(tokens)
        &&& forall|i: int| 0 <= i < self.members@.len() ==> (#[trigger] self.members@[i]).valid(tokens)
    }
}

/// What a trait body holds.
#[derive(Debug, PartialEq, Eq)]
pub enum TraitMember {
    Constant(ClassishConstant),
    TraitUsage(TraitUsage),
    Property(Property),
    VariableProperty(VariableProperty),
    Method(Method),
}

impl TraitMember {
    /// Whether every position in the node comes from `tokens` in order, and
    /// every list that the grammar makes non-empty holds an item.
    pub open spec fn valid(self, tokens: Seq<Token>) -> bool
        decreases self,
    {
        match self {
            TraitMember::Constant(x) => x.valid(tokens),
            TraitMember::TraitUsage(x) => x.valid(tokens),
            TraitMember::Property(x) => x.valid(tokens),
            TraitMember::VariableProperty(x) => x.valid(tokens),
            TraitMember::Method(x) => x.valid(tokens),
        }
    }
}

/// A `use` of traits inside a class-like body, with its adaptations.
#[derive(Debug, Clone, PartialEq, Eq)]
pub struct TraitUsage {
    pub traits: Vec<Identifier>,
    pub adaptations: Vec<TraitUsageAdaptation>,
}

impl TraitUsage {
    /// Whether every position in the node comes from `tokens` in order, and
    /// every list that the grammar makes non-empty holds an item.
    pub open spec fn valid(self, tokens: Seq<Token>) -> bool
        decreases self,
    {
        &&& self.traits@.len() > 0
        &&& forall|i: int| 0 <= i < self.traits@.len() ==> (#[trigger] self.traits@[i]).valid(tokens)
        &&& forall|i: int| 0 <= i < self.adaptations@.len() ==> (#[trigger] self.adaptations@[i]).valid(tokens)
    }
}

/// One adaptation of a used trait's method.
#[derive(Debug, Clone, PartialEq, Eq)]
pub enum TraitUsageAdaptation {
    Alias {
        trait_name: Option<Identifier>,
        method: Identifier,
        alias: Identifier,
        visibility: Option<VisibilityModifier>,
    },
    Visibility {
        trait_name: Option<Identifier>,
        method: Identifier,
        visibility: VisibilityModifier,
    },
    Precedence { trait_name: Option<Identifier>, method: Identifier, insteadof: Vec<Identifier> },
}

impl TraitUsageAdaptation {
    /// Whether every position in the node comes from `tokens` in order, and
    /// every list that the grammar makes non-empty holds an item.
    pub open spec fn valid(self, tokens: Seq<Token>) -> bool
        decreases self,
    {
        match self {
            TraitUsageAdaptation::Alias { trait_name, method, alias, .. } => {
                &&& match trait_name {
                        Some(x) => x.valid(tokens),
                        None => true,
                    }
                &&& method.valid(tokens)
                &&& alias.valid(tokens)
            },
            TraitUsageAdaptation::Visibility { trait_name, method, .. } => {
                &&& match trait_name {
                        Some(x) => x.valid(tokens),
                        None => true,
                    }
                &&& method.valid(tokens)
            },
            TraitUsageAdaptation::Precedence { trait_name, method, insteadof } => {
                &&& match trait_name {
                        Some(x) => x.valid(tokens),
                        None => true,
                    }
                &&& method.valid(tokens)
                &&& insteadof@.len() > 0
                &&& forall|i: int| 0 <= i < insteadof@.len() ==> (#[trigger] insteadof@[i]).valid(tokens)
            },
        }
    }
}

} // verus!
