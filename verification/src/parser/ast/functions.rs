use crate::lexer::token::Span;
use crate::lexer::token::Token;
use crate::parser::ast::Expression;
use crate::parser::ast::Statement;
use crate::parser::ast::Type;
use crate::parser::ast::attributes::AttributeGroup;
use crate::parser::ast::identifiers::Identifier;
use crate::parser::ast::identifiers::spanned;
use crate::parser::ast::modifiers::MethodModifier;
use crate::parser::ast::modifiers::PromotedPropertyModifier;
use crate::parser::ast::variables::Variable;
use vstd::prelude::*;

verus! {

/// One parameter of a function, method or closure.
#[derive(Debug, PartialEq, Eq)]
pub struct Param {
    pub start: Span,
    pub end: Span,
    pub name: Variable,
    pub attributes: Vec<AttributeGroup>,
    pub ty: Option<Type>,
    pub variadic: bool,
    pub default: Option<Expression>,
    pub modifiers: Vec<PromotedPropertyModifier>,
    pub by_ref: bool,
}

impl Param {
    /// Whether every position in the node comes from `tokens` in order, and
    /// every list that the grammar makes non-empty holds an item.
    pub open spec fn valid(self, tokens: Seq<Token>) -> bool
        decreases self,
    {
        &&& spanned(tokens, self.start, self.end)
        &&& self.name.valid(tokens)
        &&& forall|i: int| 0 <= i < self.attributes@.len() ==> (#[trigger] self.attributes@[i]).valid(tokens)
        &&& match self.default {
                Some(x) => x.valid(tokens),
                None => true,
            }
    }
}

/// A named function.
#[derive(Debug, PartialEq, Eq)]
pub struct Function {
    pub start: Span,
    pub end: Span,
    pub name: Identifier,
    pub attributes: Vec<AttributeGroup>,
    pub params: Vec<Param>,
    pub return_type: Option<Type>,
    pub by_ref: bool,
    pub body: Vec<Statement>,
}

impl Function {
    /// Whether every position in the node comes from `tokens` in order, and
    /// every list that the grammar makes non-empty holds an item.
    pub open spec fn valid(self, tokens: Seq<Token>) -> bool
        decreases self,
    {
        &&& spanned(tokens, self.start, self.end)
        &&& self.name.valid(tokens)
        &&& forall|i: int| 0 <= i < self.attributes@.len() ==> (#[trigger] self.attributes@[i]).valid(tokens)
        &&& forall|i: int| 0 <= i < self.params@.len() ==> (#[trigger] self.params@[i]).valid(tokens)
        &&& forall|i: int| 0 <= i < self.body@.len() ==> (#[trigger] self.body@[i]).valid(tokens)
    }
}

/// A variable that a closure captures.
#[derive(Debug, PartialEq, Eq)]
pub struct ClosureUse {
    pub var: Variable,
    pub by_ref: bool,
}

impl ClosureUse {
    /// Whether every position in the node comes from `tokens` in order, and
    /// every list that the grammar makes non-empty holds an item.
    pub open spec fn valid(self, tokens: Seq<Token>) -> bool
        decreases self,
    {
        self.var.valid(tokens)
    }
}

/// An anonymous function.
#[derive(Debug, PartialEq, Eq)]
pub struct Closure {
    pub start: Span,
    pub end: Span,
    pub attributes: Vec<AttributeGroup>,
    pub params: Vec<Param>,
    pub uses: Vec<ClosureUse>,
    pub return_type: Option<Type>,
    pub by_ref: bool,
    pub is_static: bool,
    pub body: Vec<Statement>,
}

impl Closure {
    /// Whether every position in the node comes from `tokens` in order, and
    /// every list that the grammar makes non-empty holds an item.
    pub open spec fn valid(self, tokens: Seq<Token>) -> bool
        decreases self,
    {
        &&& spanned(tokens, self.start, self.end)
        &&& forall|i: int| 0 <= i < self.attributes@.len() ==> (#[trigger] self.attributes@[i]).valid(tokens)
        &&& forall|i: int| 0 <= i < self.params@.len() ==> (#[trigger] self.params@[i]).valid(tokens)
        &&& forall|i: int| 0 <= i < self.uses@.len() ==> (#[trigger] self.uses@[i]).valid(tokens)
        &&& forall|i: int| 0 <= i < self.body@.len() ==> (#[trigger] self.body@[i]).valid(tokens)
    }
}

/// An arrow function: its body is one expression.
#[derive(Debug, PartialEq, Eq)]
pub struct ArrowFunction {
    pub start: Span,
    pub end: Span,
    pub attributes: Vec<AttributeGroup>,
    pub params: Vec<Param>,
    pub return_type: Option<Type>,
    pub by_ref: bool,
    pub is_static: bool,
    pub expr: Box<Expression>,
}

impl ArrowFunction {
    /// Whether every position in the node comes from `tokens` in order, and
    /// every list that the grammar makes non-empty holds an item.
    pub open spec fn valid(self, tokens: Seq<Token>) -> bool
        decreases self,
    {
        &&& spanned(tokens, self.start, self.end)
        &&& forall|i: int| 0 <= i < self.attributes@.len() ==> (#[trigger] self.attributes@[i]).valid(tokens)
        &&& forall|i: int| 0 <= i < self.params@.len() ==> (#[trigger] self.params@[i]).valid(tokens)
        &&& self.expr.valid(tokens)
    }
}

/// A method; `body` is absent for an abstract or interface method.
#[derive(Debug, PartialEq, Eq)]
pub struct Method {
    pub start: Span,
    pub end: Span,
    pub name: Identifier,
    pub attributes: Vec<AttributeGroup>,
    pub modifiers: Vec<MethodModifier>,
    pub params: Vec<Param>,
    pub return_type: Option<Type>,
    pub by_ref: bool,
    pub body: Option<Vec<Statement>>,
}

impl Method {
    /// Whether every position in the node comes from `tokens` in order, and
    /// every list that the grammar makes non-empty holds an item.
    pub open spec fn valid(self, tokens: Seq<Token>) -> bool
        decreases self,
    {
        &&& spanned(tokens, self.start, self.end)
        &&& self.name.valid(tokens)
        &&& forall|i: int| 0 <= i < self.attributes@.len() ==> (#[trigger] self.attributes@[i]).valid(tokens)
        &&& forall|i: int| 0 <= i < self.params@.len() ==> (#[trigger] self.params@[i]).valid(tokens)
        &&& match self.body {
                Some(x) => forall|i: int| 0 <= i < x@.len() ==> (#[trigger] x@[i]).valid(tokens),
                None => true,
            }
    }
}

} // verus!
