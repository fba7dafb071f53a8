use vstd::prelude::*;

verus! {

/// The visibility of a member.
#[derive(Debug, Clone, Copy, PartialEq, Eq, Structural)]
pub enum VisibilityModifier {
    Public,
    Protected,
    Private,
}

/// The modifiers that a class declaration accepts.
#[derive(Debug, Clone, Copy, PartialEq, Eq, Structural)]
pub enum ClassModifier {
    Final,
    Abstract,
    Readonly,
}

/// The modifiers that a method accepts.
#[derive(Debug, Clone, Copy, PartialEq, Eq, Structural)]
pub enum MethodModifier {
    Final,
    Static,
    Abstract,
    Public,
    Protected,
    Private,
}

/// The modifiers that a property accepts.
#[derive(Debug, Clone, Copy, PartialEq, Eq, Structural)]
pub enum PropertyModifier {
    Public,
    Protected,
    Private,
    Static,
    Readonly,
}

/// The modifiers that a promoted constructor parameter accepts.
#[derive(Debug, Clone, Copy, PartialEq, Eq, Structural)]
pub enum PromotedPropertyModifier {
    Public,
    Protected,
    Private,
    Readonly,
}

/// The modifiers that a class constant accepts.
#[derive(Debug, Clone, Copy, PartialEq, Eq, Structural)]
pub enum ConstantModifier {
    Final,
    Public,
    Protected,
    Private,
}

} // verus!
