use crate::lexer::token::Span;
use crate::lexer::token::Token;
use crate::lexer::token::TokenKind;
use crate::parser::ast::classes::Class;
use crate::parser::ast::classes::ClassMember;
use crate::parser::ast::constant::ClassishConstant;
use crate::parser::ast::enums::BackedEnumType;
use crate::parser::ast::enums::Enum;
use crate::parser::ast::enums::EnumCase;
use crate::parser::ast::enums::EnumMember;
use crate::parser::ast::functions::Method;
use crate::parser::ast::identifiers::Identifier;
use crate::parser::ast::interfaces::Interface;
use crate::parser::ast::interfaces::InterfaceMember;
use crate::parser::ast::properties::Property;
use crate::parser::ast::properties::VariableProperty;
use crate::parser::ast::traits::Trait;
use crate::parser::ast::traits::TraitMember;
use crate::parser::ast::traits::TraitUsage;
use crate::parser::ast::traits::TraitUsageAdaptation;
use crate::parser::error::ParseError;
use crate::parser::internal::classish_statements::visibility_of;
use crate::parser::internal::declarations::models_groups;
use crate::parser::internal::declarations::models_optional_type;
use crate::parser::internal::declarations::models_params;
use crate::parser::internal::grouping::models;
use crate::parser::internal::grouping::named_at;
use crate::parser::internal::grouping::reports;
use crate::parser::internal::modifiers::class_modifier_of;
use crate::parser::internal::modifiers::constant_modifier_of;
use crate::parser::internal::modifiers::method_modifier_of;
use crate::parser::internal::modifiers::property_modifier_of;
use crate::parser::internal::program::models_block;
use crate::parser::internal::program::models_optional;
use crate::parser::internal::program::variable_at;
use crate::parser::internal::declarations::after_ampersand;
use crate::parser::internal::declarations::attributes;
use crate::parser::internal::declarations::optional_type;
use crate::parser::internal::declarations::parameter_list;
use crate::parser::internal::declarations::return_type;
use crate::parser::internal::declarations::GroupShape;
use crate::parser::internal::declarations::ParamShape;
use crate::parser::internal::declarations::TypeShape;
use crate::parser::internal::grouping::finish;
use crate::parser::internal::grouping::grouping;
use crate::parser::internal::grouping::missing;
use crate::parser::internal::grouping::Fault;
use crate::parser::internal::grouping::Parsed;
use crate::parser::internal::grouping::Scope;
use crate::parser::internal::grouping::Shape;
use crate::parser::internal::identifiers::fully_qualified_name;
use crate::parser::internal::identifiers::qualified_name;
use crate::parser::internal::identifiers::reserved_name;
use crate::parser::internal::modifiers::first_violation;
use crate::parser::internal::modifiers::holds;
use crate::parser::internal::modifiers::modifiers_end;
use crate::parser::internal::modifiers::placed;
use crate::parser::internal::modifiers::Modifier;
use crate::parser::internal::modifiers::Target;
use crate::parser::internal::precedences::Precedence;
use crate::parser::internal::program::ended;
use crate::parser::internal::program::StatementShape;
use crate::parser::internal::structures::braced;
use crate::parser::state::comments_end;
use vstd::prelude::*;
use vstd::string::StringSliceAdditionalSpecFns;

verus! {

/// One adaptation of a used trait's method. Tokens are given by their
/// index.
pub enum AdaptationShape {
    Alias { trait_name: Option<int>, method: int, alias: int, visibility: Option<int> },
    Visibility { trait_name: Option<int>, method: int, visibility: int },
    Precedence { trait_name: Option<int>, method: int, insteadof: Seq<int> },
}

/// A trait usage: the tokens of the traits, and the adaptations.
pub struct UsageShape {
    pub traits: Seq<int>,
    pub adaptations: Seq<AdaptationShape>,
}

/// A constant of a class-like body: its attributes, the range of its
/// modifiers, the token of its name and its value.
pub struct ConstantShape {
    pub attributes: Seq<GroupShape>,
    pub modifiers: (int, int),
    pub name: int,
    pub value: Shape,
}

/// A property: its attributes, the range of its modifiers (empty for a
/// property declared with `var`), its type, the token of its variable and
/// its default value.
pub struct PropertyShape {
    pub attributes: Seq<GroupShape>,
    pub modifiers: (int, int),
    pub ty: Option<TypeShape>,
    pub var: int,
    pub value: Option<Shape>,
}

/// A method: the tokens at which it starts and ends, its attributes, the
/// range of its modifiers, `&`, the token of its name, its parameters, its
/// return type and its body, where it has one.
pub struct MethodShape {
    pub start: int,
    pub end: int,
    pub attributes: Seq<GroupShape>,
    pub modifiers: (int, int),
    pub by_ref: bool,
    pub name: int,
    pub params: Seq<ParamShape>,
    pub return_type: Option<TypeShape>,
    pub body: Option<Seq<StatementShape>>,
}

/// A case of an enum: its attributes, the token of its name and its value.
pub struct EnumCaseShape {
    pub attributes: Seq<GroupShape>,
    pub name: int,
    pub value: Option<Shape>,
}

/// A member of a class, an interface, a trait or an enum.
pub enum MemberShape {
    Constant(ConstantShape),
    TraitUsage(UsageShape),
    Property(PropertyShape),
    VariableProperty(PropertyShape),
    Method(MethodShape),
    Case(EnumCaseShape),
}

/// The kinds of declaration that have a body of members.
pub enum Classish {
    Class,
    Interface,
    Trait,
    Enum,
}

/// A class, an interface, a trait or an enum: its kind, the tokens at
/// which it starts and ends, its attributes, the range of its modifiers,
/// the token of its name, what it extends, what it implements, the token of
/// its backing type, and its members.
pub struct ClassishShape {
    pub kind: Classish,
    pub start: int,
    pub end: int,
    pub attributes: Seq<GroupShape>,
    pub modifiers: (int, int),
    pub name: int,
    pub extends: Seq<int>,
    pub implements: Seq<int>,
    pub backing: Option<int>,
    pub members: Seq<MemberShape>,
}

/// Names from `pos` on, after the names `before`: at least one, separated
/// by commas.
pub open spec fn name_list(tokens: Seq<Token>, pos: int, before: Seq<int>) -> Parsed<Seq<int>>
    decreases tokens.len() - pos,
{
    if !(0 <= pos && pos + 2 < tokens.len()) || fully_qualified_name(tokens[pos].kind) is None {
        if 0 <= pos < tokens.len() && fully_qualified_name(tokens[pos].kind) is None {
            Parsed::Fails(missing(pos, "an identifier".spec_bytes()))
        } else if 0 <= pos && pos + 1 < tokens.len() && !(tokens[pos + 1].kind is Comma) {
            Parsed::Tree(before.push(pos), pos + 1)
        } else {
            Parsed::Other
        }
    } else if tokens[pos + 1].kind is Comma {
        name_list(tokens, pos + 2, before.push(pos))
    } else {
        Parsed::Tree(before.push(pos), pos + 1)
    }
}

/// Names after the keyword at `pos`, where `keyword` says that the token
/// there is the keyword; no names where it is not.
pub open spec fn names_after(tokens: Seq<Token>, pos: int, keyword: bool) -> Parsed<Seq<int>> {
    if !(0 <= pos < tokens.len()) {
        Parsed::Other
    } else if keyword {
        name_list(tokens, pos + 1, Seq::empty())
    } else {
        Parsed::Tree(Seq::empty(), pos)
    }
}

/// `extends name` at `pos`, or nothing.
pub open spec fn extends(tokens: Seq<Token>, pos: int) -> Parsed<Seq<int>> {
    if !(0 <= pos && pos + 1 < tokens.len()) {
        if 0 <= pos < tokens.len() {
            Parsed::Tree(Seq::empty(), pos)
        } else {
            Parsed::Other
        }
    } else if !(tokens[pos].kind is Extends) {
        Parsed::Tree(Seq::empty(), pos)
    } else if pos + 2 < tokens.len() && fully_qualified_name(tokens[pos + 1].kind) is Some {
        Parsed::Tree(seq![pos + 1], pos + 2)
    } else {
        Parsed::Fails(missing(pos + 1, "an identifier".spec_bytes()))
    }
}

/// What gives a method another name or visibility, from the token after
/// `as` at `at` on, with its `;`: `[visibility] alias` or `visibility`. The
/// method is the one at `method`, of the trait at `qualifier`.
#[verifier::opaque]
pub open spec fn aliased(tokens: Seq<Token>, qualifier: Option<int>, method: int, at: int) -> Parsed<
    AdaptationShape,
> {
    if !(0 <= at < tokens.len()) {
        Parsed::Other
    } else if visibility_of(tokens[at].kind) is Some && at + 1 < tokens.len() {
        if tokens[at + 1].kind is SemiColon {
            Parsed::Tree(
                AdaptationShape::Visibility { trait_name: qualifier, method, visibility: at },
                at + 2,
            )
        } else if qualified_name(tokens[at + 1].kind) is Some {
            ended(
                tokens,
                at + 2,
                AdaptationShape::Alias {
                    trait_name: qualifier,
                    method,
                    alias: at + 1,
                    visibility: Some(at),
                },
            )
        } else {
            Parsed::Fails(missing(at + 1, "an identifier".spec_bytes()))
        }
    } else if qualified_name(tokens[at].kind) is Some {
        ended(
            tokens,
            at + 1,
            AdaptationShape::Alias { trait_name: qualifier, method, alias: at, visibility: None },
        )
    } else {
        Parsed::Fails(missing(at, "an identifier".spec_bytes()))
    }
}

/// One adaptation at `pos`, with its `;`.
///
/// The forms are `[T::]m as [visibility] alias`, `[T::]m as visibility`,
/// `[T::]m insteadof A, B` and `visibility m`.
#[verifier::opaque]
pub open spec fn adaptation(tokens: Seq<Token>, pos: int) -> Parsed<AdaptationShape> {
    if !(0 <= pos < tokens.len()) {
        Parsed::Other
    } else if visibility_of(tokens[pos].kind) is Some {
        if pos + 1 < tokens.len() && tokens[pos + 1].kind is Identifier {
            ended(
                tokens,
                pos + 2,
                AdaptationShape::Visibility { trait_name: None, method: pos + 1, visibility: pos },
            )
        } else {
            Parsed::Fails(missing(pos + 1, "an identifier".spec_bytes()))
        }
    } else {
        let qualified = pos + 1 < tokens.len() && tokens[pos + 1].kind is DoubleColon;
        let trait_name = if qualified {
            Some(pos)
        } else {
            None
        };
        let method = if qualified {
            pos + 2
        } else {
            pos
        };
        if qualified && fully_qualified_name(tokens[pos].kind) is None {
            Parsed::Fails(missing(pos, "an identifier".spec_bytes()))
        } else if !(method < tokens.len()) {
            Parsed::Other
        } else if !(tokens[method].kind is Identifier) {
            Parsed::Fails(missing(method, "an identifier".spec_bytes()))
        } else if !(method + 1 < tokens.len()) {
            Parsed::Other
        } else if tokens[method + 1].kind is As {
            aliased(tokens, trait_name, method, method + 2)
        } else if tokens[method + 1].kind is Insteadof {
            match name_list(tokens, method + 2, Seq::empty()) {
                Parsed::Tree(names, end) => ended(
                    tokens,
                    end,
                    AdaptationShape::Precedence { trait_name, method, insteadof: names },
                ),
                Parsed::Fails(fault) => Parsed::Fails(fault),
                Parsed::Other => Parsed::Other,
            }
        } else {
            Parsed::Fails(
                Fault::Expected(method + 1, seq!["`as`".spec_bytes(), "`insteadof`".spec_bytes()]),
            )
        }
    }
}

/// The adaptations of a trait usage from `pos` on, after the adaptations
/// `before`, up to `}`, which is taken. Comments before an adaptation are
/// passed over.
pub open spec fn adaptations(tokens: Seq<Token>, pos: int, before: Seq<AdaptationShape>) -> Parsed<
    Seq<AdaptationShape>,
>
    decreases tokens.len() - pos,
{
    let start = comments_end(tokens, pos);
    if !(0 <= pos <= start < tokens.len()) {
        Parsed::Other
    } else if tokens[start].kind is RightBrace {
        Parsed::Tree(before, start + 1)
    } else {
        match adaptation(tokens, start) {
            Parsed::Tree(one, end) => if start < end < tokens.len() {
                adaptations(tokens, end, before.push(one))
            } else {
                Parsed::Other
            },
            Parsed::Fails(fault) => Parsed::Fails(fault),
            Parsed::Other => Parsed::Other,
        }
    }
}

/// A trait usage at `pos`: the traits, then `;` or the adaptations between
/// braces.
#[verifier::opaque]
pub open spec fn trait_usage(tokens: Seq<Token>, pos: int) -> Parsed<UsageShape> {
    match name_list(tokens, pos + 1, Seq::empty()) {
        Parsed::Tree(traits, end) => if !(0 <= end < tokens.len()) {
            Parsed::Other
        } else if tokens[end].kind is LeftBrace {
            match adaptations(tokens, end + 1, Seq::empty()) {
                Parsed::Tree(list, after) => Parsed::Tree(
                    UsageShape { traits, adaptations: list },
                    after,
                ),
                Parsed::Fails(fault) => Parsed::Fails(fault),
                Parsed::Other => Parsed::Other,
            }
        } else {
            ended(tokens, end, UsageShape { traits, adaptations: Seq::empty() })
        },
        Parsed::Fails(fault) => Parsed::Fails(fault),
        Parsed::Other => Parsed::Other,
    }
}

/// A value after `=` at `pos`, or nothing where no `=` stands there.
pub open spec fn initializer(tokens: Seq<Token>, pos: int, scope: Scope) -> Parsed<Option<Shape>>
    decreases tokens.len() - pos, 0nat,
{
    if !(0 <= pos < tokens.len()) {
        Parsed::Other
    } else if tokens[pos].kind is Equals {
        match grouping(tokens, pos + 1, Precedence::Lowest, scope) {
            Parsed::Tree(value, end) => Parsed::Tree(Some(value), end),
            Parsed::Fails(fault) => Parsed::Fails(fault),
            Parsed::Other => Parsed::Other,
        }
    } else {
        Parsed::Tree(None, pos)
    }
}

/// A constant of a class-like body whose `const` is at `at`, after the
/// modifiers from `from` on.
#[verifier::opaque]
pub open spec fn classish_constant(
    tokens: Seq<Token>,
    from: int,
    at: int,
    groups: Seq<GroupShape>,
    scope: Scope,
) -> Parsed<ConstantShape>
    decreases tokens.len() - at, 1nat,
{
    if !(0 <= from <= at && at + 1 < tokens.len()) {
        Parsed::Other
    } else if first_violation(placed(tokens, from, at), Target::Constant, 0) is Some {
        Parsed::Fails(Fault::Modifiers(from, at, Target::Constant))
    } else if reserved_name(tokens[at + 1].kind) is None {
        Parsed::Fails(missing(at + 1, "an identifier".spec_bytes()))
    } else if !(at + 2 < tokens.len() && tokens[at + 2].kind is Equals) {
        Parsed::Fails(missing(at + 2, "`=`".spec_bytes()))
    } else {
        match grouping(tokens, at + 3, Precedence::Lowest, scope) {
            Parsed::Tree(value, end) => ended(
                tokens,
                end,
                ConstantShape { attributes: groups, modifiers: (from, at), name: at + 1, value },
            ),
            Parsed::Fails(fault) => Parsed::Fails(fault),
            Parsed::Other => Parsed::Other,
        }
    }
}

/// A property after the modifiers from `from` up to `at`: type, variable,
/// default value and `;`.
///
/// A `readonly` property may not be `static`, must have a type and may
/// have no default value.
#[verifier::opaque]
pub open spec fn property(
    tokens: Seq<Token>,
    from: int,
    at: int,
    groups: Seq<GroupShape>,
    scope: Scope,
) -> Parsed<PropertyShape>
    decreases tokens.len() - at, 1nat,
{
    let list = placed(tokens, from, at);
    if !(0 <= from <= at < tokens.len()) {
        Parsed::Other
    } else if first_violation(list, Target::Property, 0) is Some {
        Parsed::Fails(Fault::Modifiers(from, at, Target::Property))
    } else {
        match optional_type(tokens, at) {
            Parsed::Tree(ty, var) => if !(0 <= var && var + 1 < tokens.len()) || !(tokens[var].kind
                is Variable) {
                if 0 <= var < tokens.len() {
                    Parsed::Fails(missing(var, "a variable".spec_bytes()))
                } else {
                    Parsed::Other
                }
            } else if holds(list, Modifier::Readonly) && holds(list, Modifier::Static) {
                Parsed::Fails(Fault::StaticReadonly(var))
            } else if holds(list, Modifier::Readonly) && ty is None {
                Parsed::Fails(Fault::UntypedReadonly(var))
            } else if holds(list, Modifier::Readonly) && tokens[var + 1].kind is Equals {
                Parsed::Fails(Fault::DefaultedReadonly(var))
            } else if var < at {
                Parsed::Other
            } else {
                match initializer(tokens, var + 1, scope) {
                    Parsed::Tree(value, end) => ended(
                        tokens,
                        end,
                        PropertyShape { attributes: groups, modifiers: (from, at), ty, var, value },
                    ),
                    Parsed::Fails(fault) => Parsed::Fails(fault),
                    Parsed::Other => Parsed::Other,
                }
            },
            Parsed::Fails(fault) => Parsed::Fails(fault),
            Parsed::Other => Parsed::Other,
        }
    }

}

/// A property declared with `var` at `pos`.
#[verifier::opaque]
pub open spec fn variable_property(
    tokens: Seq<Token>,
    pos: int,
    groups: Seq<GroupShape>,
    scope: Scope,
) -> Parsed<PropertyShape>
    decreases tokens.len() - pos, 1nat,
{
    if !(0 <= pos < tokens.len()) {
        Parsed::Other
    } else {
        match optional_type(tokens, pos + 1) {
            Parsed::Tree(ty, var) => if !(0 <= var && var + 1 < tokens.len()) || !(tokens[var].kind
                is Variable) {
                if 0 <= var < tokens.len() {
                    Parsed::Fails(missing(var, "a variable".spec_bytes()))
                } else {
                    Parsed::Other
                }
            } else if var <= pos {
                Parsed::Other
            } else {
                match initializer(tokens, var + 1, scope) {
                    Parsed::Tree(value, end) => ended(
                        tokens,
                        end,
                        PropertyShape { attributes: groups, modifiers: (pos, pos), ty, var, value },
                    ),
                    Parsed::Fails(fault) => Parsed::Fails(fault),
                    Parsed::Other => Parsed::Other,
                }
            },
            Parsed::Fails(fault) => Parsed::Fails(fault),
            Parsed::Other => Parsed::Other,
        }
    }
}

/// How a method ends at `pos`: in a body between braces, or in `;`. With
/// the body, if there is one, comes the token at which the method ends.
#[verifier::opaque]
pub open spec fn method_end(tokens: Seq<Token>, pos: int, scope: Scope) -> Parsed<
    (Option<Seq<StatementShape>>, int),
>
    decreases tokens.len() - pos, 12nat,
{
    if !(0 <= pos < tokens.len()) {
        Parsed::Other
    } else if tokens[pos].kind is LeftBrace {
        match braced(tokens, pos, scope) {
            Parsed::Tree(body, end) => Parsed::Tree((Some(body), end - 1), end),
            Parsed::Fails(fault) => Parsed::Fails(fault),
            Parsed::Other => Parsed::Other,
        }
    } else {
        ended(tokens, pos, (None, pos))
    }
}

/// A method whose `function` is at `at`, after the modifiers from `from`
/// on. It ends in a body, or in `;`.
#[verifier::opaque]
pub open spec fn method(
    tokens: Seq<Token>,
    from: int,
    at: int,
    groups: Seq<GroupShape>,
    scope: Scope,
) -> Parsed<MethodShape>
    decreases tokens.len() - at, 1nat,
{
    if !(0 <= from <= at && at + 1 < tokens.len()) {
        Parsed::Other
    } else if first_violation(placed(tokens, from, at), Target::Method, 0) is Some {
        Parsed::Fails(Fault::Modifiers(from, at, Target::Method))
    } else {
        let named = after_ampersand(tokens, at + 1);
        if reserved_name(tokens[named].kind) is None {
            Parsed::Fails(missing(named, "an identifier".spec_bytes()))
        } else {
            match parameter_list(tokens, named + 1, scope) {
                Parsed::Tree(params, typed) => match return_type(tokens, typed) {
                    Parsed::Tree(result, opened) => if at < opened < tokens.len() {
                        match method_end(tokens, opened, scope) {
                            Parsed::Tree(end, after) => Parsed::Tree(
                                MethodShape {
                                    start: at,
                                    end: end.1,
                                    attributes: groups,
                                    modifiers: (from, at),
                                    by_ref: named != at + 1,
                                    name: named,
                                    params,
                                    return_type: result,
                                    body: end.0,
                                },
                                after,
                            ),
                            Parsed::Fails(fault) => Parsed::Fails(fault),
                            Parsed::Other => Parsed::Other,
                        }
                    } else {
                        Parsed::Other
                    },
                    Parsed::Fails(fault) => Parsed::Fails(fault),
                    Parsed::Other => Parsed::Other,
                },
                Parsed::Fails(fault) => Parsed::Fails(fault),
                Parsed::Other => Parsed::Other,
            }
        }
    }
}

/// A member of an enum, an interface, a class or a trait at `at`, after
/// the attributes `groups`: what the body of the kind accepts.
#[verifier::opaque]
pub open spec fn member_after(
    tokens: Seq<Token>,
    at: int,
    kind: Classish,
    groups: Seq<GroupShape>,
    scope: Scope,
) -> Parsed<MemberShape>
    decreases tokens.len() - at, 2nat,
{
    if !(0 <= at < tokens.len()) {
        Parsed::Other
    } else if kind is Enum && tokens[at].kind is Case {
        if at + 2 < tokens.len() && reserved_name(tokens[at + 1].kind) is Some {
            match initializer(tokens, at + 2, scope) {
                Parsed::Tree(value, end) => ended(
                    tokens,
                    end,
                    MemberShape::Case(EnumCaseShape { attributes: groups, name: at + 1, value }),
                ),
                Parsed::Fails(fault) => Parsed::Fails(fault),
                Parsed::Other => Parsed::Other,
            }
        } else {
            Parsed::Fails(missing(at + 1, "an identifier".spec_bytes()))
        }
    } else if !(kind is Interface) && tokens[at].kind is Use {
        if groups.len() > 0 {
            Parsed::Fails(Fault::NoItem(at))
        } else {
            match trait_usage(tokens, at) {
                Parsed::Tree(usage, end) => Parsed::Tree(MemberShape::TraitUsage(usage), end),
                Parsed::Fails(fault) => Parsed::Fails(fault),
                Parsed::Other => Parsed::Other,
            }
        }
    } else if (kind is Class || kind is Trait) && tokens[at].kind is Var {
        match variable_property(tokens, at, groups, scope) {
            Parsed::Tree(shape, end) => Parsed::Tree(MemberShape::VariableProperty(shape), end),
            Parsed::Fails(fault) => Parsed::Fails(fault),
            Parsed::Other => Parsed::Other,
        }
    } else {
        let to = modifiers_end(tokens, at, None);
        if !(at <= to < tokens.len()) {
            Parsed::Other
        } else if tokens[to].kind is Const {
            match classish_constant(tokens, at, to, groups, scope) {
                Parsed::Tree(shape, end) => Parsed::Tree(MemberShape::Constant(shape), end),
                Parsed::Fails(fault) => Parsed::Fails(fault),
                Parsed::Other => Parsed::Other,
            }
        } else if tokens[to].kind is Function {
            match method(tokens, at, to, groups, scope) {
                Parsed::Tree(shape, end) => Parsed::Tree(MemberShape::Method(shape), end),
                Parsed::Fails(fault) => Parsed::Fails(fault),
                Parsed::Other => Parsed::Other,
            }
        } else if kind is Class || kind is Trait {
            match property(tokens, at, to, groups, scope) {
                Parsed::Tree(shape, end) => Parsed::Tree(MemberShape::Property(shape), end),
                Parsed::Fails(fault) => Parsed::Fails(fault),
                Parsed::Other => Parsed::Other,
            }
        } else if kind is Interface {
            Parsed::Fails(
                Fault::Expected(to, seq!["`const`".spec_bytes(), "`function`".spec_bytes()]),
            )
        } else {
            Parsed::Fails(
                Fault::Expected(
                    to,
                    seq!["`case`".spec_bytes(), "`const`".spec_bytes(), "`function`".spec_bytes()],
                ),
            )
        }
    }
}

/// A member at `pos`, with its attributes.
pub open spec fn member(tokens: Seq<Token>, pos: int, kind: Classish, scope: Scope) -> Parsed<
    MemberShape,
>
    decreases tokens.len() - pos, 3nat,
{
    if !(0 <= pos < tokens.len()) {
        Parsed::Other
    } else {
        match attributes(tokens, pos, Seq::empty(), scope) {
            Parsed::Tree(groups, at) => if pos <= at < tokens.len() {
                member_after(tokens, at, kind, groups, scope)
            } else {
                Parsed::Other
            },
            Parsed::Fails(fault) => Parsed::Fails(fault),
            Parsed::Other => Parsed::Other,
        }
    }
}

/// The members of a body from `pos` on, after the members `before`, up to
/// `}`, which is not taken. Comments before a member are passed over.
pub open spec fn members(
    tokens: Seq<Token>,
    pos: int,
    kind: Classish,
    before: Seq<MemberShape>,
    scope: Scope,
) -> Parsed<Seq<MemberShape>>
    decreases tokens.len() - pos, 4nat,
{
    let start = comments_end(tokens, pos);
    if !(0 <= pos <= start < tokens.len()) {
        Parsed::Other
    } else if tokens[start].kind is RightBrace {
        Parsed::Tree(before, start)
    } else {
        match member(tokens, start, kind, scope) {
            Parsed::Tree(one, end) => if start < end < tokens.len() {
                members(tokens, end, kind, before.push(one), scope)
            } else {
                Parsed::Other
            },
            Parsed::Fails(fault) => Parsed::Fails(fault),
            Parsed::Other => Parsed::Other,
        }
    }

}

/// The members between braces, the `{` being at `pos`, of a declaration of
/// the kind; the end is after the `}`.
#[verifier::opaque]
pub open spec fn enclosed(tokens: Seq<Token>, pos: int, kind: Classish, scope: Scope) -> Parsed<
    Seq<MemberShape>,
>
    decreases tokens.len() - pos, 0nat,
{
    if !(0 <= pos && pos + 1 < tokens.len()) || !(tokens[pos].kind is LeftBrace) {
        if 0 <= pos < tokens.len() {
            Parsed::Fails(missing(pos, "`{`".spec_bytes()))
        } else {
            Parsed::Other
        }
    } else {
        match members(tokens, pos + 1, kind, Seq::empty(), scope) {
            Parsed::Tree(list, end) => finish(
                tokens,
                end,
                |k: TokenKind| k is RightBrace,
                "`}`".spec_bytes(),
                list,
            ),
            Parsed::Fails(fault) => Parsed::Fails(fault),
            Parsed::Other => Parsed::Other,
        }
    }
}

/// The body of a declaration whose `{` is at `pos`, for a declaration of
/// which the rest is given: the members between the braces, parsed in the
/// scope of the declaration. The declaration ends at the `}`.
pub open spec fn body_of(tokens: Seq<Token>, pos: int, rest: ClassishShape, scope: Scope) -> Parsed<
    ClassishShape,
>
    decreases tokens.len() - pos, 1nat,
{
    if !(0 <= pos < tokens.len()) {
        Parsed::Other
    } else {
        match enclosed(tokens, pos, rest.kind, scope) {
            Parsed::Tree(list, end) => Parsed::Tree(
                ClassishShape { end: end - 1, members: list, ..rest },
                end,
            ),
            Parsed::Fails(fault) => Parsed::Fails(fault),
            Parsed::Other => Parsed::Other,
        }
    }
}

/// What `self`, `static` and `parent` mean inside a declaration of the
/// kind: all but `parent` always, `parent` in a trait and in a class that
/// extends another.
pub open spec fn inner_scope(kind: Classish, extends: Seq<int>) -> Scope {
    Scope {
        class: true,
        parent: match kind {
            Classish::Class => extends.len() > 0,
            Classish::Trait => true,
            _ => false,
        },
    }
}

/// A class at `pos`, with the attributes `groups` before it: modifiers,
/// `class`, a name, what it extends and implements, and its body.
#[verifier::opaque]
pub open spec fn class_definition(tokens: Seq<Token>, pos: int, groups: Seq<GroupShape>) -> Parsed<
    ClassishShape,
>
    decreases tokens.len() - pos, 2nat,
{
    let to = modifiers_end(tokens, pos, None);
    if !(0 <= pos <= to < tokens.len()) {
        Parsed::Other
    } else if first_violation(placed(tokens, pos, to), Target::Class, 0) is Some {
        Parsed::Fails(Fault::Modifiers(pos, to, Target::Class))
    } else if !(tokens[to].kind is Class) {
        Parsed::Fails(missing(to, "`class`".spec_bytes()))
    } else if !(to + 1 < tokens.len() && tokens[to + 1].kind is Identifier) {
        Parsed::Fails(missing(to + 1, "an identifier".spec_bytes()))
    } else {
        match extends(tokens, to + 2) {
            Parsed::Tree(parent, next) => if !(to < next < tokens.len()) {
                Parsed::Other
            } else {
                match names_after(tokens, next, tokens[next].kind is Implements) {
                    Parsed::Tree(interfaces, opened) => if to < opened < tokens.len() {
                        body_of(
                            tokens,
                            opened,
                            ClassishShape {
                                kind: Classish::Class,
                                start: pos,
                                end: pos,
                                attributes: groups,
                                modifiers: (pos, to),
                                name: to + 1,
                                extends: parent,
                                implements: interfaces,
                                backing: None,
                                members: Seq::empty(),
                            },
                            inner_scope(Classish::Class, parent),
                        )
                    } else {
                        Parsed::Other
                    },
                    Parsed::Fails(fault) => Parsed::Fails(fault),
                    Parsed::Other => Parsed::Other,
                }
            },
            Parsed::Fails(fault) => Parsed::Fails(fault),
            Parsed::Other => Parsed::Other,
        }
    }

}

/// An interface at `pos`, with the attributes `groups` before it.
#[verifier::opaque]
pub open spec fn interface_definition(tokens: Seq<Token>, pos: int, groups: Seq<GroupShape>) -> Parsed<
    ClassishShape,
>
    decreases tokens.len() - pos, 2nat,
{
    if !(0 <= pos && pos + 1 < tokens.len()) {
        Parsed::Other
    } else if !(tokens[pos + 1].kind is Identifier) {
        Parsed::Fails(missing(pos + 1, "an identifier".spec_bytes()))
    } else {
        match names_after(
            tokens,
            pos + 2,
            pos + 2 < tokens.len() && tokens[pos + 2].kind is Extends,
        ) {
            Parsed::Tree(parents, opened) => if pos < opened < tokens.len() {
                body_of(
                    tokens,
                    opened,
                    ClassishShape {
                        kind: Classish::Interface,
                        start: pos,
                        end: pos,
                        attributes: groups,
                        modifiers: (pos, pos),
                        name: pos + 1,
                        extends: parents,
                        implements: Seq::empty(),
                        backing: None,
                        members: Seq::empty(),
                    },
                    inner_scope(Classish::Interface, parents),
                )
            } else {
                Parsed::Other
            },
            Parsed::Fails(fault) => Parsed::Fails(fault),
            Parsed::Other => Parsed::Other,
        }
    }
}

/// A trait at `pos`, with the attributes `groups` before it.
#[verifier::opaque]
pub open spec fn trait_definition(tokens: Seq<Token>, pos: int, groups: Seq<GroupShape>) -> Parsed<
    ClassishShape,
>
    decreases tokens.len() - pos, 2nat,
{
    if !(0 <= pos && pos + 1 < tokens.len()) {
        Parsed::Other
    } else if !(tokens[pos + 1].kind is Identifier) {
        Parsed::Fails(missing(pos + 1, "an identifier".spec_bytes()))
    } else {
        body_of(
            tokens,
            pos + 2,
            ClassishShape {
                kind: Classish::Trait,
                start: pos,
                end: pos,
                attributes: groups,
                modifiers: (pos, pos),
                name: pos + 1,
                extends: Seq::empty(),
                implements: Seq::empty(),
                backing: None,
                members: Seq::empty(),
            },
            inner_scope(Classish::Trait, Seq::empty()),
        )
    }
}

/// Whether the token names a backing type: `int` or `string`.
pub open spec fn names_backing(kind: TokenKind) -> bool {
    kind is Identifier && (kind->Identifier_0@ == "int".spec_bytes() || kind->Identifier_0@
        == "string".spec_bytes())
}

/// An enum at `pos`, with the attributes `groups` before it. A backed enum
/// names `int` or `string` after a `:`.
#[verifier::opaque]
pub open spec fn enum_definition(tokens: Seq<Token>, pos: int, groups: Seq<GroupShape>) -> Parsed<
    ClassishShape,
>
    decreases tokens.len() - pos, 2nat,
{
    if !(0 <= pos && pos + 1 < tokens.len()) {
        Parsed::Other
    } else if !(tokens[pos + 1].kind is Identifier) {
        Parsed::Fails(missing(pos + 1, "an identifier".spec_bytes()))
    } else if pos + 2 < tokens.len() && tokens[pos + 2].kind is Colon && !(pos + 3 < tokens.len()
        && names_backing(
        tokens[pos + 3].kind,
    )) {
        Parsed::Fails(
            Fault::Expected(pos + 3, seq!["`int`".spec_bytes(), "`string`".spec_bytes()]),
        )
    } else {
        let next = if pos + 2 < tokens.len() && tokens[pos + 2].kind is Colon {
            pos + 4
        } else {
            pos + 2
        };
        match names_after(
            tokens,
            next,
            next < tokens.len() && tokens[next].kind is Implements,
        ) {
            Parsed::Tree(interfaces, opened) => if pos < opened < tokens.len() {
                body_of(
                    tokens,
                    opened,
                    ClassishShape {
                        kind: Classish::Enum,
                        start: pos,
                        end: pos,
                        attributes: groups,
                        modifiers: (pos, pos),
                        name: pos + 1,
                        extends: Seq::empty(),
                        implements: interfaces,
                        backing: if next != pos + 2 {
                            Some(pos + 3)
                        } else {
                            None
                        },
                        members: Seq::empty(),
                    },
                    inner_scope(Classish::Enum, Seq::empty()),
                )
            } else {
                Parsed::Other
            },
            Parsed::Fails(fault) => Parsed::Fails(fault),
            Parsed::Other => Parsed::Other,
        }
    }
}

/// Whether each name is the one that the token at its place gives.
pub open spec fn models_names(list: Seq<Identifier>, at: Seq<int>, tokens: Seq<Token>) -> bool
    decreases at,
{
    &&& list.len() == at.len()
    &&& forall|i: int| 0 <= i < at.len() ==> named_at(list[i], tokens, #[trigger] at[i])
}

/// Whether an optional name is the one that the optional token gives.
pub open spec fn models_optional_name(name: Option<Identifier>, at: Option<int>, tokens: Seq<Token>) -> bool
    decreases at,
{
    match at {
        Some(index) => name is Some && named_at(name->Some_0, tokens, index),
        None => name is None,
    }
}

/// Whether the adaptation is the one that the shape says.
pub open spec fn models_adaptation(a: TraitUsageAdaptation, shape: AdaptationShape, tokens: Seq<Token>) -> bool
    decreases shape,
{
    match shape {
        AdaptationShape::Alias { trait_name, method, alias, visibility } => match a {
            TraitUsageAdaptation::Alias { trait_name: t, method: m, alias: n, visibility: v } => {
                &&& models_optional_name(t, trait_name, tokens)
                &&& named_at(m, tokens, method)
                &&& named_at(n, tokens, alias)
                &&& match visibility {
                    Some(at) => 0 <= at < tokens.len() && v == visibility_of(tokens[at].kind)
                        && v is Some,
                    None => v is None,
                }
            },
            _ => false,
        },
        AdaptationShape::Visibility { trait_name, method, visibility } => match a {
            TraitUsageAdaptation::Visibility { trait_name: t, method: m, visibility: v } => {
                &&& models_optional_name(t, trait_name, tokens)
                &&& named_at(m, tokens, method)
                &&& 0 <= visibility < tokens.len()
                &&& Some(v) == visibility_of(tokens[visibility].kind)
            },
            _ => false,
        },
        AdaptationShape::Precedence { trait_name, method, insteadof } => match a {
            TraitUsageAdaptation::Precedence { trait_name: t, method: m, insteadof: list } => {
                &&& models_optional_name(t, trait_name, tokens)
                &&& named_at(m, tokens, method)
                &&& insteadof.len() > 0
                &&& models_names(list@, insteadof, tokens)
            },
            _ => false,
        },
    }
}

/// Whether the trait usage is the one that the shape says.
pub open spec fn models_usage(u: TraitUsage, shape: UsageShape, tokens: Seq<Token>) -> bool
    decreases shape,
{
    &&& shape.traits.len() > 0
    &&& models_names(u.traits@, shape.traits, tokens)
    &&& u.adaptations@.len() == shape.adaptations.len()
    &&& forall|i: int|
        0 <= i < shape.adaptations.len() ==> models_adaptation(
            u.adaptations@[i],
            #[trigger] shape.adaptations[i],
            tokens,
        )
}

/// Whether the constant is the one that the shape says.
pub open spec fn models_constant(c: ClassishConstant, shape: ConstantShape, tokens: Seq<Token>) -> bool
    decreases shape,
{
    &&& models_groups(c.attributes@, shape.attributes, tokens)
    &&& c.modifiers@ == Seq::new(
        (shape.modifiers.1 - shape.modifiers.0) as nat,
        |i: int| constant_modifier_of(placed(tokens, shape.modifiers.0, shape.modifiers.1)[i].modifier),
    )
    &&& named_at(c.name, tokens, shape.name)
    &&& models(c.value, shape.value, tokens)
}

/// Whether the property is the one that the shape says.
pub open spec fn models_property(p: Property, shape: PropertyShape, tokens: Seq<Token>) -> bool
    decreases shape,
{
    &&& models_groups(p.attributes@, shape.attributes, tokens)
    &&& p.modifiers@ == Seq::new(
        (shape.modifiers.1 - shape.modifiers.0) as nat,
        |i: int| property_modifier_of(placed(tokens, shape.modifiers.0, shape.modifiers.1)[i].modifier),
    )
    &&& models_optional_type(p.ty, shape.ty, tokens)
    &&& variable_at(p.var, tokens, shape.var)
    &&& models_optional(p.value, shape.value, tokens)
}

/// Whether the property declared with `var` is the one that the shape
/// says.
pub open spec fn models_variable_property(p: VariableProperty, shape: PropertyShape, tokens: Seq<Token>) -> bool
    decreases shape,
{
    &&& models_groups(p.attributes@, shape.attributes, tokens)
    &&& models_optional_type(p.ty, shape.ty, tokens)
    &&& variable_at(p.var, tokens, shape.var)
    &&& models_optional(p.value, shape.value, tokens)
}

/// Whether the method is the one that the shape says.
pub open spec fn models_method(m: Method, shape: MethodShape, tokens: Seq<Token>) -> bool
    decreases shape,
{
    &&& 0 <= shape.start <= shape.end < tokens.len()
    &&& m.start == tokens[shape.start].span
    &&& m.end == tokens[shape.end].span
    &&& models_groups(m.attributes@, shape.attributes, tokens)
    &&& m.modifiers@ == Seq::new(
        (shape.modifiers.1 - shape.modifiers.0) as nat,
        |i: int| method_modifier_of(placed(tokens, shape.modifiers.0, shape.modifiers.1)[i].modifier),
    )
    &&& m.by_ref == shape.by_ref
    &&& named_at(m.name, tokens, shape.name)
    &&& models_params(m.params@, shape.params, tokens)
    &&& models_optional_type(m.return_type, shape.return_type, tokens)
    &&& match shape.body {
        Some(list) => m.body is Some && models_block(m.body->Some_0@, list, tokens),
        None => m.body is None,
    }
}

/// Whether the case is the one that the shape says.
pub open spec fn models_case(c: EnumCase, shape: EnumCaseShape, tokens: Seq<Token>) -> bool
    decreases shape,
{
    &&& models_groups(c.attributes@, shape.attributes, tokens)
    &&& named_at(c.name, tokens, shape.name)
    &&& models_optional(c.value, shape.value, tokens)
}

/// Whether the member of a class is the one that the shape says.
pub open spec fn models_class_member(m: ClassMember, shape: MemberShape, tokens: Seq<Token>) -> bool
    decreases shape,
{
    match shape {
        MemberShape::Constant(s) => m is Constant && models_constant(m->Constant_0, s, tokens),
        MemberShape::TraitUsage(s) => m is TraitUsage && models_usage(m->TraitUsage_0, s, tokens),
        MemberShape::Property(s) => m is Property && models_property(m->Property_0, s, tokens),
        MemberShape::VariableProperty(s) => m is VariableProperty && models_variable_property(
            m->VariableProperty_0,
            s,
            tokens,
        ),
        MemberShape::Method(s) => m is Method && models_method(m->Method_0, s, tokens),
        MemberShape::Case(_) => false,
    }
}

/// Whether the member of a trait is the one that the shape says.
pub open spec fn models_trait_member(m: TraitMember, shape: MemberShape, tokens: Seq<Token>) -> bool
    decreases shape,
{
    match shape {
        MemberShape::Constant(s) => m is Constant && models_constant(m->Constant_0, s, tokens),
        MemberShape::TraitUsage(s) => m is TraitUsage && models_usage(m->TraitUsage_0, s, tokens),
        MemberShape::Property(s) => m is Property && models_property(m->Property_0, s, tokens),
        MemberShape::VariableProperty(s) => m is VariableProperty && models_variable_property(
            m->VariableProperty_0,
            s,
            tokens,
        ),
        MemberShape::Method(s) => m is Method && models_method(m->Method_0, s, tokens),
        MemberShape::Case(_) => false,
    }
}

/// Whether the member of an interface is the one that the shape says.
pub open spec fn models_interface_member(m: InterfaceMember, shape: MemberShape, tokens: Seq<Token>) -> bool
    decreases shape,
{
    match shape {
        MemberShape::Constant(s) => m is Constant && models_constant(m->Constant_0, s, tokens),
        MemberShape::Method(s) => m is Method && models_method(m->Method_0, s, tokens),
        _ => false,
    }
}

/// Whether the member of an enum is the one that the shape says.
pub open spec fn models_enum_member(m: EnumMember, shape: MemberShape, tokens: Seq<Token>) -> bool
    decreases shape,
{
    match shape {
        MemberShape::Case(s) => m is Case && models_case(m->Case_0, s, tokens),
        MemberShape::Constant(s) => m is Constant && models_constant(m->Constant_0, s, tokens),
        MemberShape::TraitUsage(s) => m is TraitUsage && models_usage(m->TraitUsage_0, s, tokens),
        MemberShape::Method(s) => m is Method && models_method(m->Method_0, s, tokens),
        _ => false,
    }
}

/// Whether the declaration has the head that the shape says: positions
/// and name.
pub open spec fn models_head(
    start: Span,
    end: Span,
    name: Identifier,
    shape: ClassishShape,
    tokens: Seq<Token>,
) -> bool {
    &&& 0 <= shape.start <= shape.end < tokens.len()
    &&& start == tokens[shape.start].span
    &&& end == tokens[shape.end].span
    &&& named_at(name, tokens, shape.name)
}

/// Whether the class is the one that the shape says.
pub open spec fn models_class(c: Class, shape: ClassishShape, tokens: Seq<Token>) -> bool
    decreases shape,
{
    &&& shape.kind is Class
    &&& models_head(c.start, c.end, c.name, shape, tokens)
    &&& models_groups(c.attributes@, shape.attributes, tokens)
    &&& c.modifiers@ == Seq::new(
        (shape.modifiers.1 - shape.modifiers.0) as nat,
        |i: int| class_modifier_of(placed(tokens, shape.modifiers.0, shape.modifiers.1)[i].modifier),
    )
    &&& match c.extends {
        Some(parent) => shape.extends.len() == 1 && named_at(parent, tokens, shape.extends[0]),
        None => shape.extends.len() == 0,
    }
    &&& models_names(c.implements@, shape.implements, tokens)
    &&& c.members@.len() == shape.members.len()
    &&& forall|i: int|
        0 <= i < shape.members.len() ==> models_class_member(
            c.members@[i],
            #[trigger] shape.members[i],
            tokens,
        )
}

/// Whether the interface is the one that the shape says.
pub open spec fn models_interface(c: Interface, shape: ClassishShape, tokens: Seq<Token>) -> bool
    decreases shape,
{
    &&& shape.kind is Interface
    &&& models_head(c.start, c.end, c.name, shape, tokens)
    &&& models_groups(c.attributes@, shape.attributes, tokens)
    &&& models_names(c.extends@, shape.extends, tokens)
    &&& c.members@.len() == shape.members.len()
    &&& forall|i: int|
        0 <= i < shape.members.len() ==> models_interface_member(
            c.members@[i],
            #[trigger] shape.members[i],
            tokens,
        )
}

/// Whether the trait is the one that the shape says.
pub open spec fn models_trait(c: Trait, shape: ClassishShape, tokens: Seq<Token>) -> bool
    decreases shape,
{
    &&& shape.kind is Trait
    &&& models_head(c.start, c.end, c.name, shape, tokens)
    &&& models_groups(c.attributes@, shape.attributes, tokens)
    &&& c.members@.len() == shape.members.len()
    &&& forall|i: int|
        0 <= i < shape.members.len() ==> models_trait_member(
            c.members@[i],
            #[trigger] shape.members[i],
            tokens,
        )
}

/// The backing type that the name at `at` stands for.
pub open spec fn backing_at(tokens: Seq<Token>, at: int) -> BackedEnumType {
    if tokens[at].kind->Identifier_0@ == "int".spec_bytes() {
        BackedEnumType::Int
    } else {
        BackedEnumType::String
    }
}

/// Whether the enum is the one that the shape says.
pub open spec fn models_enum(c: Enum, shape: ClassishShape, tokens: Seq<Token>) -> bool
    decreases shape,
{
    &&& shape.kind is Enum
    &&& models_head(c.start, c.end, c.name, shape, tokens)
    &&& models_groups(c.attributes@, shape.attributes, tokens)
    &&& match shape.backing {
        Some(at) => 0 <= at < tokens.len() && names_backing(tokens[at].kind) && c.backing == Some(
            backing_at(tokens, at),
        ),
        None => c.backing is None,
    }
    &&& models_names(c.implements@, shape.implements, tokens)
    &&& c.members@.len() == shape.members.len()
    &&& forall|i: int|
        0 <= i < shape.members.len() ==> models_enum_member(
            c.members@[i],
            #[trigger] shape.members[i],
            tokens,
        )
}

/// As `agrees`, for a list of names.
pub open spec fn names_agree(
    said: Parsed<Seq<int>>,
    tokens: Seq<Token>,
    r: Result<Vec<Identifier>, ParseError>,
    position: int,
) -> bool {
    match said {
        Parsed::Tree(at, end) => r is Ok && models_names(r->Ok_0@, at, tokens) && position == end,
        Parsed::Fails(fault) => r is Err && reports(r->Err_0, fault, tokens),
        Parsed::Other => false,
    }
}

} // verus!
