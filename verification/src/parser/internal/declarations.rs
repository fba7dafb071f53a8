use crate::lexer::token::Token;
use crate::lexer::token::TokenKind;
use crate::parser::ast::attributes::Attribute;
use crate::parser::ast::attributes::AttributeGroup;
use crate::parser::ast::functions::Param;
use crate::parser::ast::Type;
use crate::parser::error::ParseError;
use crate::parser::internal::grouping::finish;
use crate::parser::internal::grouping::grouping;
use crate::parser::internal::grouping::missing;
use crate::parser::internal::grouping::models;
use crate::parser::internal::grouping::reports;
use crate::parser::internal::grouping::Fault;
use crate::parser::internal::grouping::Parsed;
use crate::parser::internal::grouping::Scope;
use crate::parser::internal::grouping::Shape;
use crate::parser::internal::identifiers::static_type_name;
use crate::parser::internal::modifiers::first_violation;
use crate::parser::internal::modifiers::modifiers_end;
use crate::parser::internal::modifiers::placed;
use crate::parser::internal::modifiers::promoted_modifier_of;
use crate::parser::internal::modifiers::Target;
use crate::parser::internal::precedences::Precedence;
use crate::parser::internal::program::models_optional;
use crate::parser::internal::program::variable_at;
use crate::parser::state::comments_end;
use vstd::prelude::*;
use vstd::string::StringSliceAdditionalSpecFns;

verus! {

/// A type as a declaration writes it: the tokens of its names.
pub enum TypeShape {
    Plain(int),
    Nullable(int),
    Union(Seq<int>),
    Intersection(Seq<int>),
}

/// One attribute: the tokens at which it starts and ends, and its
/// expression.
pub struct AttributeShape {
    pub start: int,
    pub end: int,
    pub expression: Shape,
}

/// One attribute group: its `#[`, its `]` and its members.
pub struct GroupShape {
    pub start: int,
    pub end: int,
    pub members: Seq<AttributeShape>,
}

/// One parameter: the tokens at which it starts and ends, its attributes,
/// the range of its promotion modifiers, its type, `&`, `...`, the token of
/// its variable and its default value.
pub struct ParamShape {
    pub start: int,
    pub end: int,
    pub attributes: Seq<GroupShape>,
    pub modifiers: (int, int),
    pub ty: Option<TypeShape>,
    pub by_ref: bool,
    pub variadic: bool,
    pub name: int,
    pub default: Option<Shape>,
}

/// Whether `&` at `pos` joins two types, rather than marking the parameter
/// that follows as taken by reference.
pub open spec fn joins(tokens: Seq<Token>, pos: int) -> bool {
    0 <= pos && pos + 1 < tokens.len() && tokens[pos].kind is Ampersand && !(tokens[pos + 1].kind
        is Variable) && !(tokens[pos + 1].kind is Ellipsis) && !(tokens[pos + 1].kind
        is Ampersand)
}

/// The names of a union or an intersection from `pos` on, after the names
/// `before`: each after a `|`, or after a joining `&`.
pub open spec fn more_types(tokens: Seq<Token>, pos: int, union: bool, before: Seq<int>) -> Parsed<
    Seq<int>,
>
    decreases tokens.len() - pos,
{
    if !(0 <= pos && pos + 2 < tokens.len()) {
        if 0 <= pos < tokens.len() && !((union && tokens[pos].kind is Pipe) || (!union && joins(
            tokens,
            pos,
        ))) {
            Parsed::Tree(before, pos)
        } else if 0 <= pos && pos + 1 < tokens.len() {
            Parsed::Fails(missing(pos + 1, "an identifier".spec_bytes()))
        } else {
            Parsed::Other
        }
    } else if !((union && tokens[pos].kind is Pipe) || (!union && joins(tokens, pos))) {
        Parsed::Tree(before, pos)
    } else if static_type_name(tokens[pos + 1].kind) is None {
        Parsed::Fails(missing(pos + 1, "an identifier".spec_bytes()))
    } else {
        more_types(tokens, pos + 2, union, before.push(pos + 1))
    }
}

/// A type at `pos`: a name, `?name`, a union `a|b` or an intersection
/// `a&b`. A name may be `array`, `callable` or `static`.
pub open spec fn type_string(tokens: Seq<Token>, pos: int) -> Parsed<TypeShape> {
    if !(0 <= pos && pos + 1 < tokens.len()) {
        if 0 <= pos < tokens.len() {
            Parsed::Fails(missing(pos, "an identifier".spec_bytes()))
        } else {
            Parsed::Other
        }
    } else if tokens[pos].kind is Question {
        if pos + 2 < tokens.len() && static_type_name(tokens[pos + 1].kind) is Some {
            Parsed::Tree(TypeShape::Nullable(pos + 1), pos + 2)
        } else {
            Parsed::Fails(missing(pos + 1, "an identifier".spec_bytes()))
        }
    } else if static_type_name(tokens[pos].kind) is None {
        Parsed::Fails(missing(pos, "an identifier".spec_bytes()))
    } else if tokens[pos + 1].kind is Pipe {
        match more_types(tokens, pos + 1, true, seq![pos]) {
            Parsed::Tree(names, end) => Parsed::Tree(TypeShape::Union(names), end),
            Parsed::Fails(fault) => Parsed::Fails(fault),
            Parsed::Other => Parsed::Other,
        }
    } else if joins(tokens, pos + 1) {
        match more_types(tokens, pos + 1, false, seq![pos]) {
            Parsed::Tree(names, end) => Parsed::Tree(TypeShape::Intersection(names), end),
            Parsed::Fails(fault) => Parsed::Fails(fault),
            Parsed::Other => Parsed::Other,
        }
    } else {
        Parsed::Tree(TypeShape::Plain(pos), pos + 1)
    }
}

/// A type at `pos` where one is written: none where a variable, `...` or
/// `&` stands there.
pub open spec fn optional_type(tokens: Seq<Token>, pos: int) -> Parsed<Option<TypeShape>> {
    if !(0 <= pos < tokens.len()) {
        Parsed::Other
    } else if tokens[pos].kind is Variable || tokens[pos].kind is Ellipsis || tokens[pos].kind
        is Ampersand {
        Parsed::Tree(None, pos)
    } else {
        match type_string(tokens, pos) {
            Parsed::Tree(shape, end) => Parsed::Tree(Some(shape), end),
            Parsed::Fails(fault) => Parsed::Fails(fault),
            Parsed::Other => Parsed::Other,
        }
    }
}

/// `: type` at `pos`, or nothing where no `:` stands there.
pub open spec fn return_type(tokens: Seq<Token>, pos: int) -> Parsed<Option<TypeShape>> {
    if !(0 <= pos < tokens.len()) {
        Parsed::Other
    } else if tokens[pos].kind is Colon {
        match type_string(tokens, pos + 1) {
            Parsed::Tree(shape, end) => Parsed::Tree(Some(shape), end),
            Parsed::Fails(fault) => Parsed::Fails(fault),
            Parsed::Other => Parsed::Other,
        }
    } else {
        Parsed::Tree(None, pos)
    }
}

/// Whether the name is the text of the token at `at`.
pub open spec fn spelled_at(name: Seq<u8>, tokens: Seq<Token>, at: int) -> bool {
    0 <= at < tokens.len() && Some(name) == static_type_name(tokens[at].kind)
}

/// Whether the type is the one that the shape says.
pub open spec fn models_type(t: Type, shape: TypeShape, tokens: Seq<Token>) -> bool
    decreases shape,
{
    match shape {
        TypeShape::Plain(at) => t is Plain && spelled_at(t->Plain_0@, tokens, at),
        TypeShape::Nullable(at) => t is Nullable && spelled_at(t->Nullable_0@, tokens, at),
        TypeShape::Union(names) => t is Union && names.len() >= 2 && t->Union_0@.len()
            == names.len() && forall|i: int|
            0 <= i < names.len() ==> spelled_at(t->Union_0@[i]@, tokens, #[trigger] names[i]),
        TypeShape::Intersection(names) => t is Intersection && names.len() >= 2
            && t->Intersection_0@.len() == names.len() && forall|i: int|
            0 <= i < names.len() ==> spelled_at(
                t->Intersection_0@[i]@,
                tokens,
                #[trigger] names[i],
            ),
    }
}

/// Whether an optional type is the one that the optional shape says.
pub open spec fn models_optional_type(t: Option<Type>, shape: Option<TypeShape>, tokens: Seq<Token>) -> bool
    decreases shape,
{
    match shape {
        Some(s) => t is Some && models_type(t->Some_0, s, tokens),
        None => t is None,
    }
}

/// As `agrees`, for a type.
pub open spec fn type_agrees(
    said: Parsed<TypeShape>,
    tokens: Seq<Token>,
    r: Result<Type, ParseError>,
    position: int,
) -> bool {
    match said {
        Parsed::Tree(shape, end) => r is Ok && models_type(r->Ok_0, shape, tokens) && position == end,
        Parsed::Fails(fault) => r is Err && reports(r->Err_0, fault, tokens),
        Parsed::Other => false,
    }
}

/// As `agrees`, for an optional type.
pub open spec fn optional_type_agrees(
    said: Parsed<Option<TypeShape>>,
    tokens: Seq<Token>,
    r: Result<Option<Type>, ParseError>,
    position: int,
) -> bool {
    match said {
        Parsed::Tree(shape, end) => r is Ok && models_optional_type(r->Ok_0, shape, tokens)
            && position == end,
        Parsed::Fails(fault) => r is Err && reports(r->Err_0, fault, tokens),
        Parsed::Other => false,
    }
}

/// The members of an attribute group from `pos` on, after the members
/// `before`, up to `]`, which is not taken. A comma may follow the last
/// member.
pub open spec fn attribute_members(
    tokens: Seq<Token>,
    pos: int,
    before: Seq<AttributeShape>,
    scope: Scope,
) -> Parsed<Seq<AttributeShape>>
    decreases tokens.len() - pos, 10nat,
{
    if !(0 <= pos < tokens.len()) {
        Parsed::Other
    } else if tokens[pos].kind is RightBracket {
        Parsed::Tree(before, pos)
    } else {
        match grouping(tokens, pos, Precedence::Lowest, scope) {
            Parsed::Tree(expression, end) => {
                let all = before.push(AttributeShape { start: pos, end, expression });
                if !(pos < end && end + 1 < tokens.len()) {
                    if pos < end < tokens.len() {
                        Parsed::Tree(all, end)
                    } else {
                        Parsed::Other
                    }
                } else if tokens[end].kind is Comma {
                    attribute_members(tokens, end + 1, all, scope)
                } else {
                    Parsed::Tree(all, end)
                }
            },
            Parsed::Fails(fault) => Parsed::Fails(fault),
            Parsed::Other => Parsed::Other,
        }
    }
}

/// An attribute group whose `#[` is at `pos`.
pub open spec fn attribute_group(tokens: Seq<Token>, pos: int, scope: Scope) -> Parsed<GroupShape>
    decreases tokens.len() - pos, 1nat,
{
    if !(0 <= pos && pos + 1 < tokens.len()) {
        Parsed::Other
    } else {
        match attribute_members(tokens, pos + 1, Seq::empty(), scope) {
            Parsed::Tree(members, end) => finish(
                tokens,
                end,
                |k: TokenKind| k is RightBracket,
                "`]`".spec_bytes(),
                GroupShape { start: pos, end, members },
            ),
            Parsed::Fails(fault) => Parsed::Fails(fault),
            Parsed::Other => Parsed::Other,
        }
    }
}

/// The attribute groups from `pos` on, after the groups `before`. Comments
/// after a group are passed over.
pub open spec fn attributes(
    tokens: Seq<Token>,
    pos: int,
    before: Seq<GroupShape>,
    scope: Scope,
) -> Parsed<Seq<GroupShape>>
    decreases tokens.len() - pos, 2nat,
{
    if !(0 <= pos < tokens.len()) {
        Parsed::Other
    } else if !(tokens[pos].kind is Attribute) {
        Parsed::Tree(before, pos)
    } else {
        match attribute_group(tokens, pos, scope) {
            Parsed::Tree(group, end) => if pos < end <= comments_end(tokens, end) < tokens.len() {
                attributes(tokens, comments_end(tokens, end), before.push(group), scope)
            } else {
                Parsed::Other
            },
            Parsed::Fails(fault) => Parsed::Fails(fault),
            Parsed::Other => Parsed::Other,
        }
    }
}

/// Whether the attribute is the one that the shape says.
pub open spec fn models_attribute(a: Attribute, shape: AttributeShape, tokens: Seq<Token>) -> bool
    decreases shape,
{
    &&& 0 <= shape.start <= shape.end < tokens.len()
    &&& a.start == tokens[shape.start].span
    &&& a.end == tokens[shape.end].span
    &&& models(a.expression, shape.expression, tokens)
}

/// Whether the attribute group is the one that the shape says.
pub open spec fn models_group(g: AttributeGroup, shape: GroupShape, tokens: Seq<Token>) -> bool
    decreases shape,
{
    &&& 0 <= shape.start <= shape.end < tokens.len()
    &&& g.start == tokens[shape.start].span
    &&& g.end == tokens[shape.end].span
    &&& g.members@.len() == shape.members.len()
    &&& forall|i: int|
        0 <= i < shape.members.len() ==> models_attribute(
            g.members@[i],
            #[trigger] shape.members[i],
            tokens,
        )
}

/// Whether each attribute group is the one that the shape at its place
/// says.
pub open spec fn models_groups(list: Seq<AttributeGroup>, shapes: Seq<GroupShape>, tokens: Seq<Token>) -> bool
    decreases shapes,
{
    &&& list.len() == shapes.len()
    &&& forall|i: int| 0 <= i < shapes.len() ==> models_group(list[i], #[trigger] shapes[i], tokens)
}

/// As `agrees`, for attribute groups.
pub open spec fn groups_agree(
    said: Parsed<Seq<GroupShape>>,
    tokens: Seq<Token>,
    r: Result<Vec<AttributeGroup>, ParseError>,
    position: int,
) -> bool {
    match said {
        Parsed::Tree(shapes, end) => r is Ok && models_groups(r->Ok_0@, shapes, tokens) && position
            == end,
        Parsed::Fails(fault) => r is Err && reports(r->Err_0, fault, tokens),
        Parsed::Other => false,
    }
}

/// Where something starts that `&` at `pos` may stand before.
pub open spec fn after_ampersand(tokens: Seq<Token>, pos: int) -> int {
    if 0 <= pos && pos + 1 < tokens.len() && tokens[pos].kind is Ampersand {
        pos + 1
    } else {
        pos
    }
}

/// Where something starts that `...` at `pos` may stand before.
pub open spec fn after_ellipsis(tokens: Seq<Token>, pos: int) -> int {
    if 0 <= pos && pos + 1 < tokens.len() && tokens[pos].kind is Ellipsis {
        pos + 1
    } else {
        pos
    }
}

/// The variable of a parameter at `pos` and its default value, for a
/// parameter of which the rest is given.
pub open spec fn parameter_name(tokens: Seq<Token>, pos: int, rest: ParamShape, scope: Scope) -> Parsed<
    ParamShape,
>
    decreases tokens.len() - pos, 0nat,
{
    if !(0 <= pos && pos + 1 < tokens.len()) || !(tokens[pos].kind is Variable) {
        if 0 <= pos < tokens.len() {
            Parsed::Fails(missing(pos, "a variable".spec_bytes()))
        } else {
            Parsed::Other
        }
    } else if tokens[pos + 1].kind is Equals {
        match grouping(tokens, pos + 2, Precedence::Lowest, scope) {
            Parsed::Tree(value, end) => Parsed::Tree(
                ParamShape { name: pos, default: Some(value), end, ..rest },
                end,
            ),
            Parsed::Fails(fault) => Parsed::Fails(fault),
            Parsed::Other => Parsed::Other,
        }
    } else {
        Parsed::Tree(ParamShape { name: pos, default: None, end: pos + 1, ..rest }, pos + 1)
    }
}

/// One parameter at `pos`: attributes, promotion modifiers, type, `&`,
/// `...`, the variable and a default value, in that order.
pub open spec fn parameter(tokens: Seq<Token>, pos: int, scope: Scope) -> Parsed<ParamShape>
    decreases tokens.len() - pos, 3nat,
{
    if !(0 <= pos < tokens.len()) {
        Parsed::Other
    } else {
        match attributes(tokens, pos, Seq::empty(), scope) {
            Parsed::Tree(groups, from) => {
                let to = modifiers_end(tokens, from, Some(Target::PromotedProperty));
                if first_violation(placed(tokens, from, to), Target::PromotedProperty, 0) is Some {
                    Parsed::Fails(Fault::Modifiers(from, to, Target::PromotedProperty))
                } else {
                    match optional_type(tokens, to) {
                        Parsed::Tree(ty, typed) => {
                            let referenced = after_ampersand(tokens, typed);
                            let spread = after_ellipsis(tokens, referenced);
                            if !(pos <= spread < tokens.len()) {
                                Parsed::Other
                            } else {
                                parameter_name(
                                    tokens,
                                    spread,
                                    ParamShape {
                                        start: pos,
                                        end: pos,
                                        attributes: groups,
                                        modifiers: (from, to),
                                        ty,
                                        by_ref: referenced != typed,
                                        variadic: spread != referenced,
                                        name: pos,
                                        default: None,
                                    },
                                    scope,
                                )
                            }
                        },
                        Parsed::Fails(fault) => Parsed::Fails(fault),
                        Parsed::Other => Parsed::Other,
                    }
                }
            },
            Parsed::Fails(fault) => Parsed::Fails(fault),
            Parsed::Other => Parsed::Other,
        }
    }
}

/// The parameters from `pos` on, after the parameters `before`, up to the
/// closing parenthesis, which is taken. Comments around a parameter are
/// passed over, and a comma may follow the last parameter.
pub open spec fn parameters(
    tokens: Seq<Token>,
    pos: int,
    before: Seq<ParamShape>,
    scope: Scope,
) -> Parsed<Seq<ParamShape>>
    decreases tokens.len() - pos, 4nat,
{
    let start = comments_end(tokens, pos);
    if !(0 <= pos <= start < tokens.len()) {
        Parsed::Other
    } else if tokens[start].kind is RightParen {
        finish(tokens, start, |k: TokenKind| k is RightParen, "`)`".spec_bytes(), before)
    } else {
        match parameter(tokens, start, scope) {
            Parsed::Tree(one, end) => {
                let next = comments_end(tokens, end);
                if !(start < end <= next < tokens.len()) {
                    Parsed::Other
                } else if tokens[next].kind is Comma && next + 1 < tokens.len() {
                    parameters(tokens, next + 1, before.push(one), scope)
                } else {
                    finish(
                        tokens,
                        next,
                        |k: TokenKind| k is RightParen,
                        "`)`".spec_bytes(),
                        before.push(one),
                    )
                }
            },
            Parsed::Fails(fault) => Parsed::Fails(fault),
            Parsed::Other => Parsed::Other,
        }
    }

}

/// A parameter list with its parentheses.
pub open spec fn parameter_list(tokens: Seq<Token>, pos: int, scope: Scope) -> Parsed<Seq<ParamShape>>
    decreases tokens.len() - pos, 0nat,
{
    if !(0 <= pos && pos + 1 < tokens.len()) || !(tokens[pos].kind is LeftParen) {
        if 0 <= pos < tokens.len() {
            Parsed::Fails(missing(pos, "`(`".spec_bytes()))
        } else {
            Parsed::Other
        }
    } else {
        parameters(tokens, pos + 1, Seq::empty(), scope)
    }
}

/// Whether the parameter is the one that the shape says.
pub open spec fn models_param(p: Param, shape: ParamShape, tokens: Seq<Token>) -> bool
    decreases shape,
{
    &&& 0 <= shape.start <= shape.end < tokens.len()
    &&& p.start == tokens[shape.start].span
    &&& p.end == tokens[shape.end].span
    &&& models_groups(p.attributes@, shape.attributes, tokens)
    &&& p.modifiers@ == Seq::new(
        (shape.modifiers.1 - shape.modifiers.0) as nat,
        |i: int|
            promoted_modifier_of(
                placed(tokens, shape.modifiers.0, shape.modifiers.1)[i].modifier,
            ),
    )
    &&& models_optional_type(p.ty, shape.ty, tokens)
    &&& p.by_ref == shape.by_ref
    &&& p.variadic == shape.variadic
    &&& variable_at(p.name, tokens, shape.name)
    &&& models_optional(p.default, shape.default, tokens)
}

/// Whether each parameter is the one that the shape at its place says.
pub open spec fn models_params(list: Seq<Param>, shapes: Seq<ParamShape>, tokens: Seq<Token>) -> bool
    decreases shapes,
{
    &&& list.len() == shapes.len()
    &&& forall|i: int| 0 <= i < shapes.len() ==> models_param(list[i], #[trigger] shapes[i], tokens)
}

/// As `agrees`, for a parameter list.
pub open spec fn params_agree(
    said: Parsed<Seq<ParamShape>>,
    tokens: Seq<Token>,
    r: Result<Vec<Param>, ParseError>,
    position: int,
) -> bool {
    match said {
        Parsed::Tree(shapes, end) => r is Ok && models_params(r->Ok_0@, shapes, tokens) && position
            == end,
        Parsed::Fails(fault) => r is Err && reports(r->Err_0, fault, tokens),
        Parsed::Other => false,
    }
}

} // verus!
