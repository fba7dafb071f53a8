use crate::lexer::token::Token;
use crate::lexer::token::TokenKind;
use crate::parser::ast::classes::AnonymousClass;
use crate::parser::ast::functions::ArrowFunction;
use crate::parser::ast::functions::Closure;
use crate::parser::ast::functions::ClosureUse;
use crate::parser::error::ParseError;
use crate::parser::internal::classes::enclosed;
use crate::parser::internal::classes::extends;
use crate::parser::internal::classes::inner_scope;
use crate::parser::internal::classes::models_class_member;
use crate::parser::internal::classes::models_names;
use crate::parser::internal::classes::names_after;
use crate::parser::internal::classes::Classish;
use crate::parser::internal::classes::MemberShape;
use crate::parser::internal::declarations::after_ampersand;
use crate::parser::internal::declarations::attributes;
use crate::parser::internal::declarations::models_groups;
use crate::parser::internal::declarations::models_optional_type;
use crate::parser::internal::declarations::models_params;
use crate::parser::internal::declarations::parameter_list;
use crate::parser::internal::declarations::return_type;
use crate::parser::internal::declarations::GroupShape;
use crate::parser::internal::declarations::ParamShape;
use crate::parser::internal::declarations::TypeShape;
use crate::parser::internal::grouping::arguments;
use crate::parser::internal::grouping::finish;
use crate::parser::internal::grouping::grouping;
use crate::parser::internal::grouping::missing;
use crate::parser::internal::grouping::models;
use crate::parser::internal::grouping::named_at;
use crate::parser::internal::grouping::reports;
use crate::parser::internal::grouping::Fault;
use crate::parser::internal::grouping::Grouping;
use crate::parser::internal::grouping::Parsed;
use crate::parser::internal::grouping::Scope;
use crate::parser::internal::grouping::Shape;
use crate::parser::internal::precedences::Precedence;
use crate::parser::internal::program::models_block;
use crate::parser::internal::program::variable_at;
use crate::parser::internal::program::StatementShape;
use crate::parser::internal::structures::braced;
use vstd::prelude::*;
use vstd::string::StringSliceAdditionalSpecFns;

verus! {

/// A variable that a closure captures: its token, and whether `&` stands
/// before it.
pub struct CaptureShape {
    pub var: int,
    pub by_ref: bool,
}

/// An anonymous function: the tokens at which it starts and ends, its
/// attributes, `static`, `&`, its parameters, what it captures, its return
/// type and its body.
pub struct ClosureShape {
    pub start: int,
    pub end: int,
    pub attributes: Seq<GroupShape>,
    pub is_static: bool,
    pub by_ref: bool,
    pub params: Seq<ParamShape>,
    pub uses: Seq<CaptureShape>,
    pub return_type: Option<TypeShape>,
    pub body: Seq<StatementShape>,
}

/// An arrow function: the token at which it starts, the token after its
/// end, its attributes, `static`, `&`, its parameters, its return type and
/// the expression that is its body.
pub struct ArrowShape {
    pub start: int,
    pub end: int,
    pub attributes: Seq<GroupShape>,
    pub is_static: bool,
    pub by_ref: bool,
    pub params: Seq<ParamShape>,
    pub return_type: Option<TypeShape>,
    pub body: Shape,
}

/// A class without a name: the tokens at which it starts and ends, its
/// attributes, what it extends and implements, and its members.
pub struct AnonymousClassShape {
    pub start: int,
    pub end: int,
    pub attributes: Seq<GroupShape>,
    pub extends: Seq<int>,
    pub implements: Seq<int>,
    pub members: Seq<MemberShape>,
}

/// The variables that a closure captures from `pos` on, after the
/// variables `before`, up to `)`, which is taken. A comma may follow the
/// last variable.
pub open spec fn captures(tokens: Seq<Token>, pos: int, before: Seq<CaptureShape>) -> Parsed<
    Seq<CaptureShape>,
>
    decreases tokens.len() - pos,
{
    if !(0 <= pos && pos + 1 < tokens.len()) {
        if 0 <= pos < tokens.len() {
            Parsed::Fails(missing(pos, "a variable".spec_bytes()))
        } else {
            Parsed::Other
        }
    } else if tokens[pos].kind is RightParen {
        Parsed::Tree(before, pos + 1)
    } else {
        let by_ref = tokens[pos].kind is Ampersand;
        let var = if by_ref {
            pos + 1
        } else {
            pos
        };
        if !(tokens[var].kind is Variable) {
            Parsed::Fails(missing(var, "a variable".spec_bytes()))
        } else if !(var + 2 < tokens.len()) {
            Parsed::Fails(missing(var + 1, "`)`".spec_bytes()))
        } else if tokens[var + 1].kind is Comma {
            captures(tokens, var + 2, before.push(CaptureShape { var, by_ref }))
        } else {
            finish(
                tokens,
                var + 1,
                |k: TokenKind| k is RightParen,
                "`)`".spec_bytes(),
                before.push(CaptureShape { var, by_ref }),
            )
        }
    }
}

/// What a closure captures, `use` being at `pos`: the variables between
/// parentheses. Nothing where `use` is not there.
pub open spec fn captured(tokens: Seq<Token>, pos: int) -> Parsed<Seq<CaptureShape>> {
    if !(0 <= pos < tokens.len()) {
        Parsed::Other
    } else if !(tokens[pos].kind is Use) {
        Parsed::Tree(Seq::empty(), pos)
    } else if !(pos + 1 < tokens.len() && tokens[pos + 1].kind is LeftParen) {
        Parsed::Fails(missing(pos + 1, "`(`".spec_bytes()))
    } else {
        captures(tokens, pos + 2, Seq::empty())
    }
}

/// An anonymous function at `pos`, with the attributes `groups` before it:
/// `static` or not, `function`, `&` or not, the parameters, what it
/// captures, its return type and its body.
pub open spec fn closure(tokens: Seq<Token>, pos: int, groups: Seq<GroupShape>, scope: Scope) -> Grouping
    decreases tokens.len() - pos, 1nat,
{
    if !(0 <= pos < tokens.len()) {
        Parsed::Other
    } else {
        let is_static = tokens[pos].kind is Static;
        let at = if is_static {
            pos + 1
        } else {
            pos
        };
        if !(at < tokens.len() && tokens[at].kind is Function) {
            Parsed::Fails(missing(at, "`function`".spec_bytes()))
        } else {
            let opened = after_ampersand(tokens, at + 1);
            match parameter_list(tokens, opened, scope) {
                Parsed::Tree(params, next) => match captured(tokens, next) {
                    Parsed::Tree(uses, typed) => match return_type(tokens, typed) {
                        Parsed::Tree(result, opens) => if at < opens < tokens.len() {
                            match braced(tokens, opens, scope) {
                                Parsed::Tree(body, end) => Parsed::Tree(
                                    Shape::Closure(
                                        ClosureShape {
                                            start: pos,
                                            end: end - 1,
                                            attributes: groups,
                                            is_static,
                                            by_ref: opened != at + 1,
                                            params,
                                            uses,
                                            return_type: result,
                                            body,
                                        },
                                    ),
                                    end,
                                ),
                                Parsed::Fails(fault) => Parsed::Fails(fault),
                                Parsed::Other => Parsed::Other,
                            }
                        } else {
                            Parsed::Other
                        },
                        Parsed::Fails(fault) => Parsed::Fails(fault),
                        Parsed::Other => Parsed::Other,
                    },
                    Parsed::Fails(fault) => Parsed::Fails(fault),
                    Parsed::Other => Parsed::Other,
                },
                Parsed::Fails(fault) => Parsed::Fails(fault),
                Parsed::Other => Parsed::Other,
            }
        }
    }
}

/// An arrow function at `pos`, with the attributes `groups` before it:
/// `static` or not, `fn`, `&` or not, the parameters, its return type, `=>`
/// and the expression that is its body.
pub open spec fn arrow(tokens: Seq<Token>, pos: int, groups: Seq<GroupShape>, scope: Scope) -> Grouping
    decreases tokens.len() - pos, 1nat,
{
    if !(0 <= pos < tokens.len()) {
        Parsed::Other
    } else {
        let is_static = tokens[pos].kind is Static;
        let at = if is_static {
            pos + 1
        } else {
            pos
        };
        if !(at < tokens.len() && tokens[at].kind is Fn) {
            Parsed::Fails(missing(at, "`fn`".spec_bytes()))
        } else {
            let opened = after_ampersand(tokens, at + 1);
            match parameter_list(tokens, opened, scope) {
                Parsed::Tree(params, typed) => match return_type(tokens, typed) {
                    Parsed::Tree(result, then) => if !(at < then && then + 1 < tokens.len()) {
                        if at < then < tokens.len() {
                            Parsed::Fails(missing(then, "`=>`".spec_bytes()))
                        } else {
                            Parsed::Other
                        }
                    } else if !(tokens[then].kind is DoubleArrow) {
                        Parsed::Fails(missing(then, "`=>`".spec_bytes()))
                    } else {
                        match grouping(tokens, then + 1, Precedence::Lowest, scope) {
                            Parsed::Tree(body, end) => Parsed::Tree(
                                Shape::Arrow(
                                    Box::new(
                                        ArrowShape {
                                            start: pos,
                                            end,
                                            attributes: groups,
                                            is_static,
                                            by_ref: opened != at + 1,
                                            params,
                                            return_type: result,
                                            body,
                                        },
                                    ),
                                ),
                                end,
                            ),
                            Parsed::Fails(fault) => Parsed::Fails(fault),
                            Parsed::Other => Parsed::Other,
                        }
                    },
                    Parsed::Fails(fault) => Parsed::Fails(fault),
                    Parsed::Other => Parsed::Other,
                },
                Parsed::Fails(fault) => Parsed::Fails(fault),
                Parsed::Other => Parsed::Other,
            }
        }
    }
}

/// Whether an anonymous function begins at `at`: `function`, or `static`
/// before it.
pub open spec fn begins_closure(tokens: Seq<Token>, at: int) -> bool {
    tokens[at].kind is Function || (tokens[at].kind is Static && tokens[at + 1].kind is Function)
}

/// Whether an arrow function begins at `at`: `fn`, or `static` before it.
pub open spec fn begins_arrow(tokens: Seq<Token>, at: int) -> bool {
    tokens[at].kind is Fn || (tokens[at].kind is Static && tokens[at + 1].kind is Fn)
}

/// What stands at `at` after the attributes `groups` in an expression: an
/// anonymous function or an arrow function. Anything else is a fault.
pub open spec fn after_attributes(
    tokens: Seq<Token>,
    at: int,
    groups: Seq<GroupShape>,
    scope: Scope,
) -> Grouping
    decreases tokens.len() - at, 2nat,
{
    if !(0 <= at && at + 1 < tokens.len()) {
        if 0 <= at < tokens.len() {
            Parsed::Fails(Fault::NoItem(at))
        } else {
            Parsed::Other
        }
    } else if begins_closure(tokens, at) {
        closure(tokens, at, groups, scope)
    } else if begins_arrow(tokens, at) {
        arrow(tokens, at, groups, scope)
    } else {
        Parsed::Fails(Fault::NoItem(at))
    }
}

/// Attributes at `pos` in an expression, and the anonymous function or
/// arrow function that they belong to.
pub open spec fn attributed(tokens: Seq<Token>, pos: int, scope: Scope) -> Grouping
    decreases tokens.len() - pos, 3nat,
{
    if !(0 <= pos < tokens.len()) {
        Parsed::Other
    } else {
        match attributes(tokens, pos, Seq::empty(), scope) {
            Parsed::Tree(groups, at) => if pos <= at < tokens.len() {
                after_attributes(tokens, at, groups, scope)
            } else {
                Parsed::Other
            },
            Parsed::Fails(fault) => Parsed::Fails(fault),
            Parsed::Other => Parsed::Other,
        }
    }
}

/// `new class` at `pos`: attributes, `class`, the arguments, what the class
/// extends and implements, and its body.
pub open spec fn anonymous_class(tokens: Seq<Token>, pos: int, scope: Scope) -> Grouping
    decreases tokens.len() - pos, 0nat,
{
    if !(0 <= pos && pos + 1 < tokens.len()) {
        Parsed::Other
    } else {
        match attributes(tokens, pos + 1, Seq::empty(), scope) {
            Parsed::Tree(groups, at) => if !(pos < at && at + 1 < tokens.len()) {
                if pos < at < tokens.len() {
                    Parsed::Fails(missing(at, "`class`".spec_bytes()))
                } else {
                    Parsed::Other
                }
            } else if !(tokens[at].kind is Class) {
                Parsed::Fails(missing(at, "`class`".spec_bytes()))
            } else {
                let given = if tokens[at + 1].kind is LeftParen {
                    arguments(tokens, at + 1, scope)
                } else {
                    Parsed::Tree(Seq::empty(), at + 1)
                };
                match given {
                    Parsed::Tree(args, next) => if !(at < next < tokens.len()) {
                        Parsed::Other
                    } else {
                        match extends(tokens, next) {
                            Parsed::Tree(parent, after) => if !(at < after < tokens.len()) {
                                Parsed::Other
                            } else {
                                match names_after(tokens, after, tokens[after].kind is Implements) {
                                    Parsed::Tree(interfaces, opened) => if !(at < opened
                                        < tokens.len()) {
                                        Parsed::Other
                                    } else {
                                        match enclosed(
                                            tokens,
                                            opened,
                                            Classish::Class,
                                            inner_scope(Classish::Class, parent),
                                        ) {
                                            Parsed::Tree(members, end) => Parsed::Tree(
                                                Shape::New(
                                                    Box::new(
                                                        Shape::AnonymousClass(
                                                            AnonymousClassShape {
                                                                start: at,
                                                                end: end - 1,
                                                                attributes: groups,
                                                                extends: parent,
                                                                implements: interfaces,
                                                                members,
                                                            },
                                                        ),
                                                    ),
                                                    args,
                                                ),
                                                end,
                                            ),
                                            Parsed::Fails(fault) => Parsed::Fails(fault),
                                            Parsed::Other => Parsed::Other,
                                        }
                                    },
                                    Parsed::Fails(fault) => Parsed::Fails(fault),
                                    Parsed::Other => Parsed::Other,
                                }
                            },
                            Parsed::Fails(fault) => Parsed::Fails(fault),
                            Parsed::Other => Parsed::Other,
                        }
                    },
                    Parsed::Fails(fault) => Parsed::Fails(fault),
                    Parsed::Other => Parsed::Other,
                }
            },
            Parsed::Fails(fault) => Parsed::Fails(fault),
            Parsed::Other => Parsed::Other,
        }
    }
}

/// Whether the captured variables are those that the shapes say.
pub open spec fn models_captures(list: Seq<ClosureUse>, shapes: Seq<CaptureShape>, tokens: Seq<Token>) -> bool
    decreases shapes,
{
    &&& list.len() == shapes.len()
    &&& forall|i: int|
        0 <= i < shapes.len() ==> variable_at(list[i].var, tokens, (#[trigger] shapes[i]).var)
            && list[i].by_ref == shapes[i].by_ref
}

/// Whether the anonymous function is the one that the shape says.
pub open spec fn models_closure(c: Closure, shape: ClosureShape, tokens: Seq<Token>) -> bool
    decreases shape,
{
    &&& 0 <= shape.start <= shape.end < tokens.len()
    &&& c.start == tokens[shape.start].span
    &&& c.end == tokens[shape.end].span
    &&& models_groups(c.attributes@, shape.attributes, tokens)
    &&& c.is_static == shape.is_static
    &&& c.by_ref == shape.by_ref
    &&& models_params(c.params@, shape.params, tokens)
    &&& models_captures(c.uses@, shape.uses, tokens)
    &&& models_optional_type(c.return_type, shape.return_type, tokens)
    &&& models_block(c.body@, shape.body, tokens)
}

/// Whether the arrow function is the one that the shape says.
pub open spec fn models_arrow(a: ArrowFunction, shape: ArrowShape, tokens: Seq<Token>) -> bool
    decreases shape,
{
    &&& 0 <= shape.start <= shape.end < tokens.len()
    &&& a.start == tokens[shape.start].span
    &&& a.end == tokens[shape.end].span
    &&& models_groups(a.attributes@, shape.attributes, tokens)
    &&& a.is_static == shape.is_static
    &&& a.by_ref == shape.by_ref
    &&& models_params(a.params@, shape.params, tokens)
    &&& models_optional_type(a.return_type, shape.return_type, tokens)
    &&& models(*a.expr, shape.body, tokens)
}

/// Whether the class without a name is the one that the shape says.
pub open spec fn models_anonymous_class(
    c: AnonymousClass,
    shape: AnonymousClassShape,
    tokens: Seq<Token>,
) -> bool
    decreases shape,
{
    &&& 0 <= shape.start <= shape.end < tokens.len()
    &&& c.start == tokens[shape.start].span
    &&& c.end == tokens[shape.end].span
    &&& models_groups(c.attributes@, shape.attributes, tokens)
    &&& match c.extends {
        Some(parent) => shape.extends.len() == 1 && named_at(parent, tokens, shape.extends[0]),
        None => shape.extends.len() == 0,
    }
    &&& models_names(c.implements@, shape.implements, tokens)
    &&& c.members@.len() == shape.members.len()
    &&& forall|i: int|
        0 <= i < shape.members.len() ==> models_class_member(
            c.members@[i],
            #[trigger] shape.members[i],
            tokens,
        )
}

/// As `agrees`, for the variables that a closure captures.
pub open spec fn captures_agree(
    said: Parsed<Seq<CaptureShape>>,
    tokens: Seq<Token>,
    r: Result<Vec<ClosureUse>, ParseError>,
    position: int,
) -> bool {
    match said {
        Parsed::Tree(shapes, end) => r is Ok && models_captures(r->Ok_0@, shapes, tokens)
            && position == end,
        Parsed::Fails(fault) => r is Err && reports(r->Err_0, fault, tokens),
        Parsed::Other => false,
    }
}

} // verus!
