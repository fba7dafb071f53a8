use crate::lexer::token::DocStringKind;
use crate::lexer::token::Token;
use crate::lexer::token::TokenKind;
use crate::parser::ast::identifiers::Identifier;
use crate::parser::ast::Arg;
use crate::parser::ast::ArrayItem;
use crate::parser::ast::Expression;
use crate::parser::ast::IncludeKind;
use crate::parser::ast::InfixOp;
use crate::parser::ast::MagicConst;
use crate::parser::ast::MatchArm;
use crate::parser::ast::StringPart;
use crate::parser::error::ParseError;
use crate::parser::internal::closures::anonymous_class;
use crate::parser::internal::closures::arrow;
use crate::parser::internal::closures::attributed;
use crate::parser::internal::closures::begins_arrow;
use crate::parser::internal::closures::begins_closure;
use crate::parser::internal::closures::closure;
use crate::parser::internal::closures::models_anonymous_class;
use crate::parser::internal::closures::models_arrow;
use crate::parser::internal::closures::models_closure;
use crate::parser::internal::closures::AnonymousClassShape;
use crate::parser::internal::closures::ArrowShape;
use crate::parser::internal::closures::ClosureShape;
use crate::parser::internal::identifiers::is_reserved_ident_spec;
use crate::parser::internal::modifiers::first_violation;
use crate::parser::internal::modifiers::placed;
use crate::parser::internal::modifiers::tells;
use crate::parser::internal::modifiers::Target;
use crate::parser::internal::operators::cast_kind;
use crate::parser::internal::operators::infix_op;
use crate::parser::internal::operators::is_prefix_spec;
use crate::parser::internal::precedences::infix_class;
use crate::parser::internal::precedences::postfix_class;
use crate::parser::internal::precedences::prefix_class;
use crate::parser::internal::precedences::Associativity;
use crate::parser::internal::precedences::Precedence;
use crate::parser::internal::strings::dedented;
use crate::parser::internal::strings::dedented_lines;
use crate::parser::state::comments_end;
use vstd::prelude::*;
use vstd::string::StringSliceAdditionalSpecFns;

verus! {

/// Which of `self`, `static` and `parent` mean something where an
/// expression stands.
pub struct Scope {
    pub class: bool,
    pub parent: bool,
}

/// Why tokens are no expression. Tokens are given by their index.
pub enum Fault {
    /// The token fits no alternative.
    Unexpected(int),
    /// One of the listed things was required where the token stands.
    Expected(int, Seq<Seq<u8>>),
    /// The input ended where an expression had to begin.
    EndOfFile,
    /// `self`, `static` or `parent` outside its scope.
    OutOfScope(int),
    /// A second `default` arm.
    SecondDefault(int),
    /// Attributes before something that takes none.
    NoItem(int),
    /// Something is wrong with the modifiers from the first index up to the
    /// second, which stand before the target.
    Modifiers(int, int, Target),
    /// The property whose variable is at the index is `readonly` and
    /// `static`.
    StaticReadonly(int),
    /// The property whose variable is at the index is `readonly` and has no
    /// type.
    UntypedReadonly(int),
    /// The property whose variable is at the index is `readonly` and has a
    /// default value.
    DefaultedReadonly(int),
}

/// Whether the error `e` reports the fault.
pub open spec fn reports(e: ParseError, fault: Fault, tokens: Seq<Token>) -> bool {
    match fault {
        Fault::Unexpected(at) => 0 <= at < tokens.len() && e.is_unexpected(tokens[at]),
        Fault::Expected(at, messages) => 0 <= at < tokens.len() && e.is_expected(
            messages,
            tokens[at],
        ),
        Fault::EndOfFile => e is UnexpectedEndOfFile,
        Fault::OutOfScope(at) => 0 <= at < tokens.len() && match e {
            ParseError::CannotFindTypeInCurrentScope(text, span) => text@
                == tokens[at].kind.text_spec() && span == tokens[at].span,
            _ => false,
        },
        Fault::SecondDefault(at) => 0 <= at < tokens.len() && e
            == ParseError::MatchExpressionWithMultipleDefaultArms(tokens[at].span),
        Fault::NoItem(at) => 0 <= at < tokens.len() && e
            == ParseError::ExpectedItemDefinitionAfterAttributes(tokens[at].span),
        Fault::StaticReadonly(at) => 0 <= at < tokens.len() && tokens[at].kind is Variable
            && match e {
            ParseError::StaticPropertyUsingReadonlyModifier(name, span) => name@
                == tokens[at].kind->Variable_0@ && span == tokens[at].span,
            _ => false,
        },
        Fault::UntypedReadonly(at) => 0 <= at < tokens.len() && tokens[at].kind is Variable
            && match e {
            ParseError::MissingTypeForReadonlyProperty(name, span) => name@
                == tokens[at].kind->Variable_0@ && span == tokens[at].span,
            _ => false,
        },
        Fault::DefaultedReadonly(at) => 0 <= at < tokens.len() && tokens[at].kind is Variable
            && match e {
            ParseError::ReadonlyPropertyHasDefaultValue(name, span) => name@
                == tokens[at].kind->Variable_0@ && span == tokens[at].span,
            _ => false,
        },
        Fault::Modifiers(from, to, target) => match first_violation(
            placed(tokens, from, to),
            target,
            0,
        ) {
            Some(v) => tells(e, v, placed(tokens, from, to)),
            None => false,
        },
    }
}

/// The fault of a required token that is not there.
pub open spec fn missing(at: int, message: Seq<u8>) -> Fault {
    Fault::Expected(at, seq![message])
}

/// How the tokens of an expression group. Operands and operators are given
/// by the index of their token.
pub enum Shape {
    /// A literal, a variable, a name or a constant: one token.
    Atom(int),
    /// The token taken as a name, whatever it is: `class`, or a reserved
    /// word where a name is expected.
    Named(int),
    /// `self`, `static` or `parent`.
    Root(int),
    /// An expression between parentheses or braces, which leave no node.
    Group(Box<Shape>),
    /// A prefix operator and its operand.
    Prefix(int, Box<Shape>),
    /// An operand and `++` or `--` after it.
    Suffix(Box<Shape>, int),
    /// A binary operator between its operands.
    Binary(Box<Shape>, int, Box<Shape>),
    /// `??` between its operands.
    Coalesce(Box<Shape>, Box<Shape>),
    /// A condition, the middle operand where `?` has one, and the last
    /// operand.
    Ternary(Box<Shape>, Option<Box<Shape>>, Box<Shape>),
    /// A call and its arguments.
    Call(Box<Shape>, Seq<ArgShape>),
    /// An index in brackets, or empty brackets.
    Index(Box<Shape>, Option<Box<Shape>>),
    /// `->` or `?->` (the flag) and a property.
    Property(Box<Shape>, bool, Box<Shape>),
    /// `->` or `?->` (the flag), a method and its arguments.
    Method(Box<Shape>, bool, Box<Shape>, Seq<ArgShape>),
    /// `::` and the name of a constant.
    Constant(Box<Shape>, int),
    /// `::` and a static property.
    StaticProperty(Box<Shape>, Box<Shape>),
    /// `::`, a method and its arguments.
    StaticMethod(Box<Shape>, Box<Shape>, Seq<ArgShape>),
    /// `$` before what names the variable.
    Dynamic(Box<Shape>),
    /// `throw` and its value.
    Throw(Box<Shape>),
    /// `clone` and its target.
    Clone(Box<Shape>),
    /// `new`, its target and its arguments.
    New(Box<Shape>, Seq<ArgShape>),
    /// An inclusion keyword and its path.
    Include(int, Box<Shape>),
    /// `yield` with its key and value, as far as written.
    Yield(Option<Box<Shape>>, Option<Box<Shape>>),
    /// `yield from` and its operand.
    YieldFrom(Box<Shape>),
    /// An array literal.
    Array(Seq<ItemShape>),
    /// `list(...)`, where an item may be left out.
    List(Seq<Option<ItemShape>>),
    /// A `match`: its condition, its arms and its default arm.
    Match(Box<Shape>, Seq<ArmShape>, Option<Box<Shape>>),
    /// A name between `${` and `}` or `[`, taken as a variable.
    Braced(int),
    /// A name in the brackets after a variable in a string, taken as a
    /// string.
    Key(int),
    /// The parts of a double-quoted string.
    Interpolated(Seq<PartShape>),
    /// The parts of a shell command.
    ShellExec(Seq<PartShape>),
    /// The parts of a heredoc and the token of its closing label.
    Heredoc(Seq<PartShape>, int),
    /// The tokens of the body and of the closing label of a nowdoc.
    Nowdoc(int, int),
    /// An anonymous function.
    Closure(ClosureShape),
    /// An arrow function.
    Arrow(Box<ArrowShape>),
    /// A class without a name, the target of a `new`.
    AnonymousClass(AnonymousClassShape),
}

/// One part of a string with interpolation.
pub enum PartShape {
    /// The token of literal bytes, which are not empty.
    Literal(int),
    /// An embedded expression.
    Embedded(Shape),
}

/// One argument of a call: the token of its name, `...`, and its value.
pub struct ArgShape {
    pub name: Option<int>,
    pub unpack: bool,
    pub value: Shape,
}

/// One item of an array literal.
pub struct ItemShape {
    pub key: Option<Shape>,
    pub value: Shape,
    pub unpack: bool,
    pub by_ref: bool,
}

/// One arm of a `match` that is not the default.
pub struct ArmShape {
    pub conditions: Seq<Shape>,
    pub body: Shape,
}

/// What the grammar says of something that starts at some token.
pub enum Parsed<T> {
    /// It groups as the value says and ends before the token at the index.
    Tree(T, int),
    /// It is refused for the reason given.
    Fails(Fault),
    /// Nothing is said: the position lies outside the tokens, or the
    /// tokens run out where the form needs more of them. No result agrees
    /// with this, so that a recognizer whose contract holds shows with it
    /// that the grammar says something of its input.
    Other,
}

pub type Grouping = Parsed<Shape>;

/// Whether the token is an operand by itself.
pub open spec fn is_atom(kind: TokenKind) -> bool {
    kind is Variable || kind is LiteralInteger || kind is LiteralFloat || kind is LiteralString
        || kind is True || kind is False || kind is Null || kind is DirConstant
        || kind is Identifier || kind is QualifiedIdentifier || kind is FullyQualifiedIdentifier
}

/// The value of a result, where it has one.
pub open spec fn tree_of<T>(g: Parsed<T>) -> T {
    g->Tree_0
}

/// A result that needs the token `kind` at the end of `inner`.
pub open spec fn closed(
    tokens: Seq<Token>,
    inner: Grouping,
    closes: spec_fn(TokenKind) -> bool,
    message: Seq<u8>,
    shape: Shape,
) -> Grouping {
    match inner {
        Parsed::Tree(_, end) => if 0 <= end && end + 1 < tokens.len() && closes(tokens[end].kind) {
            Parsed::Tree(shape, end + 1)
        } else {
            Parsed::Fails(missing(end, message))
        },
        Parsed::Fails(fault) => Parsed::Fails(fault),
        Parsed::Other => Parsed::Other,
    }
}

/// The result `inner` with another shape around it.
pub open spec fn wrapped(inner: Grouping, shape: Shape) -> Grouping {
    match inner {
        Parsed::Tree(_, end) => Parsed::Tree(shape, end),
        Parsed::Fails(fault) => Parsed::Fails(fault),
        Parsed::Other => Parsed::Other,
    }
}

/// What follows `$`: a braced expression, another `$`, or a variable.
#[verifier::opaque]
pub open spec fn dynamic(tokens: Seq<Token>, pos: int, scope: Scope) -> Grouping
    decreases tokens.len() - pos, 1nat,
{
    if !(0 <= pos && pos + 2 < tokens.len()) {
        if 0 <= pos && pos + 2 == tokens.len() {
            Parsed::Fails(
                Fault::Expected(
                    pos + 1,
                    seq!["a variable".spec_bytes(), "`{`".spec_bytes(), "`$`".spec_bytes()],
                ),
            )
        } else {
            Parsed::Other
        }
    } else {
        let kind = tokens[pos + 1].kind;
        if kind is LeftBrace {
            let inner = grouping(tokens, pos + 2, Precedence::Lowest, scope);
            closed(
                tokens,
                inner,
                |k: TokenKind| k is RightBrace,
                "`}`".spec_bytes(),
                Shape::Dynamic(Box::new(tree_of(inner))),
            )
        } else if kind is Dollar {
            let inner = dynamic(tokens, pos + 1, scope);
            wrapped(inner, Shape::Dynamic(Box::new(tree_of(inner))))
        } else if kind is Variable {
            Parsed::Tree(Shape::Dynamic(Box::new(Shape::Atom(pos + 1))), pos + 2)
        } else {
            Parsed::Fails(
                Fault::Expected(
                    pos + 1,
                    seq!["a variable".spec_bytes(), "`{`".spec_bytes(), "`$`".spec_bytes()],
                ),
            )
        }
    }
}

/// A list that needs its closing token at `pos`.
pub open spec fn finish<T>(
    tokens: Seq<Token>,
    pos: int,
    closes: spec_fn(TokenKind) -> bool,
    message: Seq<u8>,
    value: T,
) -> Parsed<T> {
    if 0 <= pos && pos + 1 < tokens.len() && closes(tokens[pos].kind) {
        Parsed::Tree(value, pos + 1)
    } else if 0 <= pos < tokens.len() {
        Parsed::Fails(missing(pos, message))
    } else {
        Parsed::Other
    }
}

/// Whether the token at `pos` is the name of a named argument.
pub open spec fn names_argument(tokens: Seq<Token>, pos: int) -> bool {
    0 <= pos && pos + 2 < tokens.len() && tokens[pos].kind is Identifier && tokens[pos + 1].kind
        is Colon
}

/// Where the argument at `pos` goes on after its name, if it has one.
pub open spec fn argument_name_end(tokens: Seq<Token>, pos: int) -> int {
    if names_argument(tokens, pos) {
        pos + 2
    } else {
        pos
    }
}

/// Whether the argument at `pos` is unpacked with `...`.
pub open spec fn unpacks_argument(tokens: Seq<Token>, pos: int) -> bool {
    let at = argument_name_end(tokens, pos);
    0 <= at && at + 1 < tokens.len() && tokens[at].kind is Ellipsis
}

/// Where the value of the argument at `pos` starts: after its name and
/// after `...`.
pub open spec fn argument_value_start(tokens: Seq<Token>, pos: int) -> int {
    if unpacks_argument(tokens, pos) {
        argument_name_end(tokens, pos) + 1
    } else {
        argument_name_end(tokens, pos)
    }
}

/// The argument at `pos` with the value `value`.
pub open spec fn argument(tokens: Seq<Token>, pos: int, value: Shape) -> ArgShape {
    ArgShape {
        name: if names_argument(tokens, pos) {
            Some(pos)
        } else {
            None
        },
        unpack: unpacks_argument(tokens, pos),
        value,
    }
}

/// The arguments of a call from `pos` on, after the arguments `before`, up
/// to the closing parenthesis, which is taken. A comma may follow the last
/// argument.
#[verifier::opaque]
pub open spec fn arguments_from(
    tokens: Seq<Token>,
    pos: int,
    before: Seq<ArgShape>,
    scope: Scope,
) -> Parsed<Seq<ArgShape>>
    decreases tokens.len() - pos, 7nat,
{
    let start = comments_end(tokens, pos);
    if !(0 <= pos <= start < tokens.len()) {
        Parsed::Other
    } else if tokens[start].kind is RightParen {
        finish(tokens, start, |k: TokenKind| k is RightParen, "`)`".spec_bytes(), before)
    } else {
        match grouping(tokens, argument_value_start(tokens, start), Precedence::Lowest, scope) {
            Parsed::Tree(value, end) => {
                let all = before.push(argument(tokens, start, value));
                if !(pos < end < tokens.len()) {
                    Parsed::Other
                } else if tokens[end].kind is Comma && end + 1 < tokens.len() {
                    arguments_from(tokens, end + 1, all, scope)
                } else {
                    finish(tokens, end, |k: TokenKind| k is RightParen, "`)`".spec_bytes(), all)
                }
            },
            Parsed::Fails(fault) => Parsed::Fails(fault),
            Parsed::Other => Parsed::Other,
        }
    }
}

/// An argument list with its parentheses.
#[verifier::opaque]
pub open spec fn arguments(tokens: Seq<Token>, pos: int, scope: Scope) -> Parsed<Seq<ArgShape>>
    decreases tokens.len() - pos, 1nat,
{
    if !(0 <= pos < tokens.len()) {
        Parsed::Other
    } else if !(tokens[pos].kind is LeftParen) {
        Parsed::Fails(missing(pos, "`(`".spec_bytes()))
    } else {
        arguments_from(tokens, pos + 1, Seq::empty(), scope)
    }
}

/// What `::` at `pos` and the member after it make of `left`.
#[verifier::opaque]
pub open spec fn static_shape(tokens: Seq<Token>, pos: int, left: Shape, scope: Scope) -> Grouping
    decreases tokens.len() - pos, 1nat,
{
    if !(0 <= pos < tokens.len()) {
        Parsed::Other
    } else if !(tokens[pos].kind is DoubleColon) {
        Parsed::Fails(missing(pos, "`::`".spec_bytes()))
    } else if !(pos + 2 < tokens.len()) {
        Parsed::Fails(
            Fault::Expected(
                pos + 1,
                seq!["`{`".spec_bytes(), "`$`".spec_bytes(), "an identifier".spec_bytes()],
            ),
        )
    } else {
        let at = pos + 1;
        let kind = tokens[at].kind;
        if kind is Identifier || kind is Class || is_reserved_ident_spec(kind) {
            if tokens[at + 1].kind is LeftParen {
                match arguments(tokens, at + 1, scope) {
                    Parsed::Tree(args, end) => Parsed::Tree(
                        Shape::StaticMethod(Box::new(left), Box::new(Shape::Named(at)), args),
                        end,
                    ),
                    Parsed::Fails(fault) => Parsed::Fails(fault),
                    Parsed::Other => Parsed::Other,
                }
            } else {
                Parsed::Tree(Shape::Constant(Box::new(left), at), at + 1)
            }
        } else {
            let member: Grouping = if kind is Dollar {
                dynamic(tokens, at, scope)
            } else if kind is Variable {
                Parsed::Tree(Shape::Atom(at), at + 1)
            } else if kind is LeftBrace {
                let inner = grouping(tokens, at + 1, Precedence::Lowest, scope);
                closed(
                    tokens,
                    inner,
                    |k: TokenKind| k is RightBrace,
                    "`}`".spec_bytes(),
                    Shape::Dynamic(Box::new(tree_of(inner))),
                )
            } else {
                Parsed::Fails(
                    Fault::Expected(
                        at,
                        seq!["`{`".spec_bytes(), "`$`".spec_bytes(), "an identifier".spec_bytes()],
                    ),
                )
            };
            match member {
                Parsed::Tree(property, next) => if !(pos < next < tokens.len()) {
                    Parsed::Other
                } else if tokens[next].kind is LeftParen || kind is LeftBrace {
                    match arguments(tokens, next, scope) {
                        Parsed::Tree(args, end) => Parsed::Tree(
                            Shape::StaticMethod(Box::new(left), Box::new(property), args),
                            end,
                        ),
                        Parsed::Fails(fault) => Parsed::Fails(fault),
                        Parsed::Other => Parsed::Other,
                    }
                } else {
                    Parsed::Tree(Shape::StaticProperty(Box::new(left), Box::new(property)), next)
                },
                Parsed::Fails(fault) => Parsed::Fails(fault),
                Parsed::Other => Parsed::Other,
            }
        }
    }
}

/// The member that is named at `at`, after `->` or `?->`: a braced
/// expression, a variable, a dynamic variable or a name.
#[verifier::opaque]
pub open spec fn member_name(tokens: Seq<Token>, at: int, scope: Scope) -> Grouping
    decreases tokens.len() - at, 2nat,
{
    if !(0 <= at && at + 1 < tokens.len()) {
        if 0 <= at < tokens.len() {
            Parsed::Fails(missing(at, "an identifier".spec_bytes()))
        } else {
            Parsed::Other
        }
    } else {
        let kind = tokens[at].kind;
        if kind is LeftBrace {
            let inner = grouping(tokens, at + 1, Precedence::Lowest, scope);
            closed(
                tokens,
                inner,
                |k: TokenKind| k is RightBrace,
                "`}`".spec_bytes(),
                Shape::Group(Box::new(tree_of(inner))),
            )
        } else if kind is Variable {
            Parsed::Tree(Shape::Atom(at), at + 1)
        } else if kind is Dollar {
            dynamic(tokens, at, scope)
        } else if kind is Identifier || is_reserved_ident_spec(kind) {
            Parsed::Tree(Shape::Named(at), at + 1)
        } else {
            Parsed::Fails(missing(at, "an identifier".spec_bytes()))
        }
    }
}

/// What `->` or `?->` at `pos` and the member after it make of `left`: a
/// method call where an argument list follows the member, else a property.
#[verifier::opaque]
pub open spec fn member_shape(
    tokens: Seq<Token>,
    pos: int,
    left: Shape,
    nullsafe: bool,
    scope: Scope,
) -> Grouping
    decreases tokens.len() - pos, 1nat,
{
    if !(0 <= pos && pos + 1 < tokens.len()) {
        Parsed::Other
    } else {
        match member_name(tokens, pos + 1, scope) {
            Parsed::Tree(property, next) => if !(pos < next < tokens.len()) {
                Parsed::Other
            } else if tokens[next].kind is LeftParen {
                match arguments(tokens, next, scope) {
                    Parsed::Tree(args, end) => Parsed::Tree(
                        Shape::Method(Box::new(left), nullsafe, Box::new(property), args),
                        end,
                    ),
                    Parsed::Fails(fault) => Parsed::Fails(fault),
                    Parsed::Other => Parsed::Other,
                }
            } else {
                Parsed::Tree(Shape::Property(Box::new(left), nullsafe, Box::new(property)), next)
            },
            Parsed::Fails(fault) => Parsed::Fails(fault),
            Parsed::Other => Parsed::Other,
        }
    }
}

/// One item of an array literal: `...` and `&` where written, the value,
/// and after `=>` the value that the first expression is the key of.
#[verifier::opaque]
pub open spec fn item(tokens: Seq<Token>, pos: int, scope: Scope) -> Parsed<ItemShape>
    decreases tokens.len() - pos, 7nat,
{
    if !(0 <= pos < tokens.len()) {
        Parsed::Other
    } else {
        let unpack = tokens[pos].kind is Ellipsis;
        let amper = if unpack {
            pos + 1
        } else {
            pos
        };
        let by_ref = amper < tokens.len() && tokens[amper].kind is Ampersand;
        let start = if by_ref {
            amper + 1
        } else {
            amper
        };
        match grouping(tokens, start, Precedence::Lowest, scope) {
            Parsed::Tree(first, arrow) => if !(pos < arrow && arrow + 1 < tokens.len()) {
                if pos < arrow < tokens.len() && !(tokens[arrow].kind is DoubleArrow) {
                    Parsed::Tree(ItemShape { key: None, value: first, unpack, by_ref }, arrow)
                } else {
                    Parsed::Other
                }
            } else if tokens[arrow].kind is DoubleArrow {
                if by_ref {
                    Parsed::Fails(Fault::Unexpected(amper))
                } else {
                    let value_by_ref = tokens[arrow + 1].kind is Ampersand;
                    let value_start = if value_by_ref {
                        arrow + 2
                    } else {
                        arrow + 1
                    };
                    match grouping(tokens, value_start, Precedence::Lowest, scope) {
                        Parsed::Tree(value, end) => Parsed::Tree(
                            ItemShape { key: Some(first), value, unpack, by_ref: value_by_ref },
                            end,
                        ),
                        Parsed::Fails(fault) => Parsed::Fails(fault),
                        Parsed::Other => Parsed::Other,
                    }
                }
            } else {
                Parsed::Tree(ItemShape { key: None, value: first, unpack, by_ref }, arrow)
            },
            Parsed::Fails(fault) => Parsed::Fails(fault),
            Parsed::Other => Parsed::Other,
        }
    }
}

/// The items of an array literal from `pos` on, after the items `before`,
/// up to the closing token, which is not taken.
#[verifier::opaque]
pub open spec fn items(
    tokens: Seq<Token>,
    pos: int,
    bracket: bool,
    before: Seq<ItemShape>,
    scope: Scope,
) -> Parsed<Seq<ItemShape>>
    decreases tokens.len() - pos, 8nat,
{
    let start = comments_end(tokens, pos);
    if !(0 <= pos <= start < tokens.len()) {
        Parsed::Other
    } else if (bracket && tokens[start].kind is RightBracket) || (!bracket
        && tokens[start].kind is RightParen) {
        Parsed::Tree(before, start)
    } else {
        match item(tokens, start, scope) {
            Parsed::Tree(one, end) => if !(start < end && end + 1 < tokens.len()) {
                if start < end < tokens.len() {
                    Parsed::Tree(before.push(one), end)
                } else {
                    Parsed::Other
                }
            } else if tokens[end].kind is Comma {
                items(tokens, end + 1, bracket, before.push(one), scope)
            } else {
                Parsed::Tree(before.push(one), end)
            },
            Parsed::Fails(fault) => Parsed::Fails(fault),
            Parsed::Other => Parsed::Other,
        }
    }
}

/// `[ items ]` at `pos`.
#[verifier::opaque]
pub open spec fn short_array(tokens: Seq<Token>, pos: int, scope: Scope) -> Grouping
    decreases tokens.len() - pos, 1nat,
{
    if !(0 <= pos && pos + 1 < tokens.len()) {
        Parsed::Other
    } else if !(tokens[pos].kind is LeftBracket) {
        Parsed::Fails(missing(pos, "`[`".spec_bytes()))
    } else {
        match items(tokens, pos + 1, true, Seq::empty(), scope) {
            Parsed::Tree(list, end) => if 0 <= end && end + 1 < tokens.len()
                && tokens[end].kind is RightBracket {
                Parsed::Tree(Shape::Array(list), end + 1)
            } else {
                Parsed::Fails(missing(end, "`]`".spec_bytes()))
            },
            Parsed::Fails(fault) => Parsed::Fails(fault),
            Parsed::Other => Parsed::Other,
        }
    }
}

/// `array ( items )` at `pos`.
#[verifier::opaque]
pub open spec fn long_array(tokens: Seq<Token>, pos: int, scope: Scope) -> Grouping
    decreases tokens.len() - pos, 1nat,
{
    if !(0 <= pos && pos + 1 < tokens.len()) {
        Parsed::Other
    } else if !(tokens[pos + 1].kind is LeftParen) {
        Parsed::Fails(missing(pos + 1, "`(`".spec_bytes()))
    } else {
        match items(tokens, pos + 2, false, Seq::empty(), scope) {
            Parsed::Tree(list, end) => if 0 <= end && end + 1 < tokens.len()
                && tokens[end].kind is RightParen {
                Parsed::Tree(Shape::Array(list), end + 1)
            } else {
                Parsed::Fails(missing(end, "`)`".spec_bytes()))
            },
            Parsed::Fails(fault) => Parsed::Fails(fault),
            Parsed::Other => Parsed::Other,
        }
    }
}

/// The items of a `list` from `pos` on, after the items `before`, up to
/// the closing parenthesis, which is taken.
#[verifier::opaque]
pub open spec fn list_items(
    tokens: Seq<Token>,
    pos: int,
    before: Seq<Option<ItemShape>>,
    scope: Scope,
) -> Grouping
    decreases tokens.len() - pos, 8nat,
{
    let start = comments_end(tokens, pos);
    if !(0 <= pos <= start < tokens.len()) {
        Parsed::Other
    } else if tokens[start].kind is RightParen {
        finish(
            tokens,
            start,
            |k: TokenKind| k is RightParen,
            "`)`".spec_bytes(),
            Shape::List(before),
        )
    } else if tokens[start].kind is Comma && start + 1 < tokens.len() {
        list_items(tokens, start + 1, before.push(None), scope)
    } else {
        match item(tokens, start, scope) {
            Parsed::Tree(one, end) => if !(start < end < tokens.len()) {
                Parsed::Other
            } else if tokens[end].kind is Comma && end + 1 < tokens.len() {
                list_items(tokens, end + 1, before.push(Some(one)), scope)
            } else {
                finish(
                    tokens,
                    end,
                    |k: TokenKind| k is RightParen,
                    "`)`".spec_bytes(),
                    Shape::List(before.push(Some(one))),
                )
            },
            Parsed::Fails(fault) => Parsed::Fails(fault),
            Parsed::Other => Parsed::Other,
        }
    }
}

/// The conditions of one arm of a `match` from `pos` on, after the
/// conditions `before` and a comma.
#[verifier::opaque]
pub open spec fn more_conditions(
    tokens: Seq<Token>,
    pos: int,
    before: Seq<Shape>,
    scope: Scope,
) -> Parsed<Seq<Shape>>
    decreases tokens.len() - pos, 1nat,
{
    if !(0 <= pos < tokens.len()) {
        Parsed::Other
    } else if !(tokens[pos].kind is Comma) {
        Parsed::Tree(before, pos)
    } else if pos + 1 < tokens.len() && tokens[pos + 1].kind is DoubleArrow {
        Parsed::Tree(before, pos + 1)
    } else {
        match grouping(tokens, pos + 1, Precedence::Lowest, scope) {
            Parsed::Tree(next, end) => if pos < end < tokens.len() {
                more_conditions(tokens, end, before.push(next), scope)
            } else {
                Parsed::Other
            },
            Parsed::Fails(fault) => Parsed::Fails(fault),
            Parsed::Other => Parsed::Other,
        }
    }
}

/// The conditions of one arm of a `match`: at least one.
#[verifier::opaque]
pub open spec fn conditions(tokens: Seq<Token>, pos: int, scope: Scope) -> Parsed<Seq<Shape>>
    decreases tokens.len() - pos, 7nat,
{
    if !(0 <= pos < tokens.len()) {
        Parsed::Other
    } else {
        match grouping(tokens, pos, Precedence::Lowest, scope) {
            Parsed::Tree(first, end) => if pos < end < tokens.len() {
                more_conditions(tokens, end, seq![first], scope)
            } else {
                Parsed::Other
            },
            Parsed::Fails(fault) => Parsed::Fails(fault),
            Parsed::Other => Parsed::Other,
        }
    }
}

/// `=>` at `pos` and the body of an arm after it.
#[verifier::opaque]
pub open spec fn arm_body(tokens: Seq<Token>, pos: int, scope: Scope) -> Grouping
    decreases tokens.len() - pos, 1nat,
{
    if !(0 <= pos && pos + 1 < tokens.len()) {
        if 0 <= pos < tokens.len() {
            Parsed::Fails(missing(pos, "`=>`".spec_bytes()))
        } else {
            Parsed::Other
        }
    } else if !(tokens[pos].kind is DoubleArrow) {
        Parsed::Fails(missing(pos, "`=>`".spec_bytes()))
    } else {
        grouping(tokens, pos + 1, Precedence::Lowest, scope)
    }
}

/// One arm of a `match` at `pos`, added to the arms `before` and the
/// default arm `default`.
#[verifier::opaque]
pub open spec fn arm(
    tokens: Seq<Token>,
    pos: int,
    before: Seq<ArmShape>,
    default: Option<Box<Shape>>,
    scope: Scope,
) -> Parsed<(Seq<ArmShape>, Option<Box<Shape>>)>
    decreases tokens.len() - pos, 8nat,
{
    if !(0 <= pos && pos + 1 < tokens.len()) {
        if 0 <= pos < tokens.len() {
            Parsed::Fails(Fault::EndOfFile)
        } else {
            Parsed::Other
        }
    } else if tokens[pos].kind is Default {
        if default is Some {
            Parsed::Fails(Fault::SecondDefault(pos))
        } else {
            let arrow = if tokens[pos + 1].kind is Comma && pos + 2 < tokens.len() {
                pos + 2
            } else {
                pos + 1
            };
            match arm_body(tokens, arrow, scope) {
                Parsed::Tree(body, end) => Parsed::Tree((before, Some(Box::new(body))), end),
                Parsed::Fails(fault) => Parsed::Fails(fault),
                Parsed::Other => Parsed::Other,
            }
        }
    } else {
        match conditions(tokens, pos, scope) {
            Parsed::Tree(list, arrow) => if pos < arrow < tokens.len() {
                match arm_body(tokens, arrow, scope) {
                    Parsed::Tree(body, end) => Parsed::Tree(
                        (before.push(ArmShape { conditions: list, body }), default),
                        end,
                    ),
                    Parsed::Fails(fault) => Parsed::Fails(fault),
                    Parsed::Other => Parsed::Other,
                }
            } else {
                Parsed::Other
            },
            Parsed::Fails(fault) => Parsed::Fails(fault),
            Parsed::Other => Parsed::Other,
        }
    }
}

/// The arms of a `match` from `pos` on, after the arms `before` and the
/// default arm `default`, up to the closing brace, which is taken. A comma
/// may follow the last arm.
#[verifier::opaque]
pub open spec fn arms(
    tokens: Seq<Token>,
    pos: int,
    condition: Shape,
    before: Seq<ArmShape>,
    default: Option<Box<Shape>>,
    scope: Scope,
) -> Grouping
    decreases tokens.len() - pos, 9nat,
{
    let start = comments_end(tokens, pos);
    if !(0 <= pos <= start < tokens.len()) {
        Parsed::Other
    } else if tokens[start].kind is RightBrace {
        finish(
            tokens,
            start,
            |k: TokenKind| k is RightBrace,
            "`}`".spec_bytes(),
            Shape::Match(Box::new(condition), before, default),
        )
    } else {
        match arm(tokens, start, before, default, scope) {
            Parsed::Tree(now, end) => if !(start < end < tokens.len()) {
                Parsed::Other
            } else if tokens[end].kind is Comma && end + 1 < tokens.len() {
                arms(tokens, end + 1, condition, now.0, now.1, scope)
            } else {
                finish(
                    tokens,
                    end,
                    |k: TokenKind| k is RightBrace,
                    "`}`".spec_bytes(),
                    Shape::Match(Box::new(condition), now.0, now.1),
                )
            },
            Parsed::Fails(fault) => Parsed::Fails(fault),
            Parsed::Other => Parsed::Other,
        }
    }
}

/// A `match` at `pos`: the condition between parentheses and the arms
/// between braces.
#[verifier::opaque]
pub open spec fn match_shape(tokens: Seq<Token>, pos: int, scope: Scope) -> Grouping
    decreases tokens.len() - pos, 1nat,
{
    if !(0 <= pos && pos + 1 < tokens.len()) {
        Parsed::Other
    } else if !(tokens[pos + 1].kind is LeftParen) {
        Parsed::Fails(missing(pos + 1, "`(`".spec_bytes()))
    } else {
        match grouping(tokens, pos + 2, Precedence::Lowest, scope) {
            Parsed::Tree(condition, end) => if !(pos < end && end + 2 < tokens.len()) {
                if pos < end < tokens.len() && !(tokens[end].kind is RightParen) {
                    Parsed::Fails(missing(end, "`)`".spec_bytes()))
                } else if pos < end && end + 1 < tokens.len() {
                    Parsed::Fails(missing(end + 1, "`{`".spec_bytes()))
                } else {
                    Parsed::Other
                }
            } else if !(tokens[end].kind is RightParen) {
                Parsed::Fails(missing(end, "`)`".spec_bytes()))
            } else if !(tokens[end + 1].kind is LeftBrace) {
                Parsed::Fails(missing(end + 1, "`{`".spec_bytes()))
            } else {
                arms(tokens, end + 2, condition, Seq::empty(), None, scope)
            },
            Parsed::Fails(fault) => Parsed::Fails(fault),
            Parsed::Other => Parsed::Other,
        }
    }
}

/// A `yield` at `pos`.
#[verifier::opaque]
pub open spec fn yield_shape(tokens: Seq<Token>, pos: int, scope: Scope) -> Grouping
    decreases tokens.len() - pos, 1nat,
{
    if !(0 <= pos && pos + 2 < tokens.len()) {
        if 0 <= pos && pos + 2 == tokens.len() {
            Parsed::Fails(Fault::EndOfFile)
        } else {
            Parsed::Other
        }
    } else if tokens[pos + 1].kind is SemiColon {
        Parsed::Tree(Shape::Yield(None, None), pos + 1)
    } else if tokens[pos + 1].kind is From {
        let value = grouping(tokens, pos + 2, Precedence::YieldFrom, scope);
        wrapped(value, Shape::YieldFrom(Box::new(tree_of(value))))
    } else {
        match grouping(tokens, pos + 1, Precedence::Yield, scope) {
            Parsed::Tree(first, arrow) => if pos < arrow && arrow + 1 < tokens.len()
                && tokens[arrow].kind is DoubleArrow {
                let value = grouping(tokens, arrow + 1, Precedence::Yield, scope);
                wrapped(
                    value,
                    Shape::Yield(Some(Box::new(first)), Some(Box::new(tree_of(value)))),
                )
            } else {
                Parsed::Tree(Shape::Yield(None, Some(Box::new(first))), arrow)
            },
            Parsed::Fails(fault) => Parsed::Fails(fault),
            Parsed::Other => Parsed::Other,
        }
    }
}

/// `new` at `pos`, its target and its arguments.
#[verifier::opaque]
pub open spec fn new_shape(tokens: Seq<Token>, pos: int, scope: Scope) -> Grouping
    decreases tokens.len() - pos, 1nat,
{
    if !(0 <= pos && pos + 1 < tokens.len()) {
        Parsed::Other
    } else {
        match grouping(tokens, pos + 1, Precedence::CloneOrNew, scope) {
            Parsed::Tree(target, end) => if !(pos < end < tokens.len()) {
                Parsed::Other
            } else if tokens[end].kind is LeftParen {
                match arguments(tokens, end, scope) {
                    Parsed::Tree(args, after) => Parsed::Tree(
                        Shape::New(Box::new(target), args),
                        after,
                    ),
                    Parsed::Fails(fault) => Parsed::Fails(fault),
                    Parsed::Other => Parsed::Other,
                }
            } else {
                Parsed::Tree(Shape::New(Box::new(target), Seq::empty()), end)
            },
            Parsed::Fails(fault) => Parsed::Fails(fault),
            Parsed::Other => Parsed::Other,
        }
    }
}

/// Whether a parenthesis, a class root or a prefix operator stands at
/// `pos`. `static` before `function` or `fn` is no class root.
pub open spec fn is_rooted(tokens: Seq<Token>, pos: int) -> bool {
    let kind = tokens[pos].kind;
    kind is LeftParen || kind is Self_ || kind is Parent || (kind is Static && !(tokens[pos
        + 1].kind is Function) && !(tokens[pos + 1].kind is Fn)) || is_prefix_spec(kind)
}

/// What a parenthesis, a class root or a prefix operator at `pos` opens.
///
/// A class root needs its scope and `::` after it. The operand of a prefix
/// operator is parsed at the class that the operator gives it.
#[verifier::opaque]
pub open spec fn rooted(tokens: Seq<Token>, pos: int, scope: Scope) -> Grouping
    decreases tokens.len() - pos, 1nat,
{
    if !(0 <= pos && pos + 1 < tokens.len()) {
        Parsed::Other
    } else {
        let kind = tokens[pos].kind;
        if kind is LeftParen {
            let inner = grouping(tokens, pos + 1, Precedence::Lowest, scope);
            closed(
                tokens,
                inner,
                |k: TokenKind| k is RightParen,
                "`)`".spec_bytes(),
                Shape::Group(Box::new(tree_of(inner))),
            )
        } else if kind is Self_ || kind is Static || kind is Parent {
            if (kind is Parent && !scope.parent) || (!(kind is Parent) && !scope.class) {
                Parsed::Fails(Fault::OutOfScope(pos))
            } else {
                static_shape(tokens, pos + 1, Shape::Root(pos), scope)
            }
        } else if is_prefix_spec(kind) {
            let inner = grouping(tokens, pos + 1, prefix_class(kind), scope);
            wrapped(inner, Shape::Prefix(pos, Box::new(tree_of(inner))))
        } else {
            Parsed::Fails(Fault::Unexpected(pos))
        }
    }
}

/// What a keyword or a bracket at `pos` opens. A token that opens nothing
/// is unexpected.
#[verifier::opaque]
pub open spec fn formed(tokens: Seq<Token>, pos: int, scope: Scope) -> Grouping
    decreases tokens.len() - pos, 4nat,
{
    if !(0 <= pos && pos + 1 < tokens.len()) {
        Parsed::Other
    } else {
        let kind = tokens[pos].kind;
        if kind is Eof || kind.is_comment() {
            Parsed::Other
        } else if kind is Attribute {
            attributed(tokens, pos, scope)
        } else if begins_closure(tokens, pos) {
            closure(tokens, pos, Seq::empty(), scope)
        } else if begins_arrow(tokens, pos) {
            arrow(tokens, pos, Seq::empty(), scope)
        } else if kind is New && (tokens[pos + 1].kind is Class || tokens[pos + 1].kind
            is Attribute) {
            anonymous_class(tokens, pos, scope)
        } else if kind is Throw {
            let value = grouping(tokens, pos + 1, Precedence::Lowest, scope);
            wrapped(value, Shape::Throw(Box::new(tree_of(value))))
        } else if kind is Clone {
            let target = grouping(tokens, pos + 1, Precedence::CloneOrNew, scope);
            wrapped(target, Shape::Clone(Box::new(tree_of(target))))
        } else if kind is New {
            new_shape(tokens, pos, scope)
        } else if kind is Include || kind is IncludeOnce || kind is Require || kind is RequireOnce {
            let path = grouping(tokens, pos + 1, Precedence::Lowest, scope);
            wrapped(path, Shape::Include(pos, Box::new(tree_of(path))))
        } else if kind is Dollar {
            dynamic(tokens, pos, scope)
        } else if kind is Yield {
            yield_shape(tokens, pos, scope)
        } else if kind is List {
            if tokens[pos + 1].kind is LeftParen {
                list_items(tokens, pos + 2, Seq::empty(), scope)
            } else {
                Parsed::Fails(missing(pos + 1, "`(`".spec_bytes()))
            }
        } else if kind is Array {
            long_array(tokens, pos, scope)
        } else if kind is LeftBracket {
            short_array(tokens, pos, scope)
        } else if kind is Match {
            match_shape(tokens, pos, scope)
        } else if kind is StringPart {
            interpolated(tokens, pos, scope)
        } else if kind is Backtick {
            shell(tokens, pos, scope)
        } else if kind is StartDocString {
            doc(tokens, pos, scope)
        } else {
            Parsed::Fails(Fault::Unexpected(pos))
        }
    }
}

/// The form that an expression starts with, up to the first operator that
/// follows it: an operand of one token, or what the token opens.
#[verifier::opaque]
pub open spec fn operand(tokens: Seq<Token>, pos: int, scope: Scope) -> Grouping
    decreases tokens.len() - pos, 5nat,
{
    if !(0 <= pos && pos + 1 < tokens.len()) {
        Parsed::Other
    } else if is_atom(tokens[pos].kind) {
        Parsed::Tree(Shape::Atom(pos), pos + 1)
    } else if is_rooted(tokens, pos) {
        rooted(tokens, pos, scope)
    } else {
        formed(tokens, pos, scope)
    }
}

/// How the expression that starts at `pos` groups, where no operator in it
/// may bind more loosely than `min` allows. Comments before the expression
/// are passed over.
pub open spec fn grouping(tokens: Seq<Token>, pos: int, min: Precedence, scope: Scope) -> Grouping
    decreases tokens.len() - pos, 6nat,
{
    let start = comments_end(tokens, pos);
    if !(0 <= pos <= start < tokens.len()) {
        Parsed::Other
    } else if tokens[start].kind is Eof {
        Parsed::Fails(Fault::EndOfFile)
    } else {
        match operand(tokens, start, scope) {
            Parsed::Tree(left, next) => if start < next < tokens.len() {
                climb(tokens, next, min, left, scope)
            } else {
                Parsed::Other
            },
            Parsed::Fails(fault) => Parsed::Fails(fault),
            Parsed::Other => Parsed::Other,
        }
    }
}

/// What `??` at `pos` makes of the operand `left`: its right operand is
/// parsed at the class of `??`.
pub open spec fn coalesce_shape(tokens: Seq<Token>, pos: int, left: Shape, scope: Scope) -> Grouping
    decreases tokens.len() - pos, 1nat,
{
    if !(0 <= pos && pos + 1 < tokens.len()) {
        Parsed::Other
    } else {
        let right = grouping(tokens, pos + 1, Precedence::NullCoalesce, scope);
        wrapped(right, Shape::Coalesce(Box::new(left), Box::new(tree_of(right))))
    }
}

/// What the argument list at `pos` makes of the operand `left`.
pub open spec fn call_shape(tokens: Seq<Token>, pos: int, left: Shape, scope: Scope) -> Grouping
    decreases tokens.len() - pos, 2nat,
{
    if !(0 <= pos && pos + 1 < tokens.len()) {
        Parsed::Other
    } else {
        match arguments(tokens, pos, scope) {
            Parsed::Tree(args, end) => Parsed::Tree(Shape::Call(Box::new(left), args), end),
            Parsed::Fails(fault) => Parsed::Fails(fault),
            Parsed::Other => Parsed::Other,
        }
    }
}

/// What the brackets at `pos` make of the operand `left`: an index, or
/// none where the brackets are empty.
pub open spec fn index_shape(tokens: Seq<Token>, pos: int, left: Shape, scope: Scope) -> Grouping
    decreases tokens.len() - pos, 1nat,
{
    if !(0 <= pos && pos + 1 < tokens.len()) || !(tokens[pos].kind is LeftBracket) {
        Parsed::Other
    } else if tokens[pos + 1].kind is RightBracket {
        Parsed::Tree(Shape::Index(Box::new(left), None), pos + 2)
    } else {
        let index = grouping(tokens, pos + 1, Precedence::Lowest, scope);
        closed(
            tokens,
            index,
            |k: TokenKind| k is RightBracket,
            "`]`".spec_bytes(),
            Shape::Index(Box::new(left), Some(Box::new(tree_of(index)))),
        )
    }
}

/// What the postfix operator at `pos` makes of the operand `left`.
///
/// `++` and `--` take no further token; `??` takes a right operand; a
/// parenthesis opens the arguments of a call, a bracket an index, `::`,
/// `->` and `?->` a member.
#[verifier::opaque]
pub open spec fn postfix_shape(tokens: Seq<Token>, pos: int, left: Shape, scope: Scope) -> Grouping
    decreases tokens.len() - pos, 3nat,
{
    if !(0 <= pos && pos + 1 < tokens.len()) {
        Parsed::Other
    } else {
        let kind = tokens[pos].kind;
        if kind is Increment || kind is Decrement {
            Parsed::Tree(Shape::Suffix(Box::new(left), pos), pos + 1)
        } else if kind is Coalesce {
            coalesce_shape(tokens, pos, left, scope)
        } else if kind is LeftParen {
            call_shape(tokens, pos, left, scope)
        } else if kind is LeftBracket {
            index_shape(tokens, pos, left, scope)
        } else if kind is DoubleColon {
            static_shape(tokens, pos, left, scope)
        } else if kind is Arrow {
            member_shape(tokens, pos, left, false, scope)
        } else if kind is NullsafeArrow {
            member_shape(tokens, pos, left, true, scope)
        } else {
            Parsed::Other
        }
    }
}

/// Whether the operator at `pos` is `=` followed by `&`: an assignment by
/// reference.
pub open spec fn assigns_by_reference(tokens: Seq<Token>, pos: int) -> bool {
    0 <= pos && pos + 1 < tokens.len() && tokens[pos].kind is Equals && tokens[pos + 1].kind
        is Ampersand
}

/// Where the right operand of the binary operator at `pos` starts: after
/// the operator, and after the `&` of an assignment by reference.
pub open spec fn right_operand_start(tokens: Seq<Token>, pos: int) -> int {
    if assigns_by_reference(tokens, pos) {
        pos + 2
    } else {
        pos + 1
    }
}

/// What the infix operator at `pos`, of the class `class`, makes of the
/// operand `left`.
///
/// The middle operand of `?` is parsed at the lowest class and must be
/// followed by `:`; the last operand of `?` is parsed at the class of `?`,
/// that of `?:` at the lowest class, and the right operand of any other
/// operator at the operator's own class.
#[verifier::opaque]
pub open spec fn infix_shape(
    tokens: Seq<Token>,
    pos: int,
    class: Precedence,
    left: Shape,
    scope: Scope,
) -> Grouping
    decreases tokens.len() - pos, 1nat,
{
    if !(0 <= pos && pos + 1 < tokens.len()) {
        Parsed::Other
    } else {
        let kind = tokens[pos].kind;
        if kind is Question {
            match grouping(tokens, pos + 1, Precedence::Lowest, scope) {
                Parsed::Tree(then, colon) => if !(pos < colon && colon + 1 < tokens.len()) {
                    if pos < colon < tokens.len() {
                        Parsed::Fails(missing(colon, "`:`".spec_bytes()))
                    } else {
                        Parsed::Other
                    }
                } else if tokens[colon].kind is Colon {
                    let last = grouping(tokens, colon + 1, class, scope);
                    wrapped(
                        last,
                        Shape::Ternary(
                            Box::new(left),
                            Some(Box::new(then)),
                            Box::new(tree_of(last)),
                        ),
                    )
                } else {
                    Parsed::Fails(missing(colon, "`:`".spec_bytes()))
                },
                Parsed::Fails(fault) => Parsed::Fails(fault),
                Parsed::Other => Parsed::Other,
            }
        } else if kind is QuestionColon {
            let last = grouping(tokens, pos + 1, Precedence::Lowest, scope);
            wrapped(last, Shape::Ternary(Box::new(left), None, Box::new(tree_of(last))))
        } else if infix_op(kind) is Some {
            let right = grouping(tokens, right_operand_start(tokens, pos), class, scope);
            wrapped(right, Shape::Binary(Box::new(left), pos, Box::new(tree_of(right))))
        } else {
            Parsed::Other
        }
    }
}

/// How the expression goes on at `pos` after the operand `left`.
///
/// Comments are passed over. A postfix operator applies where its class is
/// not below `min`. An infix operator applies where its class is above
/// `min`, or is `min` and does not group to the left; an operator of a
/// non-associative class `min` is refused. After an operator has been
/// applied the expression goes on in the same way.
#[verifier::opaque]
pub open spec fn climb(
    tokens: Seq<Token>,
    pos: int,
    min: Precedence,
    left: Shape,
    scope: Scope,
) -> Grouping
    decreases tokens.len() - pos, 6nat,
{
    let here = comments_end(tokens, pos);
    if !(0 <= pos <= here < tokens.len()) {
        Parsed::Other
    } else {
        let kind = tokens[here].kind;
        match postfix_class(kind) {
            Some(class) => if class.level_spec() < min.level_spec() {
                Parsed::Tree(left, here)
            } else {
                match postfix_shape(tokens, here, left, scope) {
                    Parsed::Tree(joined, next) => if here < next < tokens.len() {
                        climb(tokens, next, min, joined, scope)
                    } else {
                        Parsed::Other
                    },
                    Parsed::Fails(fault) => Parsed::Fails(fault),
                    Parsed::Other => Parsed::Other,
                }
            },
            None => match infix_class(kind) {
                Some(class) => if class.level_spec() < min.level_spec() || (class == min
                    && class.associativity_spec() == Some(Associativity::Left)) {
                    Parsed::Tree(left, here)
                } else if class == min && class.associativity_spec() == Some(Associativity::Non) {
                    Parsed::Fails(Fault::Unexpected(here))
                } else {
                    match infix_shape(tokens, here, class, left, scope) {
                        Parsed::Tree(joined, next) => if here < next < tokens.len() {
                            climb(tokens, next, min, joined, scope)
                        } else {
                            Parsed::Other
                        },
                        Parsed::Fails(fault) => Parsed::Fails(fault),
                        Parsed::Other => Parsed::Other,
                    }
                },
                None => Parsed::Tree(left, here),
            },
        }
    }
}

/// The kind of part that closes a string: a double quote, a backtick or
/// the closing label of a doc string.
pub enum Closer {
    Quote,
    Backtick,
    Label,
}

/// Whether the token closes a string of the kind.
pub open spec fn closes_string(kind: TokenKind, closer: Closer) -> bool {
    match closer {
        Closer::Quote => kind is DoubleQuote,
        Closer::Backtick => kind is Backtick,
        Closer::Label => kind is EndDocString,
    }
}

/// The four things that a part of a string can begin with.
pub open spec fn part_messages() -> Seq<Seq<u8>> {
    seq!["`${`".spec_bytes(), "`{$".spec_bytes(), "`\"`".spec_bytes(), "a variable".spec_bytes()]
}

/// The four things that can stand between the brackets after a variable in
/// a string.
pub open spec fn index_messages() -> Seq<Seq<u8>> {
    seq![
        "`-`".spec_bytes(),
        "an integer".spec_bytes(),
        "an identifier".spec_bytes(),
        "a variable".spec_bytes(),
    ]
}

/// A variable in a string at `pos` with the one index or property that may
/// follow it there: `$a[1]`, `$a[-1]`, `$a[k]`, `$a[$k]`, `$a->b`, `$a?->b`.
pub open spec fn simple(tokens: Seq<Token>, pos: int) -> Grouping {
    if !(0 <= pos && pos + 2 < tokens.len()) {
        if 0 <= pos && pos + 1 < tokens.len() && !(tokens[pos + 1].kind is LeftBracket) && !(tokens[pos
            + 1].kind is Arrow) && !(tokens[pos + 1].kind is NullsafeArrow) {
            Parsed::Tree(Shape::Atom(pos), pos + 1)
        } else {
            Parsed::Other
        }
    } else {
        let next = tokens[pos + 1].kind;
        let at = pos + 2;
        if next is LeftBracket {
            let index: Grouping = if tokens[at].kind is LiteralInteger {
                Parsed::Tree(Shape::Atom(at), at + 1)
            } else if tokens[at].kind is Minus {
                if at + 2 < tokens.len() && tokens[at + 1].kind is LiteralInteger {
                    Parsed::Tree(Shape::Prefix(at, Box::new(Shape::Atom(at + 1))), at + 2)
                } else {
                    Parsed::Fails(missing(at + 1, "an integer".spec_bytes()))
                }
            } else if tokens[at].kind is Identifier {
                Parsed::Tree(Shape::Key(at), at + 1)
            } else if tokens[at].kind is Variable {
                Parsed::Tree(Shape::Atom(at), at + 1)
            } else {
                Parsed::Fails(Fault::Expected(at, index_messages()))
            };
            closed(
                tokens,
                index,
                |k: TokenKind| k is RightBracket,
                "`]`".spec_bytes(),
                Shape::Index(Box::new(Shape::Atom(pos)), Some(Box::new(tree_of(index)))),
            )
        } else if next is Arrow || next is NullsafeArrow {
            if tokens[at].kind is Identifier || is_reserved_ident_spec(tokens[at].kind) {
                Parsed::Tree(
                    Shape::Property(
                        Box::new(Shape::Atom(pos)),
                        next is NullsafeArrow,
                        Box::new(Shape::Named(at)),
                    ),
                    at + 1,
                )
            } else {
                Parsed::Fails(missing(at, "an identifier".spec_bytes()))
            }
        } else {
            Parsed::Tree(Shape::Atom(pos), pos + 1)
        }
    }
}

/// What follows `${` in a string, from `pos` on: `name}`, `name[expr]}` or
/// `expr}`.
#[verifier::opaque]
pub open spec fn braced(tokens: Seq<Token>, pos: int, scope: Scope) -> Grouping
    decreases tokens.len() - pos, 7nat,
{
    if !(0 <= pos < tokens.len()) {
        Parsed::Other
    } else if tokens[pos].kind is Identifier && pos + 1 < tokens.len() && tokens[pos + 1].kind
        is RightBrace {
        Parsed::Tree(Shape::Braced(pos), pos + 2)
    } else if tokens[pos].kind is Identifier && pos + 1 < tokens.len() && tokens[pos + 1].kind
        is LeftBracket {
        match grouping(tokens, pos + 2, Precedence::Lowest, scope) {
            Parsed::Tree(index, end) => if !(0 <= end && end + 2 < tokens.len()) {
                if 0 <= end < tokens.len() && !(tokens[end].kind is RightBracket) {
                    Parsed::Fails(missing(end, "`]`".spec_bytes()))
                } else if 0 <= end && end + 1 < tokens.len() {
                    Parsed::Fails(missing(end + 1, "`}`".spec_bytes()))
                } else {
                    Parsed::Other
                }
            } else if !(tokens[end].kind is RightBracket) {
                Parsed::Fails(missing(end, "`]`".spec_bytes()))
            } else if !(tokens[end + 1].kind is RightBrace) {
                Parsed::Fails(missing(end + 1, "`}`".spec_bytes()))
            } else {
                Parsed::Tree(
                    Shape::Index(Box::new(Shape::Braced(pos)), Some(Box::new(index))),
                    end + 2,
                )
            },
            Parsed::Fails(fault) => Parsed::Fails(fault),
            Parsed::Other => Parsed::Other,
        }
    } else {
        let inner = grouping(tokens, pos, Precedence::Lowest, scope);
        closed(
            tokens,
            inner,
            |k: TokenKind| k is RightBrace,
            "`}`".spec_bytes(),
            Shape::Dynamic(Box::new(tree_of(inner))),
        )
    }
}

/// One part of a string at `pos`. A literal part that is empty gives no
/// part.
#[verifier::opaque]
pub open spec fn part(tokens: Seq<Token>, pos: int, scope: Scope) -> Parsed<Option<PartShape>>
    decreases tokens.len() - pos, 1nat,
{
    if !(0 <= pos && pos + 1 < tokens.len()) {
        if 0 <= pos < tokens.len() {
            Parsed::Fails(Fault::Expected(pos, part_messages()))
        } else {
            Parsed::Other
        }
    } else {
        let kind = tokens[pos].kind;
        let embedded: Grouping = if kind is DollarLeftBrace {
            braced(tokens, pos + 1, scope)
        } else if kind is LeftBrace {
            let inner = grouping(tokens, pos + 1, Precedence::Lowest, scope);
            closed(tokens, inner, |k: TokenKind| k is RightBrace, "`}`".spec_bytes(), tree_of(inner))
        } else if kind is Variable {
            simple(tokens, pos)
        } else {
            Parsed::Fails(Fault::Expected(pos, part_messages()))
        };
        if kind is StringPart {
            Parsed::Tree(
                if kind->StringPart_0@.len() > 0 {
                    Some(PartShape::Literal(pos))
                } else {
                    None
                },
                pos + 1,
            )
        } else {
            match embedded {
                Parsed::Tree(shape, end) => Parsed::Tree(Some(PartShape::Embedded(shape)), end),
                Parsed::Fails(fault) => Parsed::Fails(fault),
                Parsed::Other => Parsed::Other,
            }
        }
    }
}

/// The list `before` with the part added, if there is one.
pub open spec fn with_part(before: Seq<PartShape>, one: Option<PartShape>) -> Seq<PartShape> {
    match one {
        Some(shape) => before.push(shape),
        None => before,
    }
}

/// The parts of a string from `pos` on, after the parts `before`, up to the
/// token that closes the string, which is not taken.
#[verifier::opaque]
pub open spec fn parts(
    tokens: Seq<Token>,
    pos: int,
    closer: Closer,
    before: Seq<PartShape>,
    scope: Scope,
) -> Parsed<Seq<PartShape>>
    decreases tokens.len() - pos, 2nat,
{
    if !(0 <= pos < tokens.len()) {
        Parsed::Other
    } else if closes_string(tokens[pos].kind, closer) {
        Parsed::Tree(before, pos)
    } else {
        match part(tokens, pos, scope) {
            Parsed::Tree(one, end) => if pos < end < tokens.len() {
                parts(tokens, end, closer, with_part(before, one), scope)
            } else {
                Parsed::Other
            },
            Parsed::Fails(fault) => Parsed::Fails(fault),
            Parsed::Other => Parsed::Other,
        }
    }
}

/// A double-quoted string whose first part is at `pos`.
#[verifier::opaque]
pub open spec fn interpolated(tokens: Seq<Token>, pos: int, scope: Scope) -> Grouping
    decreases tokens.len() - pos, 3nat,
{
    match parts(tokens, pos, Closer::Quote, Seq::empty(), scope) {
        Parsed::Tree(list, end) => Parsed::Tree(Shape::Interpolated(list), end + 1),
        Parsed::Fails(fault) => Parsed::Fails(fault),
        Parsed::Other => Parsed::Other,
    }
}

/// A shell command whose opening backtick is at `pos`.
#[verifier::opaque]
pub open spec fn shell(tokens: Seq<Token>, pos: int, scope: Scope) -> Grouping
    decreases tokens.len() - pos, 3nat,
{
    if !(0 <= pos && pos + 1 < tokens.len()) {
        Parsed::Other
    } else {
        match parts(tokens, pos + 1, Closer::Backtick, Seq::empty(), scope) {
            Parsed::Tree(list, end) => Parsed::Tree(Shape::ShellExec(list), end + 1),
            Parsed::Fails(fault) => Parsed::Fails(fault),
            Parsed::Other => Parsed::Other,
        }
    }
}

/// A doc string whose opening label is at `pos`: the parts of a heredoc up
/// to its closing label, or the one literal part of a nowdoc and its
/// closing label.
#[verifier::opaque]
pub open spec fn doc(tokens: Seq<Token>, pos: int, scope: Scope) -> Grouping
    decreases tokens.len() - pos, 3nat,
{
    if !(0 <= pos && pos + 1 < tokens.len() && tokens[pos].kind is StartDocString) {
        Parsed::Other
    } else if tokens[pos].kind->StartDocString_1 == DocStringKind::Heredoc {
        match parts(tokens, pos + 1, Closer::Label, Seq::empty(), scope) {
            Parsed::Tree(list, end) => Parsed::Tree(Shape::Heredoc(list, end), end + 1),
            Parsed::Fails(fault) => Parsed::Fails(fault),
            Parsed::Other => Parsed::Other,
        }
    } else if !(tokens[pos + 1].kind is StringPart) {
        Parsed::Fails(missing(pos + 1, "constant string".spec_bytes()))
    } else if !(pos + 2 < tokens.len() && tokens[pos + 2].kind is EndDocString) {
        Parsed::Fails(missing(pos + 2, "label".spec_bytes()))
    } else {
        Parsed::Tree(Shape::Nowdoc(pos + 1, pos + 2), pos + 3)
    }
}

/// The indentation that the closing label of a doc string tells: the byte
/// and how many of it, where the label is indented.
pub open spec fn indentation(kind: TokenKind) -> Option<(u8, nat)> {
    match kind {
        TokenKind::EndDocString(_, Some(c), amount) => Some((c.byte_spec(), amount as nat)),
        _ => None,
    }
}

/// Whether the part groups the tokens as the shape says. The bytes of a
/// literal part are those of its token, dedented where an indentation is
/// given.
pub open spec fn models_part(
    p: StringPart,
    shape: PartShape,
    tokens: Seq<Token>,
    dedent: Option<(u8, nat)>,
) -> bool
    decreases shape,
{
    match shape {
        PartShape::Literal(at) => 0 <= at < tokens.len() && tokens[at].kind is StringPart && match p {
            StringPart::Const(bytes) => bytes@ == match dedent {
                Some((c, amount)) => dedented(tokens[at].kind->StringPart_0@, c, amount),
                None => tokens[at].kind->StringPart_0@,
            },
            StringPart::Expr(_) => false,
        },
        PartShape::Embedded(inner) => match p {
            StringPart::Const(_) => false,
            StringPart::Expr(e) => models(*e, inner, tokens),
        },
    }
}

/// Whether each part groups the tokens as the shape at its place says.
pub open spec fn models_parts(
    list: Seq<StringPart>,
    shapes: Seq<PartShape>,
    tokens: Seq<Token>,
    dedent: Option<(u8, nat)>,
) -> bool
    decreases shapes,
{
    &&& list.len() == shapes.len()
    &&& forall|i: int|
        0 <= i < shapes.len() ==> models_part(list[i], #[trigger] shapes[i], tokens, dedent)
}

/// Whether `id` is the name that the token at `at` gives as it is written.
pub open spec fn named_at(id: Identifier, tokens: Seq<Token>, at: int) -> bool {
    &&& 0 <= at && at + 1 < tokens.len()
    &&& id.name@ == tokens[at].kind.text_spec()
    &&& id.start == tokens[at].span
    &&& id.end == tokens[at + 1].span
}

/// Whether `e` is the node for the one-token operand at `index`.
pub open spec fn is_atom_at(e: Expression, tokens: Seq<Token>, index: int) -> bool {
    match tokens[index].kind {
        TokenKind::Variable(name) => e is Variable && e->Variable_0.name@ == name@
            && e->Variable_0.start == tokens[index].span && e->Variable_0.end == tokens[index
            + 1].span,
        TokenKind::LiteralInteger(i) => e is LiteralInteger && e->i@ == i@,
        TokenKind::LiteralFloat(f) => e is LiteralFloat && e->f@ == f@,
        TokenKind::LiteralString(s) => e is LiteralString && e->LiteralString_value@ == s@,
        TokenKind::True => e == (Expression::Bool { value: true }),
        TokenKind::False => e == (Expression::Bool { value: false }),
        TokenKind::Null => e == Expression::Null,
        TokenKind::DirConstant => e == (Expression::MagicConst { constant: MagicConst::Dir }),
        TokenKind::Identifier(_)
        | TokenKind::QualifiedIdentifier(_)
        | TokenKind::FullyQualifiedIdentifier(_) => e is Identifier && named_at(
            e->Identifier_0,
            tokens,
            index,
        ),
        _ => false,
    }
}

/// The operand of `e`, where `e` is the node that the prefix operator `op`
/// makes.
pub open spec fn prefix_operand(op: TokenKind, e: Expression) -> Option<Expression> {
    match e {
        Expression::Print { value } => if op is Print {
            Some(*value)
        } else {
            None
        },
        Expression::BooleanNot { value } => if op is Bang {
            Some(*value)
        } else {
            None
        },
        Expression::Negate { value } => if op is Minus {
            Some(*value)
        } else {
            None
        },
        Expression::UnaryPlus { value } => if op is Plus {
            Some(*value)
        } else {
            None
        },
        Expression::BitwiseNot { value } => if op is BitwiseNot {
            Some(*value)
        } else {
            None
        },
        Expression::PreDecrement { value } => if op is Decrement {
            Some(*value)
        } else {
            None
        },
        Expression::PreIncrement { value } => if op is Increment {
            Some(*value)
        } else {
            None
        },
        Expression::ErrorSuppress { expr } => if op is At {
            Some(*expr)
        } else {
            None
        },
        Expression::Cast { kind, value } => if cast_kind(op) == Some(kind) {
            Some(*value)
        } else {
            None
        },
        _ => None,
    }
}

/// The kind of inclusion that a keyword stands for.
pub open spec fn include_kind(kind: TokenKind) -> IncludeKind {
    match kind {
        TokenKind::IncludeOnce => IncludeKind::IncludeOnce,
        TokenKind::Require => IncludeKind::Require,
        TokenKind::RequireOnce => IncludeKind::RequireOnce,
        _ => IncludeKind::Include,
    }
}

/// Whether the tree `e` groups the tokens as `shape` says.
pub open spec fn models(e: Expression, shape: Shape, tokens: Seq<Token>) -> bool
    decreases shape,
{
    match shape {
        Shape::Atom(index) => 0 <= index && index + 1 < tokens.len() && is_atom_at(
            e,
            tokens,
            index,
        ),
        Shape::Named(at) => e is Identifier && named_at(e->Identifier_0, tokens, at),
        Shape::Root(at) => 0 <= at < tokens.len() && match tokens[at].kind {
            TokenKind::Self_ => e == Expression::Self_,
            TokenKind::Static => e == Expression::Static,
            TokenKind::Parent => e == Expression::Parent,
            _ => false,
        },
        Shape::Group(inner) => models(e, *inner, tokens),
        Shape::Prefix(at, inner) => 0 <= at < tokens.len() && match prefix_operand(
            tokens[at].kind,
            e,
        ) {
            Some(operand) => models(operand, *inner, tokens),
            None => false,
        },
        Shape::Suffix(inner, at) => 0 <= at < tokens.len() && match e {
            Expression::Increment { value } => tokens[at].kind is Increment && models(
                *value,
                *inner,
                tokens,
            ),
            Expression::Decrement { value } => tokens[at].kind is Decrement && models(
                *value,
                *inner,
                tokens,
            ),
            _ => false,
        },
        Shape::Binary(left, at, right) => 0 <= at < tokens.len() && match e {
            Expression::Infix { lhs, op, rhs } => {
                &&& models(*lhs, *left, tokens)
                &&& models(*rhs, *right, tokens)
                &&& if assigns_by_reference(tokens, at) {
                    op == InfixOp::AssignRef
                } else {
                    Some(op) == infix_op(tokens[at].kind)
                }
            },
            _ => false,
        },
        Shape::Coalesce(left, right) => match e {
            Expression::Coalesce { lhs, rhs } => models(*lhs, *left, tokens) && models(
                *rhs,
                *right,
                tokens,
            ),
            _ => false,
        },
        Shape::Ternary(condition, then, otherwise) => match e {
            Expression::Ternary { condition: c, then: t, otherwise: o } => {
                &&& models(*c, *condition, tokens)
                &&& models(*o, *otherwise, tokens)
                &&& match then {
                    Some(middle) => t is Some && models(*t->Some_0, *middle, tokens),
                    None => t is None,
                }
            },
            _ => false,
        },
        Shape::Call(target, args) => match e {
            Expression::Call { target: t, args: a } => models(*t, *target, tokens)
                && models_args(a@, args, tokens),
            _ => false,
        },
        Shape::Index(array, index) => match e {
            Expression::ArrayIndex { array: a, index: i } => {
                &&& models(*a, *array, tokens)
                &&& match index {
                    Some(inner) => i is Some && models(*i->Some_0, *inner, tokens),
                    None => i is None,
                }
            },
            _ => false,
        },
        Shape::Property(target, nullsafe, property) => match e {
            Expression::PropertyFetch { target: t, property: p } => !nullsafe && models(
                *t,
                *target,
                tokens,
            ) && models(*p, *property, tokens),
            Expression::NullsafePropertyFetch { target: t, property: p } => nullsafe && models(
                *t,
                *target,
                tokens,
            ) && models(*p, *property, tokens),
            _ => false,
        },
        Shape::Method(target, nullsafe, method, args) => match e {
            Expression::MethodCall { target: t, method: m, args: a } => !nullsafe && models(
                *t,
                *target,
                tokens,
            ) && models(*m, *method, tokens) && models_args(a@, args, tokens),
            Expression::NullsafeMethodCall { target: t, method: m, args: a } => nullsafe
                && models(*t, *target, tokens) && models(*m, *method, tokens) && models_args(
                a@,
                args,
                tokens,
            ),
            _ => false,
        },
        Shape::Constant(target, at) => match e {
            Expression::ConstFetch { target: t, constant } => models(*t, *target, tokens)
                && named_at(constant, tokens, at),
            _ => false,
        },
        Shape::StaticProperty(target, property) => match e {
            Expression::StaticPropertyFetch { target: t, property: p } => models(
                *t,
                *target,
                tokens,
            ) && models(*p, *property, tokens),
            _ => false,
        },
        Shape::StaticMethod(target, method, args) => match e {
            Expression::StaticMethodCall { target: t, method: m, args: a } => models(
                *t,
                *target,
                tokens,
            ) && models(*m, *method, tokens) && models_args(a@, args, tokens),
            _ => false,
        },
        Shape::Dynamic(inner) => match e {
            Expression::DynamicVariable { name } => models(*name, *inner, tokens),
            _ => false,
        },
        Shape::Throw(inner) => match e {
            Expression::Throw { value } => models(*value, *inner, tokens),
            _ => false,
        },
        Shape::Clone(inner) => match e {
            Expression::Clone { target } => models(*target, *inner, tokens),
            _ => false,
        },
        Shape::New(target, args) => match e {
            Expression::New { target: t, args: a } => models(*t, *target, tokens) && models_args(
                a@,
                args,
                tokens,
            ),
            _ => false,
        },
        Shape::Include(at, inner) => 0 <= at < tokens.len() && match e {
            Expression::Include { kind, path } => kind == include_kind(tokens[at].kind)
                && models(*path, *inner, tokens),
            _ => false,
        },
        Shape::Yield(key, value) => match e {
            Expression::Yield { key: k, value: v } => {
                &&& match key {
                    Some(inner) => k is Some && models(*k->Some_0, *inner, tokens),
                    None => k is None,
                }
                &&& match value {
                    Some(inner) => v is Some && models(*v->Some_0, *inner, tokens),
                    None => v is None,
                }
            },
            _ => false,
        },
        Shape::YieldFrom(inner) => match e {
            Expression::YieldFrom { value } => models(*value, *inner, tokens),
            _ => false,
        },
        Shape::Array(list) => match e {
            Expression::Array { items } => models_items(items@, list, tokens),
            _ => false,
        },
        Shape::List(list) => match e {
            Expression::List { items } => {
                &&& items@.len() == list.len()
                &&& forall|i: int|
                    0 <= i < list.len() ==> match #[trigger] list[i] {
                        Some(shape) => items@[i] is Some && models_item(
                            items@[i]->Some_0,
                            shape,
                            tokens,
                        ),
                        None => items@[i] is None,
                    }
            },
            _ => false,
        },
        Shape::Braced(at) => 0 <= at && at + 1 < tokens.len() && tokens[at].kind is Identifier
            && match e {
            Expression::Variable(v) => v.name@ == tokens[at].kind->Identifier_0@ && v.start
                == tokens[at].span && v.end == tokens[at + 1].span,
            _ => false,
        },
        Shape::Key(at) => 0 <= at < tokens.len() && tokens[at].kind is Identifier && match e {
            Expression::LiteralString { value } => value@ == tokens[at].kind->Identifier_0@,
            _ => false,
        },
        Shape::Interpolated(list) => match e {
            Expression::InterpolatedString { parts } => models_parts(parts@, list, tokens, None),
            _ => false,
        },
        Shape::ShellExec(list) => match e {
            Expression::ShellExec { parts } => models_parts(parts@, list, tokens, None),
            _ => false,
        },
        Shape::Heredoc(list, end) => 0 <= end < tokens.len() && match e {
            Expression::Heredoc { parts } => models_parts(
                parts@,
                list,
                tokens,
                indentation(tokens[end].kind),
            ),
            _ => false,
        },
        Shape::Closure(shape) => e is AnonymousFunction && models_closure(
            e->AnonymousFunction_0,
            shape,
            tokens,
        ),
        Shape::Arrow(shape) => e is ArrowFunction && models_arrow(e->ArrowFunction_0, *shape, tokens),
        Shape::AnonymousClass(shape) => e is AnonymousClass && models_anonymous_class(
            e->AnonymousClass_0,
            shape,
            tokens,
        ),
        Shape::Nowdoc(body, end) => 0 <= body < end < tokens.len() && tokens[body].kind
            is StringPart && match e {
            Expression::Nowdoc { value } => value@ == match indentation(tokens[end].kind) {
                Some((c, amount)) => dedented_lines(tokens[body].kind->StringPart_0@, 0, c, amount),
                None => tokens[body].kind->StringPart_0@,
            },
            _ => false,
        },
        Shape::Match(condition, arms, default) => match e {
            Expression::Match { condition: c, arms: a, default: d } => {
                &&& models(*c, *condition, tokens)
                &&& a@.len() == arms.len()
                &&& forall|i: int|
                    0 <= i < arms.len() ==> models_arm(a@[i], #[trigger] arms[i], tokens)
                &&& match default {
                    Some(body) => d is Some && models(d->Some_0.body, *body, tokens),
                    None => d is None,
                }
            },
            _ => false,
        },
    }
}

/// Whether the argument groups the tokens as the shape says.
pub open spec fn models_arg(a: Arg, shape: ArgShape, tokens: Seq<Token>) -> bool
    decreases shape,
{
    &&& a.unpack == shape.unpack
    &&& match shape.name {
        Some(at) => a.name is Some && named_at(a.name->Some_0, tokens, at),
        None => a.name is None,
    }
    &&& models(a.value, shape.value, tokens)
}

/// Whether each argument groups the tokens as the shape at its place says.
pub open spec fn models_args(list: Seq<Arg>, shapes: Seq<ArgShape>, tokens: Seq<Token>) -> bool
    decreases shapes,
{
    &&& list.len() == shapes.len()
    &&& forall|i: int| 0 <= i < shapes.len() ==> models_arg(list[i], #[trigger] shapes[i], tokens)
}

/// Whether the item groups the tokens as the shape says.
pub open spec fn models_item(item: ArrayItem, shape: ItemShape, tokens: Seq<Token>) -> bool
    decreases shape,
{
    &&& item.unpack == shape.unpack
    &&& item.by_ref == shape.by_ref
    &&& match shape.key {
        Some(key) => item.key is Some && models(item.key->Some_0, key, tokens),
        None => item.key is None,
    }
    &&& models(item.value, shape.value, tokens)
}

/// Whether each item groups the tokens as the shape at its place says.
pub open spec fn models_items(list: Seq<ArrayItem>, shapes: Seq<ItemShape>, tokens: Seq<Token>) -> bool
    decreases shapes,
{
    &&& list.len() == shapes.len()
    &&& forall|i: int| 0 <= i < shapes.len() ==> models_item(list[i], #[trigger] shapes[i], tokens)
}

/// Whether each tree of the list groups the tokens as the shape at its
/// place says.
pub open spec fn models_list(list: Seq<Expression>, shapes: Seq<Shape>, tokens: Seq<Token>) -> bool
    decreases shapes,
{
    &&& list.len() == shapes.len()
    &&& forall|i: int| 0 <= i < shapes.len() ==> models(list[i], #[trigger] shapes[i], tokens)
}

/// Whether the arm groups the tokens as the shape says.
pub open spec fn models_arm(arm: MatchArm, shape: ArmShape, tokens: Seq<Token>) -> bool
    decreases shape,
{
    models_list(arm.conditions@, shape.conditions, tokens) && models(arm.body, shape.body, tokens)
}

/// Whether the result `r` agrees with what the grammar says of an
/// expression: the tree groups as the shape says and the cursor is at its
/// end, or the error reports the fault. Where the grammar says nothing, no
/// result agrees.
pub open spec fn agrees(
    said: Grouping,
    tokens: Seq<Token>,
    r: Result<Expression, ParseError>,
    position: int,
) -> bool {
    match said {
        Parsed::Tree(shape, end) => r is Ok && models(r->Ok_0, shape, tokens) && position == end,
        Parsed::Fails(fault) => r is Err && reports(r->Err_0, fault, tokens),
        Parsed::Other => false,
    }
}

/// As `agrees`, for one part of a string.
pub open spec fn part_agrees(
    said: Parsed<Option<PartShape>>,
    tokens: Seq<Token>,
    r: Result<Option<StringPart>, ParseError>,
    position: int,
) -> bool {
    match said {
        Parsed::Tree(one, end) => r is Ok && position == end && match one {
            Some(shape) => r->Ok_0 is Some && models_part(r->Ok_0->Some_0, shape, tokens, None),
            None => r->Ok_0 is None,
        },
        Parsed::Fails(fault) => r is Err && reports(r->Err_0, fault, tokens),
        Parsed::Other => false,
    }
}

/// As `agrees`, for an argument list.
pub open spec fn arguments_agree(
    said: Parsed<Seq<ArgShape>>,
    tokens: Seq<Token>,
    r: Result<Vec<Arg>, ParseError>,
    position: int,
) -> bool {
    match said {
        Parsed::Tree(shapes, end) => r is Ok && models_args(r->Ok_0@, shapes, tokens) && position
            == end,
        Parsed::Fails(fault) => r is Err && reports(r->Err_0, fault, tokens),
        Parsed::Other => false,
    }
}

} // verus!
