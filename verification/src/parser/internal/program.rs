use crate::lexer::token::Token;
use crate::lexer::token::TokenKind;
use crate::parser::ast::variables::Variable;
use crate::parser::ast::Statement;
use crate::parser::ast::Use;
use crate::parser::ast::UseKind;
use crate::parser::internal::classes;
use crate::parser::internal::closures::closure;
use crate::parser::internal::classes::Classish;
use crate::parser::internal::classes::ClassishShape;
use crate::parser::internal::declarations::after_ampersand;
use crate::parser::internal::declarations::attributes;
use crate::parser::internal::declarations::models_groups;
use crate::parser::internal::declarations::models_optional_type;
use crate::parser::internal::declarations::models_params;
use crate::parser::internal::declarations::parameter_list;
use crate::parser::internal::declarations::return_type;
use crate::parser::internal::declarations::GroupShape;
use crate::parser::internal::declarations::ParamShape;
use crate::parser::internal::declarations::TypeShape;
use crate::parser::internal::grouping::Fault;
use crate::parser::internal::identifiers::fully_qualified_name;
use crate::parser::internal::identifiers::reserved_name;
use crate::parser::error::ParseError;
use crate::parser::internal::grouping::grouping;
use crate::parser::internal::grouping::is_atom_at;
use crate::parser::internal::grouping::missing;
use crate::parser::internal::grouping::models;
use crate::parser::internal::grouping::models_list;
use crate::parser::internal::grouping::named_at;
use crate::parser::internal::grouping::reports;
use crate::parser::internal::grouping::Parsed;
use crate::parser::internal::grouping::Scope;
use crate::parser::internal::grouping::Shape;
use crate::parser::internal::precedences::Precedence;
use crate::parser::internal::structures;
use crate::parser::state::comment_at;
use crate::parser::state::comments_end;
use vstd::prelude::*;
use vstd::string::StringSliceAdditionalSpecFns;

verus! {

/// How the tokens of a statement group. Tokens are given by their
/// index.
pub enum StatementShape {
    /// An expression and its `;`.
    Expression(Shape),
    /// `return`, with its value where it has one.
    Return(Option<Shape>),
    /// `echo` and its values.
    Echo(Seq<Shape>),
    /// `break`, with its level where it has one.
    Break(Option<Shape>),
    /// `continue`, with its level where it has one.
    Continue(Option<Shape>),
    /// `goto` and the token of its label.
    Goto(int),
    /// The token of a label before its `:`.
    Label(int),
    /// The token of inline HTML.
    InlineHtml(int),
    /// The token of a comment.
    Comment(int),
    /// `;` alone.
    Noop,
    /// `use` at the first index, and the names it imports.
    Use(int, Seq<UseShape>),
    /// `use` at the first index, the prefix of the group at the second, and
    /// the names of the group.
    GroupUse(int, int, Seq<UseShape>),
    /// `global` and the tokens of its variables.
    Global(Seq<int>),
    /// `static` and its variables.
    Static(Seq<StaticShape>),
    /// `const` and its constants: the token of each name, and each value.
    Constant(Seq<(int, Shape)>),
    /// The statements between braces.
    Block(Seq<StatementShape>),
    /// `while`: its condition and what it governs.
    While(Shape, Seq<StatementShape>),
    /// `do`: what it governs and its condition.
    DoWhile(Seq<StatementShape>, Shape),
    /// `if`: its condition, what it governs, its `elseif` branches and its
    /// `else` branch.
    If(Shape, Seq<StatementShape>, Seq<ElseIfShape>, Option<Seq<StatementShape>>),
    /// `for`: the three sections of its header and what it governs.
    For(Seq<Shape>, Seq<Shape>, Seq<Shape>, Seq<StatementShape>),
    /// `foreach`: its header and what it governs.
    Foreach(ForeachShape, Seq<StatementShape>),
    /// `switch`: its condition and its arms.
    Switch(Shape, Seq<CaseShape>),
    /// `try`: its body, its `catch` clauses and its `finally` block.
    Try(Seq<StatementShape>, Seq<CatchShape>, Option<Seq<StatementShape>>),
    /// `declare`: the tokens of the key and the value of each directive,
    /// and what it governs.
    Declare(Seq<(int, int)>, Seq<StatementShape>),
    /// `__halt_compiler` and the token of what follows it.
    HaltCompiler(Option<int>),
    /// `namespace name;` and the statements up to the next namespace.
    Namespace(int, Seq<StatementShape>),
    /// `namespace`, the token of its name where it has one, and the
    /// statements between its braces.
    BracedNamespace(Option<int>, Seq<StatementShape>),
    /// A named function.
    Function(FunctionShape),
    /// A class, an interface, a trait or an enum.
    Classish(ClassishShape),
}

/// A named function: the tokens at which it starts and ends, its
/// attributes, `&`, the token of its name, its parameters, its return type
/// and its body.
pub struct FunctionShape {
    pub start: int,
    pub end: int,
    pub attributes: Seq<GroupShape>,
    pub by_ref: bool,
    pub name: int,
    pub params: Seq<ParamShape>,
    pub return_type: Option<TypeShape>,
    pub body: Seq<StatementShape>,
}

/// The header of a `foreach`.
pub struct ForeachShape {
    pub subject: Shape,
    pub by_ref: bool,
    pub key: Option<Shape>,
    pub value: Shape,
}

/// One arm of a `switch`; the condition is absent for `default`.
pub struct CaseShape {
    pub condition: Option<Shape>,
    pub body: Seq<StatementShape>,
}

/// One `catch` clause: the tokens of its types and of its variable, and
/// its body.
pub struct CatchShape {
    pub types: Seq<int>,
    pub var: Option<int>,
    pub body: Seq<StatementShape>,
}

/// One `elseif` branch.
pub struct ElseIfShape {
    pub condition: Shape,
    pub body: Seq<StatementShape>,
}

/// One imported name: the token of the name and that of its alias.
pub struct UseShape {
    pub name: int,
    pub alias: Option<int>,
}

/// One variable of a `static` statement: its token and its default value.
pub struct StaticShape {
    pub var: int,
    pub default: Option<Shape>,
}

/// A statement that ends with `;` at `pos`. A closing tag stands for the
/// `;` and is not taken.
pub open spec fn ended<T>(tokens: Seq<Token>, pos: int, shape: T) -> Parsed<T> {
    if !(0 <= pos && pos + 1 < tokens.len()) {
        if 0 <= pos < tokens.len() {
            Parsed::Fails(missing(pos, "`;`".spec_bytes()))
        } else {
            Parsed::Other
        }
    } else if tokens[pos].kind is CloseTag {
        Parsed::Tree(shape, pos)
    } else if tokens[pos].kind is SemiColon {
        Parsed::Tree(shape, pos + 1)
    } else {
        Parsed::Fails(missing(pos, "`;`".spec_bytes()))
    }
}

/// Where the cursor is when one closing tag at `pos`, if there is one, has
/// been passed.
pub open spec fn after_close_tag(tokens: Seq<Token>, pos: int) -> int {
    if 0 <= pos && pos + 1 < tokens.len() && tokens[pos].kind is CloseTag {
        pos + 1
    } else {
        pos
    }
}

/// The values of an `echo` from `pos` on, after the values `before`.
pub open spec fn values(tokens: Seq<Token>, pos: int, before: Seq<Shape>, scope: Scope) -> Parsed<
    Seq<Shape>,
>
    decreases tokens.len() - pos, 10nat,
{
    if !(0 <= pos < tokens.len()) {
        Parsed::Other
    } else {
        match grouping(tokens, pos, Precedence::Lowest, scope) {
            Parsed::Tree(value, end) => if pos < end && end + 1 < tokens.len() {
                if tokens[end].kind is Comma {
                    values(tokens, end + 1, before.push(value), scope)
                } else {
                    Parsed::Tree(before.push(value), end)
                }
            } else if pos < end < tokens.len() {
                Parsed::Tree(before.push(value), end)
            } else {
                Parsed::Other
            },
            Parsed::Fails(fault) => Parsed::Fails(fault),
            Parsed::Other => Parsed::Other,
        }
    }
}

/// The level of a `break` or `continue` at `pos`, with the `;` after it.
/// The level is absent just before `;` or a closing tag.
pub open spec fn level(tokens: Seq<Token>, pos: int, scope: Scope) -> Parsed<Option<Shape>>
    decreases tokens.len() - pos, 10nat,
{
    if !(0 <= pos < tokens.len()) {
        Parsed::Other
    } else if tokens[pos].kind is SemiColon || tokens[pos].kind is CloseTag {
        ended(tokens, pos, None)
    } else {
        match grouping(tokens, pos, Precedence::Lowest, scope) {
            Parsed::Tree(shape, end) => ended(tokens, end, Some(shape)),
            Parsed::Fails(fault) => Parsed::Fails(fault),
            Parsed::Other => Parsed::Other,
        }
    }
}

/// The kind of import that the token after `use` asks for.
pub open spec fn use_kind(kind: TokenKind) -> UseKind {
    match kind {
        TokenKind::Function => UseKind::Function,
        TokenKind::Const => UseKind::Const,
        _ => UseKind::Normal,
    }
}

/// One imported name at `pos`, with its alias where `as` follows.
pub open spec fn use_item(tokens: Seq<Token>, pos: int) -> Parsed<UseShape> {
    if !(0 <= pos && pos + 1 < tokens.len()) || fully_qualified_name(tokens[pos].kind) is None {
        if 0 <= pos < tokens.len() {
            Parsed::Fails(missing(pos, "an identifier".spec_bytes()))
        } else {
            Parsed::Other
        }
    } else if tokens[pos + 1].kind is As {
        if pos + 3 < tokens.len() && tokens[pos + 2].kind is Identifier {
            Parsed::Tree(UseShape { name: pos, alias: Some(pos + 2) }, pos + 3)
        } else {
            Parsed::Fails(missing(pos + 2, "an identifier".spec_bytes()))
        }
    } else {
        Parsed::Tree(UseShape { name: pos, alias: None }, pos + 1)
    }
}

/// The names of a `use` from `pos` on, after the names `before`: at least
/// one, separated by commas. A comma must be followed by a name.
pub open spec fn uses(tokens: Seq<Token>, pos: int, before: Seq<UseShape>) -> Parsed<Seq<UseShape>>
    decreases tokens.len() - pos, 10nat,
{
    if !(0 <= pos < tokens.len()) {
        Parsed::Other
    } else {
        match use_item(tokens, pos) {
            Parsed::Tree(one, end) => if !(pos < end && end + 1 < tokens.len()) {
                if pos < end < tokens.len() {
                    Parsed::Tree(before.push(one), end)
                } else {
                    Parsed::Other
                }
            } else if tokens[end].kind is Comma {
                uses(tokens, end + 1, before.push(one))
            } else {
                Parsed::Tree(before.push(one), end)
            },
            Parsed::Fails(fault) => Parsed::Fails(fault),
            Parsed::Other => Parsed::Other,
        }
    }
}

/// The names of a group from `pos` on, after the names `before`: at least
/// one, separated by commas, up to the closing brace, which is not taken.
/// A comma may stand before the brace.
pub open spec fn group(tokens: Seq<Token>, pos: int, before: Seq<UseShape>) -> Parsed<Seq<UseShape>>
    decreases tokens.len() - pos, 10nat,
{
    if !(0 <= pos < tokens.len()) {
        Parsed::Other
    } else {
        match use_item(tokens, pos) {
            Parsed::Tree(one, end) => if !(pos < end && end + 1 < tokens.len()) {
                if pos < end < tokens.len() && !(tokens[end].kind is Comma) {
                    Parsed::Tree(before.push(one), end)
                } else {
                    Parsed::Other
                }
            } else if tokens[end].kind is Comma {
                if tokens[end + 1].kind is RightBrace {
                    Parsed::Tree(before.push(one), end + 1)
                } else {
                    group(tokens, end + 1, before.push(one))
                }
            } else {
                Parsed::Tree(before.push(one), end)
            },
            Parsed::Fails(fault) => Parsed::Fails(fault),
            Parsed::Other => Parsed::Other,
        }
    }
}

/// Where the names of the `use` at `pos` start: after `use` and after
/// `function` or `const`.
pub open spec fn use_start(tokens: Seq<Token>, pos: int) -> int {
    if tokens[pos + 1].kind is Function || tokens[pos + 1].kind is Const {
        pos + 2
    } else {
        pos + 1
    }
}

/// A `use` statement at `pos`.
///
/// A name followed by `{` is the prefix of a group, whose braces hold at
/// least one name; else the names follow one another. Either way a `;`
/// ends the statement.
pub open spec fn use_statement(tokens: Seq<Token>, pos: int) -> Parsed<StatementShape> {
    if !(0 <= pos && pos + 1 < tokens.len()) {
        Parsed::Other
    } else {
        let start = use_start(tokens, pos);
        if start + 1 < tokens.len() && tokens[start + 1].kind is LeftBrace && !(tokens[start].kind
            is Eof) {
            if fully_qualified_name(tokens[start].kind) is None {
                Parsed::Fails(missing(start, "an identifier".spec_bytes()))
            } else {
                match group(tokens, start + 2, Seq::empty()) {
                    Parsed::Tree(list, end) => if 0 <= end && end + 1 < tokens.len()
                        && tokens[end].kind is RightBrace {
                        ended(tokens, end + 1, StatementShape::GroupUse(pos, start, list))
                    } else {
                        Parsed::Fails(missing(end, "`}`".spec_bytes()))
                    },
                    Parsed::Fails(fault) => Parsed::Fails(fault),
                    Parsed::Other => Parsed::Other,
                }
            }
        } else {
            match uses(tokens, start, Seq::empty()) {
                Parsed::Tree(list, end) => ended(tokens, end, StatementShape::Use(pos, list)),
                Parsed::Fails(fault) => Parsed::Fails(fault),
                Parsed::Other => Parsed::Other,
            }
        }
    }
}

/// The variables of a `global` from `pos` on, after the variables
/// `before`: at least one, separated by commas.
pub open spec fn variables(tokens: Seq<Token>, pos: int, before: Seq<int>) -> Parsed<Seq<int>>
    decreases tokens.len() - pos, 10nat,
{
    if !(0 <= pos && pos + 2 < tokens.len()) || !(tokens[pos].kind is Variable) {
        if 0 <= pos < tokens.len() && !(tokens[pos].kind is Variable) {
            Parsed::Fails(missing(pos, "a variable".spec_bytes()))
        } else if 0 <= pos && pos + 1 < tokens.len() && !(tokens[pos + 1].kind is Comma) {
            Parsed::Tree(before.push(pos), pos + 1)
        } else {
            Parsed::Other
        }
    } else if tokens[pos + 1].kind is Comma {
        variables(tokens, pos + 2, before.push(pos))
    } else {
        Parsed::Tree(before.push(pos), pos + 1)
    }
}

/// A `global` statement at `pos`.
pub open spec fn global(tokens: Seq<Token>, pos: int) -> Parsed<StatementShape> {
    match variables(tokens, pos + 1, Seq::empty()) {
        Parsed::Tree(list, end) => ended(tokens, end, StatementShape::Global(list)),
        Parsed::Fails(fault) => Parsed::Fails(fault),
        Parsed::Other => Parsed::Other,
    }
}

/// One variable of a `static` at `pos`, with its default value where `=`
/// follows.
pub open spec fn static_variable(tokens: Seq<Token>, pos: int, scope: Scope) -> Parsed<StaticShape>
    decreases tokens.len() - pos, 10nat,
{
    if !(0 <= pos && pos + 1 < tokens.len()) || !(tokens[pos].kind is Variable) {
        if 0 <= pos < tokens.len() {
            Parsed::Fails(missing(pos, "a variable".spec_bytes()))
        } else {
            Parsed::Other
        }
    } else if tokens[pos + 1].kind is Equals {
        match grouping(tokens, pos + 2, Precedence::Lowest, scope) {
            Parsed::Tree(value, end) => Parsed::Tree(
                StaticShape { var: pos, default: Some(value) },
                end,
            ),
            Parsed::Fails(fault) => Parsed::Fails(fault),
            Parsed::Other => Parsed::Other,
        }
    } else {
        Parsed::Tree(StaticShape { var: pos, default: None }, pos + 1)
    }
}

/// The variables of a `static` from `pos` on, after the variables
/// `before`: at least one, separated by commas.
pub open spec fn static_variables(
    tokens: Seq<Token>,
    pos: int,
    before: Seq<StaticShape>,
    scope: Scope,
) -> Parsed<Seq<StaticShape>>
    decreases tokens.len() - pos, 11nat,
{
    if !(0 <= pos < tokens.len()) {
        Parsed::Other
    } else {
        match static_variable(tokens, pos, scope) {
            Parsed::Tree(one, end) => if !(pos < end && end + 1 < tokens.len()) {
                if pos < end < tokens.len() {
                    Parsed::Tree(before.push(one), end)
                } else {
                    Parsed::Other
                }
            } else if tokens[end].kind is Comma {
                static_variables(tokens, end + 1, before.push(one), scope)
            } else {
                Parsed::Tree(before.push(one), end)
            },
            Parsed::Fails(fault) => Parsed::Fails(fault),
            Parsed::Other => Parsed::Other,
        }
    }
}

/// A `static` statement at `pos`.
pub open spec fn static_statement(tokens: Seq<Token>, pos: int, scope: Scope) -> Parsed<
    StatementShape,
>
    decreases tokens.len() - pos, 10nat,
{
    if !(0 <= pos < tokens.len()) {
        Parsed::Other
    } else {
        match static_variables(tokens, pos + 1, Seq::empty(), scope) {
            Parsed::Tree(list, end) => ended(tokens, end, StatementShape::Static(list)),
            Parsed::Fails(fault) => Parsed::Fails(fault),
            Parsed::Other => Parsed::Other,
        }
    }
}

/// One constant of a `const` at `pos`: a name, `=` and a value.
pub open spec fn one_constant(tokens: Seq<Token>, pos: int, scope: Scope) -> Parsed<(int, Shape)>
    decreases tokens.len() - pos, 10nat,
{
    if !(0 <= pos && pos + 1 < tokens.len()) || !(tokens[pos].kind is Identifier) {
        if 0 <= pos < tokens.len() {
            Parsed::Fails(missing(pos, "an identifier".spec_bytes()))
        } else {
            Parsed::Other
        }
    } else if !(tokens[pos + 1].kind is Equals) {
        Parsed::Fails(missing(pos + 1, "`=`".spec_bytes()))
    } else {
        match grouping(tokens, pos + 2, Precedence::Lowest, scope) {
            Parsed::Tree(value, end) => Parsed::Tree((pos, value), end),
            Parsed::Fails(fault) => Parsed::Fails(fault),
            Parsed::Other => Parsed::Other,
        }
    }
}

/// The constants of a `const` from `pos` on, after the constants `before`:
/// at least one, separated by commas.
pub open spec fn constants(
    tokens: Seq<Token>,
    pos: int,
    before: Seq<(int, Shape)>,
    scope: Scope,
) -> Parsed<Seq<(int, Shape)>>
    decreases tokens.len() - pos, 11nat,
{
    if !(0 <= pos < tokens.len()) {
        Parsed::Other
    } else {
        match one_constant(tokens, pos, scope) {
            Parsed::Tree(one, end) => if !(pos < end && end + 1 < tokens.len()) {
                if pos < end < tokens.len() {
                    Parsed::Tree(before.push(one), end)
                } else {
                    Parsed::Other
                }
            } else if tokens[end].kind is Comma {
                constants(tokens, end + 1, before.push(one), scope)
            } else {
                Parsed::Tree(before.push(one), end)
            },
            Parsed::Fails(fault) => Parsed::Fails(fault),
            Parsed::Other => Parsed::Other,
        }
    }
}

/// A `const` statement at `pos`.
pub open spec fn constant(tokens: Seq<Token>, pos: int, scope: Scope) -> Parsed<StatementShape>
    decreases tokens.len() - pos, 10nat,
{
    if !(0 <= pos < tokens.len()) {
        Parsed::Other
    } else {
        match constants(tokens, pos + 1, Seq::empty(), scope) {
            Parsed::Tree(list, end) => ended(tokens, end, StatementShape::Constant(list)),
            Parsed::Fails(fault) => Parsed::Fails(fault),
            Parsed::Other => Parsed::Other,
        }
    }
}

/// Whether the imported name is the one that the shape says.
pub open spec fn models_use(u: Use, shape: UseShape, tokens: Seq<Token>) -> bool
    decreases shape,
{
    &&& named_at(u.name, tokens, shape.name)
    &&& fully_qualified_name(tokens[shape.name].kind) is Some
    &&& match shape.alias {
        Some(at) => u.alias is Some && named_at(u.alias->Some_0, tokens, at)
            && tokens[at].kind is Identifier,
        None => u.alias is None,
    }
}

/// Whether each imported name is the one that the shape at its place says.
pub open spec fn models_uses(list: Seq<Use>, shapes: Seq<UseShape>, tokens: Seq<Token>) -> bool
    decreases shapes,
{
    &&& list.len() == shapes.len()
    &&& forall|i: int| 0 <= i < shapes.len() ==> models_use(list[i], #[trigger] shapes[i], tokens)
}

/// Whether `v` is the variable that the token at `at` gives.
pub open spec fn variable_at(v: Variable, tokens: Seq<Token>, at: int) -> bool {
    &&& 0 <= at && at + 1 < tokens.len()
    &&& tokens[at].kind is Variable
    &&& v.name@ == tokens[at].kind->Variable_0@
    &&& v.start == tokens[at].span
    &&& v.end == tokens[at + 1].span
}

/// How an expression at `pos` and the `;` after it group.
pub open spec fn expression_statement(tokens: Seq<Token>, pos: int, scope: Scope) -> Parsed<
    StatementShape,
>
    decreases tokens.len() - pos, 10nat,
{
    if !(0 <= pos < tokens.len()) {
        Parsed::Other
    } else {
        match grouping(tokens, pos, Precedence::Lowest, scope) {
            Parsed::Tree(shape, end) => ended(tokens, end, StatementShape::Expression(shape)),
            Parsed::Fails(fault) => Parsed::Fails(fault),
            Parsed::Other => Parsed::Other,
        }
    }
}

/// How a `break` or `continue` at `pos` groups; `broken` tells which.
pub open spec fn jump(tokens: Seq<Token>, pos: int, broken: bool, scope: Scope) -> Parsed<
    StatementShape,
>
    decreases tokens.len() - pos, 10nat,
{
    if !(0 <= pos < tokens.len()) {
        Parsed::Other
    } else {
        match level(tokens, pos + 1, scope) {
            Parsed::Tree(shape, end) => Parsed::Tree(
                if broken {
                    StatementShape::Break(shape)
                } else {
                    StatementShape::Continue(shape)
                },
                end,
            ),
            Parsed::Fails(fault) => Parsed::Fails(fault),
            Parsed::Other => Parsed::Other,
        }
    }
}

/// How an `echo` at `pos` groups.
pub open spec fn echo(tokens: Seq<Token>, pos: int, scope: Scope) -> Parsed<StatementShape>
    decreases tokens.len() - pos, 10nat,
{
    if !(0 <= pos < tokens.len()) {
        Parsed::Other
    } else {
        match values(tokens, pos + 1, Seq::empty(), scope) {
            Parsed::Tree(list, end) => ended(tokens, end, StatementShape::Echo(list)),
            Parsed::Fails(fault) => Parsed::Fails(fault),
            Parsed::Other => Parsed::Other,
        }
    }
}

/// How the statement at `pos` that takes no attributes groups, up to its
/// end.
pub open spec fn plain(tokens: Seq<Token>, pos: int, scope: Scope) -> Parsed<StatementShape>
    decreases tokens.len() - pos, 14nat,
{
    if !(0 <= pos < tokens.len()) {
        Parsed::Other
    } else {
        let kind = tokens[pos].kind;
        let next = if pos + 1 < tokens.len() {
            tokens[pos + 1].kind
        } else {
            TokenKind::Eof
        };
        if kind is LeftBrace {
            structures::block(tokens, pos, scope)
        } else if kind is While {
            structures::while_loop(tokens, pos, scope)
        } else if kind is Do {
            structures::do_loop(tokens, pos, scope)
        } else if kind is If {
            structures::if_statement(tokens, pos, scope)
        } else if kind is For {
            structures::for_loop(tokens, pos, scope)
        } else if kind is Foreach {
            structures::foreach_loop(tokens, pos, scope)
        } else if kind is Switch {
            structures::switch_statement(tokens, pos, scope)
        } else if kind is Try {
            structures::try_block(tokens, pos, scope)
        } else if kind is Declare {
            structures::declare(tokens, pos, scope)
        } else if kind is Goto {
            if next is Identifier {
                ended(tokens, pos + 2, StatementShape::Goto(pos + 1))
            } else {
                Parsed::Fails(missing(pos + 1, "an identifier".spec_bytes()))
            }
        } else if kind is Identifier && next is Colon {
            Parsed::Tree(StatementShape::Label(pos), pos + 2)
        } else if kind is Static && next is Variable {
            static_statement(tokens, pos, scope)
        } else if kind is Global {
            global(tokens, pos)
        } else if kind is InlineHtml {
            Parsed::Tree(StatementShape::InlineHtml(pos), pos + 1)
        } else if kind.is_comment() {
            Parsed::Tree(StatementShape::Comment(pos), pos + 1)
        } else if kind is Continue {
            jump(tokens, pos, false, scope)
        } else if kind is Break {
            jump(tokens, pos, true, scope)
        } else if kind is Echo {
            echo(tokens, pos, scope)
        } else if kind is Return {
            if next is SemiColon {
                Parsed::Tree(StatementShape::Return(None), pos + 2)
            } else {
                match grouping(tokens, pos + 1, Precedence::Lowest, scope) {
                    Parsed::Tree(shape, end) => ended(
                        tokens,
                        end,
                        StatementShape::Return(Some(shape)),
                    ),
                    Parsed::Fails(fault) => Parsed::Fails(fault),
                    Parsed::Other => Parsed::Other,
                }
            }
        } else if kind is SemiColon {
            Parsed::Tree(StatementShape::Noop, pos + 1)
        } else {
            expression_statement(tokens, pos, scope)
        }
    }
}

/// Whether `function` at `pos` begins a declaration: a name follows, or
/// `&` and then a name.
pub open spec fn declares_function(tokens: Seq<Token>, pos: int) -> bool {
    &&& 0 <= pos && pos + 2 < tokens.len()
    &&& tokens[pos].kind is Function
    &&& (tokens[pos + 1].kind is Identifier || tokens[pos + 1].kind is Null || (tokens[pos
        + 1].kind is Ampersand && tokens[pos + 2].kind is Identifier))
}

/// Whether the token begins the declaration of a class, an interface, a
/// trait or an enum.
pub open spec fn begins_declaration(kind: TokenKind) -> bool {
    kind is Abstract || kind is Readonly || kind is Final || kind is Class || kind is Interface
        || kind is Trait || kind is Enum
}

/// A named function at `pos`, with the attributes `groups` before it.
pub open spec fn function(tokens: Seq<Token>, pos: int, groups: Seq<GroupShape>, scope: Scope) -> Parsed<
    StatementShape,
>
    decreases tokens.len() - pos, 11nat,
{
    if !(0 <= pos && pos + 1 < tokens.len()) {
        Parsed::Other
    } else {
        let named = after_ampersand(tokens, pos + 1);
        if reserved_name(tokens[named].kind) is None {
            Parsed::Fails(missing(named, "an identifier".spec_bytes()))
        } else {
            match parameter_list(tokens, named + 1, scope) {
                Parsed::Tree(params, typed) => match return_type(tokens, typed) {
                    Parsed::Tree(result, opened) => if pos < opened < tokens.len() {
                        match structures::braced(tokens, opened, scope) {
                            Parsed::Tree(body, end) => Parsed::Tree(
                                StatementShape::Function(
                                    FunctionShape {
                                        start: pos,
                                        end: end - 1,
                                        attributes: groups,
                                        by_ref: named != pos + 1,
                                        name: named,
                                        params,
                                        return_type: result,
                                        body,
                                    },
                                ),
                                end,
                            ),
                            Parsed::Fails(fault) => Parsed::Fails(fault),
                            Parsed::Other => Parsed::Other,
                        }
                    } else {
                        Parsed::Other
                    },
                    Parsed::Fails(fault) => Parsed::Fails(fault),
                    Parsed::Other => Parsed::Other,
                },
                Parsed::Fails(fault) => Parsed::Fails(fault),
                Parsed::Other => Parsed::Other,
            }
        }
    }
}

/// A class, an interface, a trait or an enum at `pos`, with the attributes
/// `groups` before it.
pub open spec fn classish(tokens: Seq<Token>, pos: int, groups: Seq<GroupShape>) -> Parsed<
    StatementShape,
>
    decreases tokens.len() - pos, 13nat,
{
    if !(0 <= pos < tokens.len()) {
        Parsed::Other
    } else {
        let one = if tokens[pos].kind is Interface {
            classes::interface_definition(tokens, pos, groups)
        } else if tokens[pos].kind is Trait {
            classes::trait_definition(tokens, pos, groups)
        } else if tokens[pos].kind is Enum {
            classes::enum_definition(tokens, pos, groups)
        } else {
            classes::class_definition(tokens, pos, groups)
        };
        match one {
            Parsed::Tree(shape, end) => Parsed::Tree(StatementShape::Classish(shape), end),
            Parsed::Fails(fault) => Parsed::Fails(fault),
            Parsed::Other => Parsed::Other,
        }
    }
}

/// How the statement at `at` groups that comes after the attributes
/// `groups`: a declaration takes them, and so does an anonymous function
/// that begins with `function &`, which then must be the whole statement;
/// before anything else they are refused.
pub open spec fn attributed(tokens: Seq<Token>, at: int, groups: Seq<GroupShape>, scope: Scope) -> Parsed<
    StatementShape,
>
    decreases tokens.len() - at, 15nat,
{
    if !(0 <= at < tokens.len()) {
        Parsed::Other
    } else if begins_declaration(tokens[at].kind) {
        classish(tokens, at, groups)
    } else if declares_function(tokens, at) {
        function(tokens, at, groups, scope)
    } else if tokens[at].kind is Function && at + 1 < tokens.len() && tokens[at + 1].kind
        is Ampersand && groups.len() > 0 {
        match closure(tokens, at, groups, scope) {
            Parsed::Tree(shape, end) => ended(tokens, end, StatementShape::Expression(shape)),
            Parsed::Fails(fault) => Parsed::Fails(fault),
            Parsed::Other => Parsed::Other,
        }
    } else if groups.len() > 0 {
        Parsed::Fails(Fault::NoItem(at))
    } else {
        plain(tokens, at, scope)
    }
}

/// How the statement at `pos` groups, with its attributes before it and
/// the closing tag after it.
pub open spec fn statement(tokens: Seq<Token>, pos: int, scope: Scope) -> Parsed<StatementShape>
    decreases tokens.len() - pos, 16nat,
{
    if !(0 <= pos < tokens.len()) {
        Parsed::Other
    } else {
        match attributes(tokens, pos, Seq::empty(), scope) {
            Parsed::Tree(groups, at) => if pos <= at < tokens.len() {
                match attributed(tokens, at, groups, scope) {
                    Parsed::Tree(shape, end) => Parsed::Tree(shape, after_close_tag(tokens, end)),
                    other => other,
                }
            } else {
                Parsed::Other
            },
            Parsed::Fails(fault) => Parsed::Fails(fault),
            Parsed::Other => Parsed::Other,
        }
    }
}

/// How the statement at `pos` groups at the top of a file or of a
/// namespace: comments before it are dropped, and one more closing tag
/// after it is passed.
pub open spec fn top_level(tokens: Seq<Token>, pos: int, scope: Scope) -> Parsed<StatementShape>
    decreases tokens.len() - pos, 20nat,
{
    let start = comments_end(tokens, pos);
    if !(0 <= pos <= start < tokens.len()) {
        Parsed::Other
    } else {
        let kind = tokens[start].kind;
        let one = if kind is Namespace {
            structures::namespace(tokens, start, scope)
        } else if kind is Use {
            use_statement(tokens, start)
        } else if kind is Const {
            constant(tokens, start, scope)
        } else if kind is HaltCompiler {
            if start + 2 < tokens.len() && tokens[start + 1].kind is InlineHtml {
                Parsed::Tree(StatementShape::HaltCompiler(Some(start + 1)), start + 2)
            } else {
                Parsed::Tree(StatementShape::HaltCompiler(None), start + 1)
            }
        } else {
            statement(tokens, start, scope)
        };
        match one {
            Parsed::Tree(shape, end) => Parsed::Tree(shape, after_close_tag(tokens, end)),
            other => other,
        }
    }

}

/// The statements of the input from `pos` on, after the statements
/// `before`: tags are passed, each comment between statements is a
/// statement, and the first `Eof` ends the program, outside any class.
pub open spec fn program(tokens: Seq<Token>, pos: int, before: Seq<StatementShape>) -> Parsed<
    Seq<StatementShape>,
>
    decreases tokens.len() - pos, 10nat,
{
    if !(0 <= pos < tokens.len()) {
        Parsed::Other
    } else {
        let kind = tokens[pos].kind;
        if kind is Eof {
            Parsed::Tree(before, pos)
        } else if kind is OpenTag || kind is CloseTag || kind.is_comment() {
            if pos + 1 < tokens.len() {
                program(
                    tokens,
                    pos + 1,
                    if kind.is_comment() {
                        before.push(StatementShape::Comment(pos))
                    } else {
                        before
                    },
                )
            } else {
                Parsed::Other
            }
        } else {
            match top_level(tokens, pos, Scope { class: false, parent: false }) {
                Parsed::Tree(shape, end) => if pos < end < tokens.len() {
                    program(tokens, end, before.push(shape))
                } else {
                    Parsed::Other
                },
                Parsed::Fails(fault) => Parsed::Fails(fault),
                Parsed::Other => Parsed::Other,
            }
        }
    }
}

/// Whether an optional tree groups the tokens as the optional shape says.
pub open spec fn models_optional(
    e: Option<crate::parser::ast::Expression>,
    shape: Option<Shape>,
    tokens: Seq<Token>,
) -> bool
    decreases shape,
{
    match shape {
        Some(s) => e is Some && models(e->Some_0, s, tokens),
        None => e is None,
    }
}

/// Whether each statement of the list groups the tokens as the shape at
/// its place says.
pub open spec fn models_block(list: Seq<Statement>, shapes: Seq<StatementShape>, tokens: Seq<Token>) -> bool
    decreases shapes,
{
    &&& list.len() == shapes.len()
    &&& forall|i: int|
        0 <= i < shapes.len() ==> models_statement(list[i], #[trigger] shapes[i], tokens)
}

/// Whether each arm of a `switch` groups the tokens as the shape at its
/// place says.
pub open spec fn models_cases(
    list: Seq<crate::parser::ast::Case>,
    shapes: Seq<CaseShape>,
    tokens: Seq<Token>,
) -> bool
    decreases shapes,
{
    &&& list.len() == shapes.len()
    &&& forall|i: int|
        0 <= i < shapes.len() ==> models_optional(
            list[i].condition,
            (#[trigger] shapes[i]).condition,
            tokens,
        ) && models_block(list[i].body@, shapes[i].body, tokens)
}

/// Whether each `catch` clause groups the tokens as the shape at its place
/// says.
pub open spec fn models_catches(
    list: Seq<crate::parser::ast::Catch>,
    shapes: Seq<CatchShape>,
    tokens: Seq<Token>,
) -> bool
    decreases shapes,
{
    &&& list.len() == shapes.len()
    &&& forall|i: int|
        0 <= i < shapes.len() ==> models_catch(list[i], #[trigger] shapes[i], tokens)
}

/// Whether the `catch` clause groups the tokens as the shape says.
pub open spec fn models_catch(
    c: crate::parser::ast::Catch,
    shape: CatchShape,
    tokens: Seq<Token>,
) -> bool
    decreases shape,
{
    &&& shape.types.len() > 0
    &&& c.types@.len() == shape.types.len()
    &&& forall|i: int|
        0 <= i < shape.types.len() ==> named_at(c.types@[i], tokens, #[trigger] shape.types[i])
    &&& match shape.var {
        Some(at) => c.var is Some && variable_at(c.var->Some_0, tokens, at),
        None => c.var is None,
    }
    &&& models_block(c.body@, shape.body, tokens)
}

/// Whether each `elseif` branch groups the tokens as the shape at its
/// place says.
pub open spec fn models_else_ifs(
    list: Seq<crate::parser::ast::ElseIf>,
    shapes: Seq<ElseIfShape>,
    tokens: Seq<Token>,
) -> bool
    decreases shapes,
{
    &&& list.len() == shapes.len()
    &&& forall|i: int|
        0 <= i < shapes.len() ==> models(
            list[i].condition,
            (#[trigger] shapes[i]).condition,
            tokens,
        ) && models_block(list[i].body@, shapes[i].body, tokens)
}

/// Whether the statement `s` groups the tokens as `shape` says.
pub open spec fn models_statement(s: Statement, shape: StatementShape, tokens: Seq<Token>) -> bool
    decreases shape,
{
    match shape {
        StatementShape::For(init, condition, step, list) => match s {
            Statement::For { init: i, condition: c, step: t, body } => models_list(i@, init, tokens)
                && models_list(c@, condition, tokens) && models_list(t@, step, tokens)
                && models_block(body@, list, tokens),
            _ => false,
        },
        StatementShape::Foreach(header, list) => match s {
            Statement::Foreach { expr, by_ref, key_var, value_var, body } => {
                &&& models(expr, header.subject, tokens)
                &&& by_ref == header.by_ref
                &&& models_optional(key_var, header.key, tokens)
                &&& models(value_var, header.value, tokens)
                &&& models_block(body@, list, tokens)
            },
            _ => false,
        },
        StatementShape::Switch(condition, list) => match s {
            Statement::Switch { condition: c, cases } => models(c, condition, tokens)
                && models_cases(cases@, list, tokens),
            _ => false,
        },
        StatementShape::Try(list, catches, finally) => match s {
            Statement::Try { body, catches: c, finally: f } => {
                &&& models_block(body@, list, tokens)
                &&& models_catches(c@, catches, tokens)
                &&& match finally {
                    Some(last) => f is Some && models_block(f->Some_0@, last, tokens),
                    None => f is None,
                }
            },
            _ => false,
        },
        StatementShape::Declare(items, list) => items.len() > 0 && match s {
            Statement::Declare { declares, body } => {
                &&& declares@.len() == items.len()
                &&& forall|i: int|
                    0 <= i < items.len() ==> named_at(
                        declares@[i].key,
                        tokens,
                        (#[trigger] items[i]).0,
                    ) && 0 <= items[i].1 && items[i].1 + 1 < tokens.len() && is_atom_at(
                        declares@[i].value,
                        tokens,
                        items[i].1,
                    )
                &&& models_block(body@, list, tokens)
            },
            _ => false,
        },
        StatementShape::HaltCompiler(content) => match s {
            Statement::HaltCompiler { content: c } => match content {
                Some(at) => 0 <= at < tokens.len() && tokens[at].kind is InlineHtml && c is Some
                    && c->Some_0@ == tokens[at].kind->InlineHtml_0@,
                None => c is None,
            },
            _ => false,
        },
        StatementShape::Namespace(name, list) => match s {
            Statement::Namespace { name: n, body } => named_at(n, tokens, name) && models_block(
                body@,
                list,
                tokens,
            ),
            _ => false,
        },
        StatementShape::BracedNamespace(name, list) => match s {
            Statement::BracedNamespace { name: n, body } => {
                &&& match name {
                    Some(at) => n is Some && named_at(n->Some_0, tokens, at),
                    None => n is None,
                }
                &&& models_block(body@, list, tokens)
            },
            _ => false,
        },
        StatementShape::Classish(shape) => match shape.kind {
            Classish::Class => s is Class && classes::models_class(s->Class_0, shape, tokens),
            Classish::Interface => s is Interface && classes::models_interface(
                s->Interface_0,
                shape,
                tokens,
            ),
            Classish::Trait => s is Trait && classes::models_trait(s->Trait_0, shape, tokens),
            Classish::Enum => s is Enum && classes::models_enum(s->Enum_0, shape, tokens),
        },
        StatementShape::Function(shape) => match s {
            Statement::Function(f) => {
                &&& 0 <= shape.start <= shape.end < tokens.len()
                &&& f.start == tokens[shape.start].span
                &&& f.end == tokens[shape.end].span
                &&& models_groups(f.attributes@, shape.attributes, tokens)
                &&& f.by_ref == shape.by_ref
                &&& named_at(f.name, tokens, shape.name)
                &&& models_params(f.params@, shape.params, tokens)
                &&& models_optional_type(f.return_type, shape.return_type, tokens)
                &&& models_block(f.body@, shape.body, tokens)
            },
            _ => false,
        },
        StatementShape::Block(list) => match s {
            Statement::Block { body } => models_block(body@, list, tokens),
            _ => false,
        },
        StatementShape::While(condition, list) => match s {
            Statement::While { condition: c, body } => models(c, condition, tokens)
                && models_block(body@, list, tokens),
            _ => false,
        },
        StatementShape::DoWhile(list, condition) => match s {
            Statement::DoWhile { body, condition: c } => models(c, condition, tokens)
                && models_block(body@, list, tokens),
            _ => false,
        },
        StatementShape::If(condition, then, else_ifs, otherwise) => match s {
            Statement::If { condition: c, then: t, else_ifs: e, otherwise: o } => {
                &&& models(c, condition, tokens)
                &&& models_block(t@, then, tokens)
                &&& models_else_ifs(e@, else_ifs, tokens)
                &&& match otherwise {
                    Some(list) => o is Some && models_block(o->Some_0@, list, tokens),
                    None => o is None,
                }
            },
            _ => false,
        },
        StatementShape::Expression(inner) => s is Expression && models(
            s->Expression_expr,
            inner,
            tokens,
        ),
        StatementShape::Return(inner) => s is Return && models_optional(
            s->Return_value,
            inner,
            tokens,
        ),
        StatementShape::Echo(list) => s is Echo && models_list(s->Echo_values@, list, tokens),
        StatementShape::Break(inner) => s is Break && models_optional(
            s->Break_level,
            inner,
            tokens,
        ),
        StatementShape::Continue(inner) => s is Continue && models_optional(
            s->Continue_level,
            inner,
            tokens,
        ),
        StatementShape::Goto(at) => s is Goto && named_at(s->Goto_label, tokens, at),
        StatementShape::Label(at) => s is Label && named_at(s->Label_label, tokens, at),
        StatementShape::InlineHtml(at) => 0 <= at < tokens.len() && s is InlineHtml
            && tokens[at].kind is InlineHtml && s->InlineHtml_0@ == tokens[at].kind->InlineHtml_0@,
        StatementShape::Comment(at) => 0 <= at && at + 1 < tokens.len() && s is Comment
            && tokens[at].kind.is_comment() && comment_at(tokens, at, s->Comment_0),
        StatementShape::Noop => s is Noop,
        StatementShape::Use(at, list) => 0 <= at && at + 1 < tokens.len() && list.len() > 0
            && match s {
            Statement::Use { uses, kind } => kind == use_kind(tokens[at + 1].kind) && models_uses(
                uses@,
                list,
                tokens,
            ),
            _ => false,
        },
        StatementShape::GroupUse(at, prefix, list) => 0 <= at && at + 1 < tokens.len()
            && list.len() > 0 && match s {
            Statement::GroupUse { prefix: p, kind, uses } => kind == use_kind(tokens[at + 1].kind)
                && named_at(p, tokens, prefix) && models_uses(uses@, list, tokens),
            _ => false,
        },
        StatementShape::Global(list) => list.len() > 0 && match s {
            Statement::Global { vars } => vars@.len() == list.len() && forall|i: int|
                0 <= i < list.len() ==> variable_at(vars@[i], tokens, #[trigger] list[i]),
            _ => false,
        },
        StatementShape::Static(list) => list.len() > 0 && match s {
            Statement::Static { vars } => vars@.len() == list.len() && forall|i: int|
                0 <= i < list.len() ==> variable_at(vars@[i].var, tokens, (#[trigger] list[i]).var)
                    && models_optional(vars@[i].default, list[i].default, tokens),
            _ => false,
        },
        StatementShape::Constant(list) => list.len() > 0 && match s {
            Statement::Constant { constants } => constants@.len() == list.len() && forall|i: int|
                0 <= i < list.len() ==> named_at(constants@[i].name, tokens, (#[trigger] list[i]).0)
                    && models(constants@[i].value, list[i].1, tokens),
            _ => false,
        },
    }
}

/// Whether each statement of the program groups the tokens as the shape at
/// its place says.
pub open spec fn models_program(
    program: Seq<Statement>,
    shapes: Seq<StatementShape>,
    tokens: Seq<Token>,
) -> bool
    decreases shapes,
{
    models_block(program, shapes, tokens)
}

/// As `statement_agrees`, for a list of statements.
pub open spec fn block_agrees(
    said: Parsed<Seq<StatementShape>>,
    tokens: Seq<Token>,
    r: Result<Vec<Statement>, ParseError>,
    position: int,
) -> bool {
    match said {
        Parsed::Tree(shapes, end) => r is Ok && models_block(r->Ok_0@, shapes, tokens) && position
            == end,
        Parsed::Fails(fault) => r is Err && reports(r->Err_0, fault, tokens),
        Parsed::Other => false,
    }
}

/// Whether the result `r` of parsing a statement agrees with what the
/// grammar says.
pub open spec fn statement_agrees(
    said: Parsed<StatementShape>,
    tokens: Seq<Token>,
    r: Result<Statement, ParseError>,
    position: int,
) -> bool {
    match said {
        Parsed::Tree(shape, end) => r is Ok && models_statement(r->Ok_0, shape, tokens)
            && position == end,
        Parsed::Fails(fault) => r is Err && reports(r->Err_0, fault, tokens),
        Parsed::Other => false,
    }
}

/// Whether the result `r` of parsing an input agrees with what the grammar
/// says.
pub open spec fn program_agrees(
    said: Parsed<Seq<StatementShape>>,
    tokens: Seq<Token>,
    r: Result<Vec<Statement>, ParseError>,
) -> bool {
    match said {
        Parsed::Tree(shapes, _) => r is Ok && models_program(r->Ok_0@, shapes, tokens),
        Parsed::Fails(fault) => r is Err && reports(r->Err_0, fault, tokens),
        Parsed::Other => false,
    }
}

} // verus!
