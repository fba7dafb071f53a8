pub mod attributes;
pub mod classes;
pub mod comments;
pub mod constant;
pub mod enums;
pub mod functions;
pub mod identifiers;
pub mod interfaces;
pub mod modifiers;
pub mod properties;
pub mod traits;
pub mod variables;

use crate::lexer::token::ByteString;
use crate::lexer::token::Token;
use crate::parser::ast::classes::AnonymousClass;
use crate::parser::ast::classes::Class;
use crate::parser::ast::comments::Comment;
use crate::parser::ast::enums::Enum;
use crate::parser::ast::functions::ArrowFunction;
use crate::parser::ast::functions::Closure;
use crate::parser::ast::functions::Function;
use crate::parser::ast::identifiers::Identifier;
use crate::parser::ast::interfaces::Interface;
use crate::parser::ast::traits::Trait;
use crate::parser::ast::variables::Variable;
use vstd::prelude::*;

verus! {

/// A sequence of statements between braces, or the body of a file.
pub type Block = Vec<Statement>;

/// A whole file.
pub type Program = Block;

/// A type as it is written in a declaration.
#[derive(Debug, Clone, PartialEq, Eq)]
pub enum Type {
    Plain(ByteString),
    Nullable(ByteString),
    Union(Vec<ByteString>),
    Intersection(Vec<ByteString>),
}

/// What a `use` statement imports.
#[derive(Debug, Clone, Copy, PartialEq, Eq, Structural)]
pub enum UseKind {
    Normal,
    Function,
    Const,
}

/// The four inclusion forms.
#[derive(Debug, Clone, Copy, PartialEq, Eq, Structural)]
pub enum IncludeKind {
    Include,
    IncludeOnce,
    Require,
    RequireOnce,
}

/// The magic constants that have a token of their own.
#[derive(Debug, Clone, Copy, PartialEq, Eq, Structural)]
pub enum MagicConst {
    Dir,
}

/// The target of a cast.
#[derive(Debug, Clone, Copy, PartialEq, Eq, Structural)]
pub enum CastKind {
    String,
    Object,
    Bool,
    Int,
    Float,
    Unset,
    Array,
}

/// The binary operators.
#[derive(Debug, Clone, Copy, PartialEq, Eq, Structural)]
pub enum InfixOp {
    Add,
    Sub,
    Mul,
    Div,
    Mod,
    Concat,
    LeftShift,
    RightShift,
    BitwiseAnd,
    BitwiseOr,
    BitwiseXor,
    LessThan,
    LessThanEquals,
    GreaterThan,
    GreaterThanEquals,
    Equals,
    Identical,
    NotEquals,
    NotIdentical,
    AngledNotEquals,
    Spaceship,
    And,
    Or,
    LogicalAnd,
    LogicalOr,
    LogicalXor,
    Pow,
    Instanceof,
    Assign,
    AssignRef,
    AddAssign,
    SubAssign,
    MulAssign,
    DivAssign,
    ModAssign,
    PowAssign,
    ConcatAssign,
    BitwiseAndAssign,
    BitwiseOrAssign,
    BitwiseXorAssign,
    LeftShiftAssign,
    RightShiftAssign,
    CoalesceAssign,
}

/// One imported name, with its alias where it has one.
#[derive(Debug, Clone, PartialEq, Eq)]
pub struct Use {
    pub name: Identifier,
    pub alias: Option<Identifier>,
}

impl Use {
    /// Whether every position in the node comes from `tokens` in order, and
    /// every list that the grammar makes non-empty holds an item.
    pub open spec fn valid(self, tokens: Seq<Token>) -> bool
        decreases self,
    {
        &&& self.name.valid(tokens)
        &&& match self.alias {
                Some(x) => x.valid(tokens),
                None => true,
            }
    }
}

/// One constant of a `const` statement.
#[derive(Debug, PartialEq, Eq)]
pub struct Constant {
    pub name: Identifier,
    pub value: Expression,
}

impl Constant {
    /// Whether every position in the node comes from `tokens` in order, and
    /// every list that the grammar makes non-empty holds an item.
    pub open spec fn valid(self, tokens: Seq<Token>) -> bool
        decreases self,
    {
        &&& self.name.valid(tokens)
        &&& self.value.valid(tokens)
    }
}

/// One directive of a `declare`.
#[derive(Debug, PartialEq, Eq)]
pub struct DeclareItem {
    pub key: Identifier,
    pub value: Expression,
}

impl DeclareItem {
    /// Whether every position in the node comes from `tokens` in order, and
    /// every list that the grammar makes non-empty holds an item.
    pub open spec fn valid(self, tokens: Seq<Token>) -> bool
        decreases self,
    {
        &&& self.key.valid(tokens)
        &&& self.value.valid(tokens)
    }
}

/// One variable of a `static` statement.
#[derive(Debug, PartialEq, Eq)]
pub struct StaticVar {
    pub var: Variable,
    pub default: Option<Expression>,
}

impl StaticVar {
    /// Whether every position in the node comes from `tokens` in order, and
    /// every list that the grammar makes non-empty holds an item.
    pub open spec fn valid(self, tokens: Seq<Token>) -> bool
        decreases self,
    {
        &&& self.var.valid(tokens)
        &&& match self.default {
                Some(x) => x.valid(tokens),
                None => true,
            }
    }
}

/// An `elseif` branch.
#[derive(Debug, PartialEq, Eq)]
pub struct ElseIf {
    pub condition: Expression,
    pub body: Vec<Statement>,
}

impl ElseIf {
    /// Whether every position in the node comes from `tokens` in order, and
    /// every list that the grammar makes non-empty holds an item.
    pub open spec fn valid(self, tokens: Seq<Token>) -> bool
        decreases self,
    {
        &&& self.condition.valid(tokens)
        &&& forall|i: int| 0 <= i < self.body@.len() ==> (#[trigger] self.body@[i]).valid(tokens)
    }
}

/// One arm of a `switch`; `condition` is absent for `default`.
#[derive(Debug, PartialEq, Eq)]
pub struct Case {
    pub condition: Option<Expression>,
    pub body: Vec<Statement>,
}

impl Case {
    /// Whether every position in the node comes from `tokens` in order, and
    /// every list that the grammar makes non-empty holds an item.
    pub open spec fn valid(self, tokens: Seq<Token>) -> bool
        decreases self,
    {
        &&& match self.condition {
                Some(x) => x.valid(tokens),
                None => true,
            }
        &&& forall|i: int| 0 <= i < self.body@.len() ==> (#[trigger] self.body@[i]).valid(tokens)
    }
}

/// One `catch` clause.
#[derive(Debug, PartialEq, Eq)]
pub struct Catch {
    pub types: Vec<Identifier>,
    pub var: Option<Variable>,
    pub body: Vec<Statement>,
}

impl Catch {
    /// Whether every position in the node comes from `tokens` in order, and
    /// every list that the grammar makes non-empty holds an item.
    pub open spec fn valid(self, tokens: Seq<Token>) -> bool
        decreases self,
    {
        &&& self.types@.len() > 0
        &&& forall|i: int| 0 <= i < self.types@.len() ==> (#[trigger] self.types@[i]).valid(tokens)
        &&& match self.var {
                Some(x) => x.valid(tokens),
                None => true,
            }
        &&& forall|i: int| 0 <= i < self.body@.len() ==> (#[trigger] self.body@[i]).valid(tokens)
    }
}

/// One argument of a call.
#[derive(Debug, PartialEq, Eq)]
pub struct Arg {
    pub name: Option<Identifier>,
    pub value: Expression,
    pub unpack: bool,
}

impl Arg {
    /// Whether every position in the node comes from `tokens` in order, and
    /// every list that the grammar makes non-empty holds an item.
    pub open spec fn valid(self, tokens: Seq<Token>) -> bool
        decreases self,
    {
        &&& match self.name {
                Some(x) => x.valid(tokens),
                None => true,
            }
        &&& self.value.valid(tokens)
    }
}

/// One item of an array literal.
#[derive(Debug, PartialEq, Eq)]
pub struct ArrayItem {
    pub key: Option<Expression>,
    pub value: Expression,
    pub unpack: bool,
    pub by_ref: bool,
}

impl ArrayItem {
    /// Whether every position in the node comes from `tokens` in order, and
    /// every list that the grammar makes non-empty holds an item.
    pub open spec fn valid(self, tokens: Seq<Token>) -> bool
        decreases self,
    {
        &&& match self.key {
                Some(x) => x.valid(tokens),
                None => true,
            }
        &&& self.value.valid(tokens)
    }
}

/// One arm of a `match` that is not the default.
#[derive(Debug, PartialEq, Eq)]
pub struct MatchArm {
    pub conditions: Vec<Expression>,
    pub body: Expression,
}

impl MatchArm {
    /// Whether every position in the node comes from `tokens` in order, and
    /// every list that the grammar makes non-empty holds an item.
    pub open spec fn valid(self, tokens: Seq<Token>) -> bool
        decreases self,
    {
        &&& self.conditions@.len() > 0
        &&& forall|i: int| 0 <= i < self.conditions@.len() ==> (#[trigger] self.conditions@[i]).valid(tokens)
        &&& self.body.valid(tokens)
    }
}

/// The default arm of a `match`.
#[derive(Debug, PartialEq, Eq)]
pub struct DefaultMatchArm {
    pub body: Expression,
}

impl DefaultMatchArm {
    /// Whether every position in the node comes from `tokens` in order, and
    /// every list that the grammar makes non-empty holds an item.
    pub open spec fn valid(self, tokens: Seq<Token>) -> bool
        decreases self,
    {
        self.body.valid(tokens)
    }
}

/// A piece of an interpolated string: literal bytes or an embedded expression.
#[derive(Debug, PartialEq, Eq)]
pub enum StringPart {
    Const(ByteString),
    Expr(Box<Expression>),
}

impl StringPart {
    /// Whether every position in the node comes from `tokens` in order, and
    /// every list that the grammar makes non-empty holds an item.
    pub open spec fn valid(self, tokens: Seq<Token>) -> bool
        decreases self,
    {
        match self {
            StringPart::Const(_) => true,
            StringPart::Expr(x) => x.valid(tokens),
        }
    }
}

/// A statement.
#[derive(Debug, PartialEq, Eq)]
pub enum Statement {
    InlineHtml(ByteString),
    Namespace { name: Identifier, body: Vec<Statement> },
    BracedNamespace { name: Option<Identifier>, body: Vec<Statement> },
    Use { uses: Vec<Use>, kind: UseKind },
    GroupUse { prefix: Identifier, kind: UseKind, uses: Vec<Use> },
    Constant { constants: Vec<Constant> },
    Expression { expr: Expression },
    Echo { values: Vec<Expression> },
    Return { value: Option<Expression> },
    If {
        condition: Expression,
        then: Vec<Statement>,
        else_ifs: Vec<ElseIf>,
        otherwise: Option<Vec<Statement>>,
    },
    While { condition: Expression, body: Vec<Statement> },
    DoWhile { body: Vec<Statement>, condition: Expression },
    For {
        init: Vec<Expression>,
        condition: Vec<Expression>,
        step: Vec<Expression>,
        body: Vec<Statement>,
    },
    Foreach {
        expr: Expression,
        by_ref: bool,
        key_var: Option<Expression>,
        value_var: Expression,
        body: Vec<Statement>,
    },
    Switch { condition: Expression, cases: Vec<Case> },
    Break { level: Option<Expression> },
    Continue { level: Option<Expression> },
    Try { body: Vec<Statement>, catches: Vec<Catch>, finally: Option<Vec<Statement>> },
    Throw { value: Expression },
    Goto { label: Identifier },
    Label { label: Identifier },
    Declare { declares: Vec<DeclareItem>, body: Vec<Statement> },
    Global { vars: Vec<Variable> },
    Static { vars: Vec<StaticVar> },
    HaltCompiler { content: Option<ByteString> },
    Function(Function),
    Class(Class),
    Interface(Interface),
    Trait(Trait),
    Enum(Enum),
    Block { body: Vec<Statement> },
    Noop,
    Comment(Comment),
}

impl Statement {
    /// Whether every position in the node comes from `tokens` in order, and
    /// every list that the grammar makes non-empty holds an item.
    pub open spec fn valid(self, tokens: Seq<Token>) -> bool
        decreases self,
    {
        match self {
            Statement::InlineHtml(_) => true,
            Statement::Namespace { name, body } => {
                &&& name.valid(tokens)
                &&& forall|i: int| 0 <= i < body@.len() ==> (#[trigger] body@[i]).valid(tokens)
            },
            Statement::BracedNamespace { name, body } => {
                &&& match name {
                        Some(x) => x.valid(tokens),
                        None => true,
                    }
                &&& forall|i: int| 0 <= i < body@.len() ==> (#[trigger] body@[i]).valid(tokens)
            },
            Statement::Use { uses, .. } => {
                &&& uses@.len() > 0
                &&& forall|i: int| 0 <= i < uses@.len() ==> (#[trigger] uses@[i]).valid(tokens)
            },
            Statement::GroupUse { prefix, uses, .. } => {
                &&& prefix.valid(tokens)
                &&& uses@.len() > 0
                &&& forall|i: int| 0 <= i < uses@.len() ==> (#[trigger] uses@[i]).valid(tokens)
            },
            Statement::Constant { constants } => {
                &&& constants@.len() > 0
                &&& forall|i: int| 0 <= i < constants@.len() ==> (#[trigger] constants@[i]).valid(tokens)
            },
            Statement::Expression { expr } => expr.valid(tokens),
            Statement::Echo { values } => {
                &&& values@.len() > 0
                &&& forall|i: int| 0 <= i < values@.len() ==> (#[trigger] values@[i]).valid(tokens)
            },
            Statement::Return { value } => {
                match value {
                    Some(x) => x.valid(tokens),
                    None => true,
                }
            },
            Statement::If { condition, then, else_ifs, otherwise } => {
                &&& condition.valid(tokens)
                &&& forall|i: int| 0 <= i < then@.len() ==> (#[trigger] then@[i]).valid(tokens)
                &&& forall|i: int| 0 <= i < else_ifs@.len() ==> (#[trigger] else_ifs@[i]).valid(tokens)
                &&& match otherwise {
                        Some(x) => forall|i: int| 0 <= i < x@.len() ==> (#[trigger] x@[i]).valid(tokens),
                        None => true,
                    }
            },
            Statement::While { condition, body } => {
                &&& condition.valid(tokens)
                &&& forall|i: int| 0 <= i < body@.len() ==> (#[trigger] body@[i]).valid(tokens)
            },
            Statement::DoWhile { body, condition } => {
                &&& forall|i: int| 0 <= i < body@.len() ==> (#[trigger] body@[i]).valid(tokens)
                &&& condition.valid(tokens)
            },
            Statement::For { init, condition, step, body } => {
                &&& forall|i: int| 0 <= i < init@.len() ==> (#[trigger] init@[i]).valid(tokens)
                &&& forall|i: int| 0 <= i < condition@.len() ==> (#[trigger] condition@[i]).valid(tokens)
                &&& forall|i: int| 0 <= i < step@.len() ==> (#[trigger] step@[i]).valid(tokens)
                &&& forall|i: int| 0 <= i < body@.len() ==> (#[trigger] body@[i]).valid(tokens)
            },
            Statement::Foreach { expr, key_var, value_var, body, .. } => {
                &&& expr.valid(tokens)
                &&& match key_var {
                        Some(x) => x.valid(tokens),
                        None => true,
                    }
                &&& value_var.valid(tokens)
                &&& forall|i: int| 0 <= i < body@.len() ==> (#[trigger] body@[i]).valid(tokens)
            },
            Statement::Switch { condition, cases } => {
                &&& condition.valid(tokens)
                &&& forall|i: int| 0 <= i < cases@.len() ==> (#[trigger] cases@[i]).valid(tokens)
            },
            Statement::Break { level } => {
                match level {
                    Some(x) => x.valid(tokens),
                    None => true,
                }
            },
            Statement::Continue { level } => {
                match level {
                    Some(x) => x.valid(tokens),
                    None => true,
                }
            },
            Statement::Try { body, catches, finally } => {
                &&& forall|i: int| 0 <= i < body@.len() ==> (#[trigger] body@[i]).valid(tokens)
                &&& forall|i: int| 0 <= i < catches@.len() ==> (#[trigger] catches@[i]).valid(tokens)
                &&& match finally {
                        Some(x) => forall|i: int| 0 <= i < x@.len() ==> (#[trigger] x@[i]).valid(tokens),
                        None => true,
                    }
            },
            Statement::Throw { value } => value.valid(tokens),
            Statement::Goto { label } => label.valid(tokens),
            Statement::Label { label } => label.valid(tokens),
            Statement::Declare { declares, body } => {
                &&& declares@.len() > 0
                &&& forall|i: int| 0 <= i < declares@.len() ==> (#[trigger] declares@[i]).valid(tokens)
                &&& forall|i: int| 0 <= i < body@.len() ==> (#[trigger] body@[i]).valid(tokens)
            },
            Statement::Global { vars } => {
                &&& vars@.len() > 0
                &&& forall|i: int| 0 <= i < vars@.len() ==> (#[trigger] vars@[i]).valid(tokens)
            },
            Statement::Static { vars } => {
                &&& vars@.len() > 0
                &&& forall|i: int| 0 <= i < vars@.len() ==> (#[trigger] vars@[i]).valid(tokens)
            },
            Statement::HaltCompiler { .. } => true,
            Statement::Function(x) => x.valid(tokens),
            Statement::Class(x) => x.valid(tokens),
            Statement::Interface(x) => x.valid(tokens),
            Statement::Trait(x) => x.valid(tokens),
            Statement::Enum(x) => x.valid(tokens),
            Statement::Block { body } => {
                forall|i: int| 0 <= i < body@.len() ==> (#[trigger] body@[i]).valid(tokens)
            },
            Statement::Noop => true,
            Statement::Comment(x) => x.valid(tokens),
        }
    }
}

/// An expression. Precedence and associativity are resolved in the shape of the tree; no node records a pair of parentheses.
#[derive(Debug, PartialEq, Eq)]
pub enum Expression {
    LiteralInteger { i: ByteString },
    LiteralFloat { f: ByteString },
    LiteralString { value: ByteString },
    Bool { value: bool },
    Null,
    Variable(Variable),
    DynamicVariable { name: Box<Expression> },
    Identifier(Identifier),
    Self_,
    Static,
    Parent,
    Array { items: Vec<ArrayItem> },
    List { items: Vec<Option<ArrayItem>> },
    InterpolatedString { parts: Vec<StringPart> },
    Heredoc { parts: Vec<StringPart> },
    Nowdoc { value: ByteString },
    ShellExec { parts: Vec<StringPart> },
    Call { target: Box<Expression>, args: Vec<Arg> },
    MethodCall { target: Box<Expression>, method: Box<Expression>, args: Vec<Arg> },
    NullsafeMethodCall { target: Box<Expression>, method: Box<Expression>, args: Vec<Arg> },
    StaticMethodCall { target: Box<Expression>, method: Box<Expression>, args: Vec<Arg> },
    PropertyFetch { target: Box<Expression>, property: Box<Expression> },
    NullsafePropertyFetch { target: Box<Expression>, property: Box<Expression> },
    StaticPropertyFetch { target: Box<Expression>, property: Box<Expression> },
    ConstFetch { target: Box<Expression>, constant: Identifier },
    ArrayIndex { array: Box<Expression>, index: Option<Box<Expression>> },
    New { target: Box<Expression>, args: Vec<Arg> },
    Clone { target: Box<Expression> },
    Throw { value: Box<Expression> },
    Yield { key: Option<Box<Expression>>, value: Option<Box<Expression>> },
    YieldFrom { value: Box<Expression> },
    Match {
        condition: Box<Expression>,
        arms: Vec<MatchArm>,
        default: Option<Box<DefaultMatchArm>>,
    },
    Ternary {
        condition: Box<Expression>,
        then: Option<Box<Expression>>,
        otherwise: Box<Expression>,
    },
    Coalesce { lhs: Box<Expression>, rhs: Box<Expression> },
    Infix { lhs: Box<Expression>, op: InfixOp, rhs: Box<Expression> },
    Negate { value: Box<Expression> },
    UnaryPlus { value: Box<Expression> },
    BitwiseNot { value: Box<Expression> },
    BooleanNot { value: Box<Expression> },
    PreIncrement { value: Box<Expression> },
    PreDecrement { value: Box<Expression> },
    Increment { value: Box<Expression> },
    Decrement { value: Box<Expression> },
    Cast { kind: CastKind, value: Box<Expression> },
    ErrorSuppress { expr: Box<Expression> },
    Print { value: Box<Expression> },
    MagicConst { constant: MagicConst },
    Include { kind: IncludeKind, path: Box<Expression> },
    AnonymousFunction(Closure),
    ArrowFunction(ArrowFunction),
    AnonymousClass(AnonymousClass),
}

impl Expression {
    /// Whether every position in the node comes from `tokens` in order, and
    /// every list that the grammar makes non-empty holds an item.
    pub open spec fn valid(self, tokens: Seq<Token>) -> bool
        decreases self,
    {
        match self {
            Expression::LiteralInteger { .. } => true,
            Expression::LiteralFloat { .. } => true,
            Expression::LiteralString { .. } => true,
            Expression::Bool { .. } => true,
            Expression::Null => true,
            Expression::Variable(x) => x.valid(tokens),
            Expression::DynamicVariable { name } => name.valid(tokens),
            Expression::Identifier(x) => x.valid(tokens),
            Expression::Self_ => true,
            Expression::Static => true,
            Expression::Parent => true,
            Expression::Array { items } => {
                forall|i: int| 0 <= i < items@.len() ==> (#[trigger] items@[i]).valid(tokens)
            },
            Expression::List { items } => {
                forall|i: int| 0 <= i < items@.len() ==> match (#[trigger] items@[i]) {
                    Some(x) => x.valid(tokens),
                    None => true,
                }
            },
            Expression::InterpolatedString { parts } => {
                forall|i: int| 0 <= i < parts@.len() ==> (#[trigger] parts@[i]).valid(tokens)
            },
            Expression::Heredoc { parts } => {
                forall|i: int| 0 <= i < parts@.len() ==> (#[trigger] parts@[i]).valid(tokens)
            },
            Expression::Nowdoc { .. } => true,
            Expression::ShellExec { parts } => {
                forall|i: int| 0 <= i < parts@.len() ==> (#[trigger] parts@[i]).valid(tokens)
            },
            Expression::Call { target, args } => {
                &&& target.valid(tokens)
                &&& forall|i: int| 0 <= i < args@.len() ==> (#[trigger] args@[i]).valid(tokens)
            },
            Expression::MethodCall { target, method, args } => {
                &&& target.valid(tokens)
                &&& method.valid(tokens)
                &&& forall|i: int| 0 <= i < args@.len() ==> (#[trigger] args@[i]).valid(tokens)
            },
            Expression::NullsafeMethodCall { target, method, args } => {
                &&& target.valid(tokens)
                &&& method.valid(tokens)
                &&& forall|i: int| 0 <= i < args@.len() ==> (#[trigger] args@[i]).valid(tokens)
            },
            Expression::StaticMethodCall { target, method, args } => {
                &&& target.valid(tokens)
                &&& method.valid(tokens)
                &&& forall|i: int| 0 <= i < args@.len() ==> (#[trigger] args@[i]).valid(tokens)
            },
            Expression::PropertyFetch { target, property } => {
                &&& target.valid(tokens)
                &&& property.valid(tokens)
            },
            Expression::NullsafePropertyFetch { target, property } => {
                &&& target.valid(tokens)
                &&& property.valid(tokens)
            },
            Expression::StaticPropertyFetch { target, property } => {
                &&& target.valid(tokens)
                &&& property.valid(tokens)
            },
            Expression::ConstFetch { target, constant } => {
                &&& target.valid(tokens)
                &&& constant.valid(tokens)
            },
            Expression::ArrayIndex { array, index } => {
                &&& array.valid(tokens)
                &&& match index {
                        Some(x) => x.valid(tokens),
                        None => true,
                    }
            },
            Expression::New { target, args } => {
                &&& target.valid(tokens)
                &&& forall|i: int| 0 <= i < args@.len() ==> (#[trigger] args@[i]).valid(tokens)
            },
            Expression::Clone { target } => target.valid(tokens),
            Expression::Throw { value } => value.valid(tokens),
            Expression::Yield { key, value } => {
                &&& match key {
                        Some(x) => x.valid(tokens),
                        None => true,
                    }
                &&& match value {
                        Some(x) => x.valid(tokens),
                        None => true,
                    }
            },
            Expression::YieldFrom { value } => value.valid(tokens),
            Expression::Match { condition, arms, default } => {
                &&& condition.valid(tokens)
                &&& forall|i: int| 0 <= i < arms@.len() ==> (#[trigger] arms@[i]).valid(tokens)
                &&& match default {
                        Some(x) => x.valid(tokens),
                        None => true,
                    }
            },
            Expression::Ternary { condition, then, otherwise } => {
                &&& condition.valid(tokens)
                &&& match then {
                        Some(x) => x.valid(tokens),
                        None => true,
                    }
                &&& otherwise.valid(tokens)
            },
            Expression::Coalesce { lhs, rhs } => {
                &&& lhs.valid(tokens)
                &&& rhs.valid(tokens)
            },
            Expression::Infix { lhs, rhs, .. } => {
                &&& lhs.valid(tokens)
                &&& rhs.valid(tokens)
            },
            Expression::Negate { value } => value.valid(tokens),
            Expression::UnaryPlus { value } => value.valid(tokens),
            Expression::BitwiseNot { value } => value.valid(tokens),
            Expression::BooleanNot { value } => value.valid(tokens),
            Expression::PreIncrement { value } => value.valid(tokens),
            Expression::PreDecrement { value } => value.valid(tokens),
            Expression::Increment { value } => value.valid(tokens),
            Expression::Decrement { value } => value.valid(tokens),
            Expression::Cast { value, .. } => value.valid(tokens),
            Expression::ErrorSuppress { expr } => expr.valid(tokens),
            Expression::Print { value } => value.valid(tokens),
            Expression::MagicConst { .. } => true,
            Expression::Include { path, .. } => path.valid(tokens),
            Expression::AnonymousFunction(x) => x.valid(tokens),
            Expression::ArrowFunction(x) => x.valid(tokens),
            Expression::AnonymousClass(x) => x.valid(tokens),
        }
    }
}

} // verus!
