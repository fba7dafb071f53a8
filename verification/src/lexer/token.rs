use vstd::prelude::*;
use vstd::slice::slice_to_vec;
use vstd::string::StringSliceAdditionalSpecFns;

verus! {

/// A sequence of raw source bytes. PHP source is byte-oriented, so names,
/// literals and token texts are kept as bytes rather than as UTF-8 strings.
pub type ByteString = Vec<u8>;

/// A position in the source: line, column and absolute byte offset.
#[derive(Debug, Clone, Copy, PartialEq, Eq, Structural)]
pub struct Span {
    pub line: usize,
    pub column: usize,
    pub position: usize,
}

impl Span {
    /// The position at the very start of the source.
    pub fn new(line: usize, column: usize, position: usize) -> (s: Span)
        ensures
            s == (Span { line, column, position }),
    {
        Span { line, column, position }
    }
}

/// The three spellings of an opening tag.
#[derive(Debug, Clone, Copy, PartialEq, Eq, Structural)]
pub enum OpenTagKind {
    Full,
    Echo,
    Short,
}

/// Whether a doc string interpolates (heredoc) or not (nowdoc).
#[derive(Debug, Clone, Copy, PartialEq, Eq, Structural)]
pub enum DocStringKind {
    Heredoc,
    Nowdoc,
}

/// The character with which the closing label of a doc string is indented.
#[derive(Debug, Clone, Copy, PartialEq, Eq, Structural)]
pub enum DocStringIndentationKind {
    Space,
    Tab,
}

impl DocStringIndentationKind {
    pub open spec fn byte_spec(self) -> u8 {
        match self {
            DocStringIndentationKind::Space => 32u8,
            DocStringIndentationKind::Tab => 9u8,
        }
    }

    /// The indentation character as a byte.
    pub fn byte(&self) -> (b: u8)
        ensures
            b == self.byte_spec(),
    {
        match self {
            DocStringIndentationKind::Space => 32u8,
            DocStringIndentationKind::Tab => 9u8,
        }
    }
}

/// The bytes of a string literal.
pub fn bytes(s: &str) -> (r: ByteString)
    ensures
        r@ == s.spec_bytes(),
{
    slice_to_vec(s.as_bytes())
}

/// Every kind of token that the parser accepts from a lexer.
#[derive(Debug, Clone, PartialEq, Eq)]
pub enum TokenKind {
    Abstract,
    Array,
    As,
    Break,
    Callable,
    Case,
    Catch,
    Class,
    Clone,
    Const,
    Continue,
    Declare,
    Default,
    Do,
    Echo,
    Else,
    ElseIf,
    EndDeclare,
    EndFor,
    EndForeach,
    EndIf,
    EndSwitch,
    EndWhile,
    Enum,
    Extends,
    False,
    Final,
    Finally,
    Fn,
    For,
    Foreach,
    From,
    Function,
    Global,
    Goto,
    HaltCompiler,
    If,
    Implements,
    Include,
    IncludeOnce,
    Instanceof,
    Insteadof,
    Interface,
    List,
    LogicalAnd,
    LogicalOr,
    LogicalXor,
    Match,
    Namespace,
    New,
    Null,
    Parent,
    Print,
    Private,
    Protected,
    Public,
    Readonly,
    Require,
    RequireOnce,
    Return,
    Self_,
    Static,
    Switch,
    Throw,
    Trait,
    True,
    Try,
    Use,
    Var,
    While,
    Yield,
    DirConstant,
    StringCast,
    BinaryCast,
    ObjectCast,
    BoolCast,
    BooleanCast,
    IntCast,
    IntegerCast,
    FloatCast,
    DoubleCast,
    RealCast,
    UnsetCast,
    ArrayCast,
    Ampersand,
    AmpersandEquals,
    AngledLeftRight,
    Arrow,
    NullsafeArrow,
    At,
    Asterisk,
    AsteriskEqual,
    Attribute,
    Backtick,
    Bang,
    BangDoubleEquals,
    BangEquals,
    BitwiseNot,
    BooleanAnd,
    BooleanOr,
    Caret,
    CaretEquals,
    CloseTag,
    Coalesce,
    CoalesceEqual,
    Colon,
    Comma,
    Decrement,
    Dollar,
    DollarLeftBrace,
    Dot,
    DotEquals,
    DoubleArrow,
    DoubleColon,
    DoubleEquals,
    DoubleQuote,
    Ellipsis,
    Equals,
    GreaterThan,
    GreaterThanEquals,
    Increment,
    LeftBrace,
    LeftBracket,
    LeftParen,
    LeftShift,
    LeftShiftEquals,
    LessThan,
    LessThanEquals,
    Minus,
    MinusEquals,
    NamespaceSeparator,
    Percent,
    PercentEquals,
    Pipe,
    PipeEquals,
    Plus,
    PlusEquals,
    Pow,
    PowEquals,
    Question,
    QuestionColon,
    RightBrace,
    RightBracket,
    RightParen,
    RightShift,
    RightShiftEquals,
    SemiColon,
    Slash,
    SlashEquals,
    Spaceship,
    TripleEquals,
    Identifier(ByteString),
    QualifiedIdentifier(ByteString),
    FullyQualifiedIdentifier(ByteString),
    Variable(ByteString),
    LiteralInteger(ByteString),
    LiteralFloat(ByteString),
    LiteralString(ByteString),
    StringPart(ByteString),
    InlineHtml(ByteString),
    SingleLineComment(ByteString),
    MultiLineComment(ByteString),
    HashMarkComment(ByteString),
    DocumentComment(ByteString),
    OpenTag(OpenTagKind),
    StartDocString(ByteString, DocStringKind),
    EndDocString(ByteString, Option<DocStringIndentationKind>, usize),
    Eof,
}

impl TokenKind {
    /// The token as it is written in source, for use in diagnostics.
    pub open spec fn text_spec(self) -> Seq<u8> {
        match self {
            TokenKind::Abstract => "abstract".spec_bytes(),
            TokenKind::Array => "array".spec_bytes(),
            TokenKind::As => "as".spec_bytes(),
            TokenKind::Break => "break".spec_bytes(),
            TokenKind::Callable => "callable".spec_bytes(),
            TokenKind::Case => "case".spec_bytes(),
            TokenKind::Catch => "catch".spec_bytes(),
            TokenKind::Class => "class".spec_bytes(),
            TokenKind::Clone => "clone".spec_bytes(),
            TokenKind::Const => "const".spec_bytes(),
            TokenKind::Continue => "continue".spec_bytes(),
            TokenKind::Declare => "declare".spec_bytes(),
            TokenKind::Default => "default".spec_bytes(),
            TokenKind::Do => "do".spec_bytes(),
            TokenKind::Echo => "echo".spec_bytes(),
            TokenKind::Else => "else".spec_bytes(),
            TokenKind::ElseIf => "elseif".spec_bytes(),
            TokenKind::EndDeclare => "enddeclare".spec_bytes(),
            TokenKind::EndFor => "endfor".spec_bytes(),
            TokenKind::EndForeach => "endforeach".spec_bytes(),
            TokenKind::EndIf => "endif".spec_bytes(),
            TokenKind::EndSwitch => "endswitch".spec_bytes(),
            TokenKind::EndWhile => "endwhile".spec_bytes(),
            TokenKind::Enum => "enum".spec_bytes(),
            TokenKind::Extends => "extends".spec_bytes(),
            TokenKind::False => "false".spec_bytes(),
            TokenKind::Final => "final".spec_bytes(),
            TokenKind::Finally => "finally".spec_bytes(),
            TokenKind::Fn => "fn".spec_bytes(),
            TokenKind::For => "for".spec_bytes(),
            TokenKind::Foreach => "foreach".spec_bytes(),
            TokenKind::From => "from".spec_bytes(),
            TokenKind::Function => "function".spec_bytes(),
            TokenKind::Global => "global".spec_bytes(),
            TokenKind::Goto => "goto".spec_bytes(),
            TokenKind::HaltCompiler => "__halt_compiler".spec_bytes(),
            TokenKind::If => "if".spec_bytes(),
            TokenKind::Implements => "implements".spec_bytes(),
            TokenKind::Include => "include".spec_bytes(),
            TokenKind::IncludeOnce => "include_once".spec_bytes(),
            TokenKind::Instanceof => "instanceof".spec_bytes(),
            TokenKind::Insteadof => "insteadof".spec_bytes(),
            TokenKind::Interface => "interface".spec_bytes(),
            TokenKind::List => "list".spec_bytes(),
            TokenKind::LogicalAnd => "and".spec_bytes(),
            TokenKind::LogicalOr => "or".spec_bytes(),
            TokenKind::LogicalXor => "xor".spec_bytes(),
            TokenKind::Match => "match".spec_bytes(),
            TokenKind::Namespace => "namespace".spec_bytes(),
            TokenKind::New => "new".spec_bytes(),
            TokenKind::Null => "null".spec_bytes(),
            TokenKind::Parent => "parent".spec_bytes(),
            TokenKind::Print => "print".spec_bytes(),
            TokenKind::Private => "private".spec_bytes(),
            TokenKind::Protected => "protected".spec_bytes(),
            TokenKind::Public => "public".spec_bytes(),
            TokenKind::Readonly => "readonly".spec_bytes(),
            TokenKind::Require => "require".spec_bytes(),
            TokenKind::RequireOnce => "require_once".spec_bytes(),
            TokenKind::Return => "return".spec_bytes(),
            TokenKind::Self_ => "self".spec_bytes(),
            TokenKind::Static => "static".spec_bytes(),
            TokenKind::Switch => "switch".spec_bytes(),
            TokenKind::Throw => "throw".spec_bytes(),
            TokenKind::Trait => "trait".spec_bytes(),
            TokenKind::True => "true".spec_bytes(),
            TokenKind::Try => "try".spec_bytes(),
            TokenKind::Use => "use".spec_bytes(),
            TokenKind::Var => "var".spec_bytes(),
            TokenKind::While => "while".spec_bytes(),
            TokenKind::Yield => "yield".spec_bytes(),
            TokenKind::DirConstant => "__DIR__".spec_bytes(),
            TokenKind::StringCast => "(string)".spec_bytes(),
            TokenKind::BinaryCast => "(binary)".spec_bytes(),
            TokenKind::ObjectCast => "(object)".spec_bytes(),
            TokenKind::BoolCast => "(bool)".spec_bytes(),
            TokenKind::BooleanCast => "(boolean)".spec_bytes(),
            TokenKind::IntCast => "(int)".spec_bytes(),
            TokenKind::IntegerCast => "(integer)".spec_bytes(),
            TokenKind::FloatCast => "(float)".spec_bytes(),
            TokenKind::DoubleCast => "(double)".spec_bytes(),
            TokenKind::RealCast => "(real)".spec_bytes(),
            TokenKind::UnsetCast => "(unset)".spec_bytes(),
            TokenKind::ArrayCast => "(array)".spec_bytes(),
            TokenKind::Ampersand => "&".spec_bytes(),
            TokenKind::AmpersandEquals => "&=".spec_bytes(),
            TokenKind::AngledLeftRight => "<>".spec_bytes(),
            TokenKind::Arrow => "->".spec_bytes(),
            TokenKind::NullsafeArrow => "?->".spec_bytes(),
            TokenKind::At => "@".spec_bytes(),
            TokenKind::Asterisk => "*".spec_bytes(),
            TokenKind::AsteriskEqual => "*=".spec_bytes(),
            TokenKind::Attribute => "#[".spec_bytes(),
            TokenKind::Backtick => "`".spec_bytes(),
            TokenKind::Bang => "!".spec_bytes(),
            TokenKind::BangDoubleEquals => "!==".spec_bytes(),
            TokenKind::BangEquals => "!=".spec_bytes(),
            TokenKind::BitwiseNot => "~".spec_bytes(),
            TokenKind::BooleanAnd => "&&".spec_bytes(),
            TokenKind::BooleanOr => "||".spec_bytes(),
            TokenKind::Caret => "^".spec_bytes(),
            TokenKind::CaretEquals => "^=".spec_bytes(),
            TokenKind::CloseTag => "?>".spec_bytes(),
            TokenKind::Coalesce => "??".spec_bytes(),
            TokenKind::CoalesceEqual => "??=".spec_bytes(),
            TokenKind::Colon => ":".spec_bytes(),
            TokenKind::Comma => ",".spec_bytes(),
            TokenKind::Decrement => "--".spec_bytes(),
            TokenKind::Dollar => "$".spec_bytes(),
            TokenKind::DollarLeftBrace => "${".spec_bytes(),
            TokenKind::Dot => ".".spec_bytes(),
            TokenKind::DotEquals => ".=".spec_bytes(),
            TokenKind::DoubleArrow => "=>".spec_bytes(),
            TokenKind::DoubleColon => "::".spec_bytes(),
            TokenKind::DoubleEquals => "==".spec_bytes(),
            TokenKind::DoubleQuote => "\"".spec_bytes(),
            TokenKind::Ellipsis => "...".spec_bytes(),
            TokenKind::Equals => "=".spec_bytes(),
            TokenKind::GreaterThan => ">".spec_bytes(),
            TokenKind::GreaterThanEquals => ">=".spec_bytes(),
            TokenKind::Increment => "++".spec_bytes(),
            TokenKind::LeftBrace => "{".spec_bytes(),
            TokenKind::LeftBracket => "[".spec_bytes(),
            TokenKind::LeftParen => "(".spec_bytes(),
            TokenKind::LeftShift => "<<".spec_bytes(),
            TokenKind::LeftShiftEquals => "<<=".spec_bytes(),
            TokenKind::LessThan => "<".spec_bytes(),
            TokenKind::LessThanEquals => "<=".spec_bytes(),
            TokenKind::Minus => "-".spec_bytes(),
            TokenKind::MinusEquals => "-=".spec_bytes(),
            TokenKind::NamespaceSeparator => "\\".spec_bytes(),
            TokenKind::Percent => "%".spec_bytes(),
            TokenKind::PercentEquals => "%=".spec_bytes(),
            TokenKind::Pipe => "|".spec_bytes(),
            TokenKind::PipeEquals => "|=".spec_bytes(),
            TokenKind::Plus => "+".spec_bytes(),
            TokenKind::PlusEquals => "+=".spec_bytes(),
            TokenKind::Pow => "**".spec_bytes(),
            TokenKind::PowEquals => "**=".spec_bytes(),
            TokenKind::Question => "?".spec_bytes(),
            TokenKind::QuestionColon => "?:".spec_bytes(),
            TokenKind::RightBrace => "}".spec_bytes(),
            TokenKind::RightBracket => "]".spec_bytes(),
            TokenKind::RightParen => ")".spec_bytes(),
            TokenKind::RightShift => ">>".spec_bytes(),
            TokenKind::RightShiftEquals => ">>=".spec_bytes(),
            TokenKind::SemiColon => ";".spec_bytes(),
            TokenKind::Slash => "/".spec_bytes(),
            TokenKind::SlashEquals => "/=".spec_bytes(),
            TokenKind::Spaceship => "<=>".spec_bytes(),
            TokenKind::TripleEquals => "===".spec_bytes(),
            TokenKind::Eof => "end of file".spec_bytes(),
            TokenKind::Identifier(b) => b@,
            TokenKind::QualifiedIdentifier(b) => b@,
            TokenKind::FullyQualifiedIdentifier(b) => b@,
            TokenKind::Variable(b) => "$".spec_bytes() + b@,
            TokenKind::LiteralInteger(b) => b@,
            TokenKind::LiteralFloat(b) => b@,
            TokenKind::LiteralString(b) => b@,
            TokenKind::StringPart(b) => b@,
            TokenKind::InlineHtml(b) => b@,
            TokenKind::SingleLineComment(b) => b@,
            TokenKind::MultiLineComment(b) => b@,
            TokenKind::HashMarkComment(b) => b@,
            TokenKind::DocumentComment(b) => b@,
            TokenKind::OpenTag(k) => match k {
                OpenTagKind::Full => "<?php".spec_bytes(),
                OpenTagKind::Echo => "<?=".spec_bytes(),
                OpenTagKind::Short => "<?".spec_bytes(),
            },
            TokenKind::StartDocString(label, _) => "<<<".spec_bytes() + label@,
            TokenKind::EndDocString(label, _, _) => label@,
        }
    }

    /// Renders the token as it is written in source.
    pub fn text(&self) -> (r: ByteString)
        ensures
            r@ == self.text_spec(),
    {
        match self {
            TokenKind::Abstract => bytes("abstract"),
            TokenKind::Array => bytes("array"),
            TokenKind::As => bytes("as"),
            TokenKind::Break => bytes("break"),
            TokenKind::Callable => bytes("callable"),
            TokenKind::Case => bytes("case"),
            TokenKind::Catch => bytes("catch"),
            TokenKind::Class => bytes("class"),
            TokenKind::Clone => bytes("clone"),
            TokenKind::Const => bytes("const"),
            TokenKind::Continue => bytes("continue"),
            TokenKind::Declare => bytes("declare"),
            TokenKind::Default => bytes("default"),
            TokenKind::Do => bytes("do"),
            TokenKind::Echo => bytes("echo"),
            TokenKind::Else => bytes("else"),
            TokenKind::ElseIf => bytes("elseif"),
            TokenKind::EndDeclare => bytes("enddeclare"),
            TokenKind::EndFor => bytes("endfor"),
            TokenKind::EndForeach => bytes("endforeach"),
            TokenKind::EndIf => bytes("endif"),
            TokenKind::EndSwitch => bytes("endswitch"),
            TokenKind::EndWhile => bytes("endwhile"),
            TokenKind::Enum => bytes("enum"),
            TokenKind::Extends => bytes("extends"),
            TokenKind::False => bytes("false"),
            TokenKind::Final => bytes("final"),
            TokenKind::Finally => bytes("finally"),
            TokenKind::Fn => bytes("fn"),
            TokenKind::For => bytes("for"),
            TokenKind::Foreach => bytes("foreach"),
            TokenKind::From => bytes("from"),
            TokenKind::Function => bytes("function"),
            TokenKind::Global => bytes("global"),
            TokenKind::Goto => bytes("goto"),
            TokenKind::HaltCompiler => bytes("__halt_compiler"),
            TokenKind::If => bytes("if"),
            TokenKind::Implements => bytes("implements"),
            TokenKind::Include => bytes("include"),
            TokenKind::IncludeOnce => bytes("include_once"),
            TokenKind::Instanceof => bytes("instanceof"),
            TokenKind::Insteadof => bytes("insteadof"),
            TokenKind::Interface => bytes("interface"),
            TokenKind::List => bytes("list"),
            TokenKind::LogicalAnd => bytes("and"),
            TokenKind::LogicalOr => bytes("or"),
            TokenKind::LogicalXor => bytes("xor"),
            TokenKind::Match => bytes("match"),
            TokenKind::Namespace => bytes("namespace"),
            TokenKind::New => bytes("new"),
            TokenKind::Null => bytes("null"),
            TokenKind::Parent => bytes("parent"),
            TokenKind::Print => bytes("print"),
            TokenKind::Private => bytes("private"),
            TokenKind::Protected => bytes("protected"),
            TokenKind::Public => bytes("public"),
            TokenKind::Readonly => bytes("readonly"),
            TokenKind::Require => bytes("require"),
            TokenKind::RequireOnce => bytes("require_once"),
            TokenKind::Return => bytes("return"),
            TokenKind::Self_ => bytes("self"),
            TokenKind::Static => bytes("static"),
            TokenKind::Switch => bytes("switch"),
            TokenKind::Throw => bytes("throw"),
            TokenKind::Trait => bytes("trait"),
            TokenKind::True => bytes("true"),
            TokenKind::Try => bytes("try"),
            TokenKind::Use => bytes("use"),
            TokenKind::Var => bytes("var"),
            TokenKind::While => bytes("while"),
            TokenKind::Yield => bytes("yield"),
            TokenKind::DirConstant => bytes("__DIR__"),
            TokenKind::StringCast => bytes("(string)"),
            TokenKind::BinaryCast => bytes("(binary)"),
            TokenKind::ObjectCast => bytes("(object)"),
            TokenKind::BoolCast => bytes("(bool)"),
            TokenKind::BooleanCast => bytes("(boolean)"),
            TokenKind::IntCast => bytes("(int)"),
            TokenKind::IntegerCast => bytes("(integer)"),
            TokenKind::FloatCast => bytes("(float)"),
            TokenKind::DoubleCast => bytes("(double)"),
            TokenKind::RealCast => bytes("(real)"),
            TokenKind::UnsetCast => bytes("(unset)"),
            TokenKind::ArrayCast => bytes("(array)"),
            TokenKind::Ampersand => bytes("&"),
            TokenKind::AmpersandEquals => bytes("&="),
            TokenKind::AngledLeftRight => bytes("<>"),
            TokenKind::Arrow => bytes("->"),
            TokenKind::NullsafeArrow => bytes("?->"),
            TokenKind::At => bytes("@"),
            TokenKind::Asterisk => bytes("*"),
            TokenKind::AsteriskEqual => bytes("*="),
            TokenKind::Attribute => bytes("#["),
            TokenKind::Backtick => bytes("`"),
            TokenKind::Bang => bytes("!"),
            TokenKind::BangDoubleEquals => bytes("!=="),
            TokenKind::BangEquals => bytes("!="),
            TokenKind::BitwiseNot => bytes("~"),
            TokenKind::BooleanAnd => bytes("&&"),
            TokenKind::BooleanOr => bytes("||"),
            TokenKind::Caret => bytes("^"),
            TokenKind::CaretEquals => bytes("^="),
            TokenKind::CloseTag => bytes("?>"),
            TokenKind::Coalesce => bytes("??"),
            TokenKind::CoalesceEqual => bytes("??="),
            TokenKind::Colon => bytes(":"),
            TokenKind::Comma => bytes(","),
            TokenKind::Decrement => bytes("--"),
            TokenKind::Dollar => bytes("$"),
            TokenKind::DollarLeftBrace => bytes("${"),
            TokenKind::Dot => bytes("."),
            TokenKind::DotEquals => bytes(".="),
            TokenKind::DoubleArrow => bytes("=>"),
            TokenKind::DoubleColon => bytes("::"),
            TokenKind::DoubleEquals => bytes("=="),
            TokenKind::DoubleQuote => bytes("\""),
            TokenKind::Ellipsis => bytes("..."),
            TokenKind::Equals => bytes("="),
            TokenKind::GreaterThan => bytes(">"),
            TokenKind::GreaterThanEquals => bytes(">="),
            TokenKind::Increment => bytes("++"),
            TokenKind::LeftBrace => bytes("{"),
            TokenKind::LeftBracket => bytes("["),
            TokenKind::LeftParen => bytes("("),
            TokenKind::LeftShift => bytes("<<"),
            TokenKind::LeftShiftEquals => bytes("<<="),
            TokenKind::LessThan => bytes("<"),
            TokenKind::LessThanEquals => bytes("<="),
            TokenKind::Minus => bytes("-"),
            TokenKind::MinusEquals => bytes("-="),
            TokenKind::NamespaceSeparator => bytes("\\"),
            TokenKind::Percent => bytes("%"),
            TokenKind::PercentEquals => bytes("%="),
            TokenKind::Pipe => bytes("|"),
            TokenKind::PipeEquals => bytes("|="),
            TokenKind::Plus => bytes("+"),
            TokenKind::PlusEquals => bytes("+="),
            TokenKind::Pow => bytes("**"),
            TokenKind::PowEquals => bytes("**="),
            TokenKind::Question => bytes("?"),
            TokenKind::QuestionColon => bytes("?:"),
            TokenKind::RightBrace => bytes("}"),
            TokenKind::RightBracket => bytes("]"),
            TokenKind::RightParen => bytes(")"),
            TokenKind::RightShift => bytes(">>"),
            TokenKind::RightShiftEquals => bytes(">>="),
            TokenKind::SemiColon => bytes(";"),
            TokenKind::Slash => bytes("/"),
            TokenKind::SlashEquals => bytes("/="),
            TokenKind::Spaceship => bytes("<=>"),
            TokenKind::TripleEquals => bytes("==="),
            TokenKind::Eof => bytes("end of file"),
            TokenKind::Identifier(b) => b.clone(),
            TokenKind::QualifiedIdentifier(b) => b.clone(),
            TokenKind::FullyQualifiedIdentifier(b) => b.clone(),
            TokenKind::Variable(b) => {
                let mut r = bytes("$");
                r.extend_from_slice(b.as_slice());
                r
            },
            TokenKind::LiteralInteger(b) => b.clone(),
            TokenKind::LiteralFloat(b) => b.clone(),
            TokenKind::LiteralString(b) => b.clone(),
            TokenKind::StringPart(b) => b.clone(),
            TokenKind::InlineHtml(b) => b.clone(),
            TokenKind::SingleLineComment(b) => b.clone(),
            TokenKind::MultiLineComment(b) => b.clone(),
            TokenKind::HashMarkComment(b) => b.clone(),
            TokenKind::DocumentComment(b) => b.clone(),
            TokenKind::OpenTag(k) => match k {
                OpenTagKind::Full => bytes("<?php"),
                OpenTagKind::Echo => bytes("<?="),
                OpenTagKind::Short => bytes("<?"),
            },
            TokenKind::StartDocString(label, _) => {
                let mut r = bytes("<<<");
                r.extend_from_slice(label.as_slice());
                r
            },
            TokenKind::EndDocString(label, _, _) => label.clone(),
        }
    }

    /// Whether the token is a comment of any of the four formats.
    pub open spec fn is_comment(self) -> bool {
        self is SingleLineComment || self is MultiLineComment || self is HashMarkComment
            || self is DocumentComment
    }
}

/// One token: its kind and where it starts in the source.
#[derive(Debug, Clone, PartialEq, Eq)]
pub struct Token {
    pub kind: TokenKind,
    pub span: Span,
}

impl Token {
    pub fn new(kind: TokenKind, span: Span) -> (t: Token)
        ensures
            t.kind == kind,
            t.span == span,
    {
        Token { kind, span }
    }
}

} // verus!
