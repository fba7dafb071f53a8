use pxp_parser::lexer::token::DocStringIndentationKind;
use pxp_parser::lexer::token::DocStringKind;
use pxp_parser::lexer::token::OpenTagKind;
use pxp_parser::lexer::token::Span;
use pxp_parser::lexer::token::Token;
use pxp_parser::lexer::token::TokenKind;
use pxp_parser::parser::ast::classes::ClassMember;
use pxp_parser::parser::ast::enums::BackedEnumType;
use pxp_parser::parser::ast::enums::EnumMember;
use pxp_parser::parser::ast::identifiers::Identifier;
use pxp_parser::parser::ast::interfaces::InterfaceMember;
use pxp_parser::parser::ast::modifiers::ClassModifier;
use pxp_parser::parser::ast::modifiers::ConstantModifier;
use pxp_parser::parser::ast::modifiers::MethodModifier;
use pxp_parser::parser::ast::modifiers::PromotedPropertyModifier;
use pxp_parser::parser::ast::modifiers::PropertyModifier;
use pxp_parser::parser::ast::modifiers::VisibilityModifier;
use pxp_parser::parser::ast::traits::TraitMember;
use pxp_parser::parser::ast::traits::TraitUsageAdaptation;
use pxp_parser::parser::ast::Expression;
use pxp_parser::parser::ast::Statement;
use pxp_parser::parser::ast::Type;
use pxp_parser::parser::error::ParseError;
use pxp_parser::parser::Parser;

/// Every token kind that carries no data, for the small lexer below.
fn unit_kinds() -> Vec<TokenKind> {
    vec![
        TokenKind::Abstract, TokenKind::Array, TokenKind::As, TokenKind::Break,
        TokenKind::Callable, TokenKind::Case, TokenKind::Catch, TokenKind::Class, TokenKind::Clone,
        TokenKind::Const, TokenKind::Continue, TokenKind::Declare, TokenKind::Default,
        TokenKind::Do, TokenKind::Echo, TokenKind::Else, TokenKind::ElseIf, TokenKind::EndDeclare,
        TokenKind::EndFor, TokenKind::EndForeach, TokenKind::EndIf, TokenKind::EndSwitch,
        TokenKind::EndWhile, TokenKind::Enum, TokenKind::Extends, TokenKind::False,
        TokenKind::Final, TokenKind::Finally, TokenKind::Fn, TokenKind::For, TokenKind::Foreach,
        TokenKind::From, TokenKind::Function, TokenKind::Global, TokenKind::Goto,
        TokenKind::HaltCompiler, TokenKind::If, TokenKind::Implements, TokenKind::Include,
        TokenKind::IncludeOnce, TokenKind::Instanceof, TokenKind::Insteadof, TokenKind::Interface,
        TokenKind::List, TokenKind::LogicalAnd, TokenKind::LogicalOr, TokenKind::LogicalXor,
        TokenKind::Match, TokenKind::Namespace, TokenKind::New, TokenKind::Null, TokenKind::Parent,
        TokenKind::Print, TokenKind::Private, TokenKind::Protected, TokenKind::Public,
        TokenKind::Readonly, TokenKind::Require, TokenKind::RequireOnce, TokenKind::Return,
        TokenKind::Self_, TokenKind::Static, TokenKind::Switch, TokenKind::Throw, TokenKind::Trait,
        TokenKind::True, TokenKind::Try, TokenKind::Use, TokenKind::Var, TokenKind::While,
        TokenKind::Yield, TokenKind::DirConstant, TokenKind::StringCast, TokenKind::BinaryCast,
        TokenKind::ObjectCast, TokenKind::BoolCast, TokenKind::BooleanCast, TokenKind::IntCast,
        TokenKind::IntegerCast, TokenKind::FloatCast, TokenKind::DoubleCast, TokenKind::RealCast,
        TokenKind::UnsetCast, TokenKind::ArrayCast, TokenKind::Ampersand,
        TokenKind::AmpersandEquals, TokenKind::AngledLeftRight, TokenKind::Arrow,
        TokenKind::NullsafeArrow, TokenKind::At, TokenKind::Asterisk, TokenKind::AsteriskEqual,
        TokenKind::Attribute, TokenKind::Backtick, TokenKind::Bang, TokenKind::BangDoubleEquals,
        TokenKind::BangEquals, TokenKind::BitwiseNot, TokenKind::BooleanAnd, TokenKind::BooleanOr,
        TokenKind::Caret, TokenKind::CaretEquals, TokenKind::CloseTag, TokenKind::Coalesce,
        TokenKind::CoalesceEqual, TokenKind::Colon, TokenKind::Comma, TokenKind::Decrement,
        TokenKind::Dollar, TokenKind::DollarLeftBrace, TokenKind::Dot, TokenKind::DotEquals,
        TokenKind::DoubleArrow, TokenKind::DoubleColon, TokenKind::DoubleEquals,
        TokenKind::DoubleQuote, TokenKind::Ellipsis, TokenKind::Equals, TokenKind::GreaterThan,
        TokenKind::GreaterThanEquals, TokenKind::Increment, TokenKind::LeftBrace,
        TokenKind::LeftBracket, TokenKind::LeftParen, TokenKind::LeftShift,
        TokenKind::LeftShiftEquals, TokenKind::LessThan, TokenKind::LessThanEquals,
        TokenKind::Minus, TokenKind::MinusEquals, TokenKind::NamespaceSeparator,
        TokenKind::Percent, TokenKind::PercentEquals, TokenKind::Pipe, TokenKind::PipeEquals,
        TokenKind::Plus, TokenKind::PlusEquals, TokenKind::Pow, TokenKind::PowEquals,
        TokenKind::Question, TokenKind::QuestionColon, TokenKind::RightBrace,
        TokenKind::RightBracket, TokenKind::RightParen, TokenKind::RightShift,
        TokenKind::RightShiftEquals, TokenKind::SemiColon, TokenKind::Slash,
        TokenKind::SlashEquals, TokenKind::Spaceship, TokenKind::TripleEquals,
    ]
}

fn b(text: &str) -> Vec<u8> {
    text.as_bytes().to_vec()
}

/// The kind that a word of a test input stands for. Words are separated by
/// spaces; `part:x` is a string part, `html:x` inline HTML, `end:2` the end of
/// a doc string indented by two spaces, `heredoc`/`nowdoc` its start.
fn kind_of(word: &str) -> TokenKind {
    if word == "<?php" {
        return TokenKind::OpenTag(OpenTagKind::Full);
    }
    if let Some(rest) = word.strip_prefix("part:") {
        return TokenKind::StringPart(b(&rest.replace('_', " ").replace("\\n", "\n")));
    }
    if let Some(rest) = word.strip_prefix("html:") {
        return TokenKind::InlineHtml(b(rest));
    }
    if let Some(rest) = word.strip_prefix("end:") {
        let amount: usize = rest.parse().unwrap();
        let indentation = if amount > 0 { Some(DocStringIndentationKind::Space) } else { None };
        return TokenKind::EndDocString(b("EOT"), indentation, amount);
    }
    if word == "heredoc" {
        return TokenKind::StartDocString(b("EOT"), DocStringKind::Heredoc);
    }
    if word == "nowdoc" {
        return TokenKind::StartDocString(b("EOT"), DocStringKind::Nowdoc);
    }
    if word.starts_with("/**") {
        return TokenKind::DocumentComment(b(word));
    }
    if word.starts_with("/*") {
        return TokenKind::MultiLineComment(b(word));
    }
    if word.starts_with("//") {
        return TokenKind::SingleLineComment(b(word));
    }
    if word.starts_with('#') && word != "#[" {
        return TokenKind::HashMarkComment(b(word));
    }
    for kind in unit_kinds() {
        if kind.text() == word.as_bytes() {
            return kind;
        }
    }
    if let Some(name) = word.strip_prefix('$') {
        return TokenKind::Variable(b(name));
    }
    if let Some(text) = word.strip_prefix('\'') {
        return TokenKind::LiteralString(b(text.trim_end_matches('\'')));
    }
    if word.chars().all(|c| c.is_ascii_digit()) {
        return TokenKind::LiteralInteger(b(word));
    }
    if word.chars().all(|c| c.is_ascii_digit() || c == '.') {
        return TokenKind::LiteralFloat(b(word));
    }
    if word.starts_with('\\') {
        return TokenKind::FullyQualifiedIdentifier(b(word));
    }
    if word.contains('\\') {
        return TokenKind::QualifiedIdentifier(b(word));
    }
    TokenKind::Identifier(b(word))
}

fn at(index: usize) -> Span {
    Span { line: 1, column: index + 1, position: index }
}

/// Splits a test input at its spaces and gives each word its token, with
/// the word's index as its position. An `Eof` follows the last word.
fn lex(source: &str) -> Vec<Token> {
    let mut tokens = Vec::new();
    for word in source.split_whitespace() {
        let index = tokens.len();
        tokens.push(Token { kind: kind_of(word), span: at(index) });
    }
    let index = tokens.len();
    tokens.push(Token { kind: TokenKind::Eof, span: at(index) });
    tokens
}

fn parse(source: &str) -> Result<Vec<Statement>, ParseError> {
    Parser::new().parse(lex(source))
}

fn one(source: &str) -> Statement {
    let mut program = parse(source).unwrap();
    assert_eq!(program.len(), 1, "{:?}", program);
    program.remove(0)
}

fn name(text: &str, index: usize) -> Identifier {
    Identifier { start: at(index), name: b(text), end: at(index + 1) }
}

#[test]
fn function_with_parameters() {
    match one("function & foo ( int $a , ? A $b = 1 , & ... $rest ) : void { return ; }") {
        Statement::Function(f) => {
            assert!(f.by_ref);
            assert_eq!(f.name, name("foo", 2));
            assert_eq!(f.start, at(0));
            assert_eq!(f.params.len(), 3);
            assert_eq!(f.params[0].ty, Some(Type::Plain(b("int"))));
            assert_eq!(f.params[0].name.name, b("a"));
            assert_eq!(f.params[1].ty, Some(Type::Nullable(b("A"))));
            assert_eq!(f.params[1].default, Some(Expression::LiteralInteger { i: b("1") }));
            assert!(f.params[2].by_ref);
            assert!(f.params[2].variadic);
            assert_eq!(f.params[2].ty, None);
            assert_eq!(f.return_type, Some(Type::Plain(b("void"))));
            assert_eq!(f.body, vec![Statement::Return { value: None }]);
        }
        other => panic!("{:?}", other),
    }
}

#[test]
fn union_and_intersection_types() {
    match one("function f ( A | B | callable $a , A & B $b , array $c , static $d ) { }") {
        Statement::Function(f) => {
            assert_eq!(f.params[0].ty, Some(Type::Union(vec![b("A"), b("B"), b("callable")])));
            assert_eq!(f.params[1].ty, Some(Type::Intersection(vec![b("A"), b("B")])));
            assert_eq!(f.params[2].ty, Some(Type::Plain(b("array"))));
            assert_eq!(f.params[3].ty, Some(Type::Plain(b("static"))));
        }
        other => panic!("{:?}", other),
    }
}

#[test]
fn a_type_before_a_reference_is_plain() {
    match one("function f ( A & $a ) { }") {
        Statement::Function(f) => {
            assert_eq!(f.params[0].ty, Some(Type::Plain(b("A"))));
            assert!(f.params[0].by_ref);
        }
        other => panic!("{:?}", other),
    }
}

#[test]
fn null_is_no_type_name() {
    assert_eq!(
        parse("function f ( null $a ) { }"),
        Err(ParseError::ExpectedToken(vec![b("an identifier")], Some(b("null")), at(3)))
    );
}

#[test]
fn function_with_attributes() {
    match one("#[ A , B ( 1 ) ] #[ C ] function f ( #[ D ] $a ) { }") {
        Statement::Function(f) => {
            assert_eq!(f.attributes.len(), 2);
            assert_eq!(f.attributes[0].members.len(), 2);
            assert_eq!(f.attributes[1].members.len(), 1);
            assert_eq!(f.params[0].attributes.len(), 1);
        }
        other => panic!("{:?}", other),
    }
}

#[test]
fn function_and_reference_without_a_name_is_an_expression() {
    match one("function & ( ) { } ;") {
        Statement::Expression { expr: Expression::AnonymousFunction(closure) } => {
            assert!(closure.by_ref);
        }
        other => panic!("{:?}", other),
    }
}

#[test]
fn class_with_members() {
    let source = "abstract class A extends B implements C , D { \
                  use T ; \
                  const X = 1 ; \
                  final public const Y = 2 ; \
                  var $v ; \
                  public static ? int $p = 1 ; \
                  private readonly int $q ; \
                  abstract protected function f ( ) ; \
                  public function __construct ( private readonly int $z ) { } \
                  }";
    match one(source) {
        Statement::Class(class) => {
            assert_eq!(class.modifiers, vec![ClassModifier::Abstract]);
            assert_eq!(class.name, name("A", 2));
            assert_eq!(class.extends, Some(name("B", 4)));
            assert_eq!(class.implements, vec![name("C", 6), name("D", 8)]);
            assert_eq!(class.members.len(), 8);
            assert!(matches!(class.members[0], ClassMember::TraitUsage(_)));
            match &class.members[1] {
                ClassMember::Constant(c) => assert!(c.modifiers.is_empty()),
                other => panic!("{:?}", other),
            }
            match &class.members[2] {
                ClassMember::Constant(c) => {
                    assert_eq!(c.modifiers, vec![ConstantModifier::Final, ConstantModifier::Public]);
                }
                other => panic!("{:?}", other),
            }
            assert!(matches!(class.members[3], ClassMember::VariableProperty(_)));
            match &class.members[4] {
                ClassMember::Property(p) => {
                    assert_eq!(p.modifiers, vec![PropertyModifier::Public, PropertyModifier::Static]);
                    assert_eq!(p.ty, Some(Type::Nullable(b("int"))));
                    assert!(p.value.is_some());
                }
                other => panic!("{:?}", other),
            }
            match &class.members[5] {
                ClassMember::Property(p) => {
                    assert_eq!(
                        p.modifiers,
                        vec![PropertyModifier::Private, PropertyModifier::Readonly]
                    );
                }
                other => panic!("{:?}", other),
            }
            match &class.members[6] {
                ClassMember::Method(m) => {
                    assert_eq!(
                        m.modifiers,
                        vec![MethodModifier::Abstract, MethodModifier::Protected]
                    );
                    assert!(m.body.is_none());
                }
                other => panic!("{:?}", other),
            }
            match &class.members[7] {
                ClassMember::Method(m) => {
                    assert_eq!(m.name.name, b("__construct"));
                    assert_eq!(
                        m.params[0].modifiers,
                        vec![PromotedPropertyModifier::Private, PromotedPropertyModifier::Readonly]
                    );
                    assert_eq!(m.body, Some(vec![]));
                }
                other => panic!("{:?}", other),
            }
        }
        other => panic!("{:?}", other),
    }
}

#[test]
fn class_modifiers_in_any_order() {
    match one("readonly final class A { }") {
        Statement::Class(class) => {
            assert_eq!(class.modifiers, vec![ClassModifier::Readonly, ClassModifier::Final]);
        }
        other => panic!("{:?}", other),
    }
}

#[test]
fn a_modifier_twice() {
    assert_eq!(
        parse("final final class A { }"),
        Err(ParseError::MultipleModifiers(b("final"), at(1)))
    );
    assert_eq!(
        parse("class A { public public $a ; }"),
        Err(ParseError::MultipleModifiers(b("public"), at(4)))
    );
}

#[test]
fn modifiers_that_exclude_one_another() {
    assert_eq!(
        parse("abstract final class A { }"),
        Err(ParseError::ConflictingModifiers(b("abstract"), b("final"), at(1)))
    );
    assert_eq!(
        parse("class A { public private function f ( ) { } }"),
        Err(ParseError::ConflictingModifiers(b("public"), b("private"), at(4)))
    );
}

#[test]
fn a_modifier_in_the_wrong_place() {
    assert_eq!(
        parse("final static class A { }"),
        Err(ParseError::UnexpectedModifier(b("static"), at(1)))
    );
    assert_eq!(
        parse("class A { static const X = 1 ; }"),
        Err(ParseError::UnexpectedModifier(b("static"), at(3)))
    );
    assert_eq!(
        parse("class A { readonly function f ( ) { } }"),
        Err(ParseError::UnexpectedModifier(b("readonly"), at(3)))
    );
}

#[test]
fn readonly_properties() {
    assert_eq!(
        parse("class A { static readonly int $a ; }"),
        Err(ParseError::StaticPropertyUsingReadonlyModifier(b("a"), at(6)))
    );
    assert_eq!(
        parse("class A { readonly int $a = 1 ; }"),
        Err(ParseError::ReadonlyPropertyHasDefaultValue(b("a"), at(5)))
    );
    assert_eq!(
        parse("class A { readonly $a ; }"),
        Err(ParseError::MissingTypeForReadonlyProperty(b("a"), at(4)))
    );
}

#[test]
fn self_static_and_parent_inside_a_class() {
    let program = parse(
        "class A extends B { function f ( ) { self :: X ; static :: Y ; parent :: z ( ) ; } }",
    );
    assert!(program.is_ok(), "{:?}", program);
}

#[test]
fn parent_needs_a_parent() {
    assert_eq!(
        parse("class A { function f ( ) { parent :: z ( ) ; } }"),
        Err(ParseError::CannotFindTypeInCurrentScope(b("parent"), at(8)))
    );
}

#[test]
fn the_scope_ends_with_the_class() {
    assert_eq!(
        parse("class A { } self :: X ;"),
        Err(ParseError::CannotFindTypeInCurrentScope(b("self"), at(4)))
    );
    assert_eq!(
        parse("class A { function f ( ) { $ } } self :: X ;"),
        Err(ParseError::ExpectedToken(
            vec![b("a variable"), b("`{`"), b("`$`")],
            Some(b("}")),
            at(9)
        ))
    );
}

#[test]
fn trait_adaptations() {
    let source = "class C { use T , U { \
                  T :: a as b ; \
                  a as protected c ; \
                  a as private ; \
                  T :: a insteadof U , V ; \
                  public d ; \
                  } }";
    match one(source) {
        Statement::Class(class) => match &class.members[0] {
            ClassMember::TraitUsage(usage) => {
                assert_eq!(usage.traits.len(), 2);
                assert_eq!(usage.adaptations.len(), 5);
                match &usage.adaptations[0] {
                    TraitUsageAdaptation::Alias { trait_name, method, alias, visibility } => {
                        assert_eq!(trait_name.as_ref().unwrap().name, b("T"));
                        assert_eq!(method.name, b("a"));
                        assert_eq!(alias.name, b("b"));
                        assert_eq!(*visibility, None);
                    }
                    other => panic!("{:?}", other),
                }
                match &usage.adaptations[1] {
                    TraitUsageAdaptation::Alias { trait_name, visibility, .. } => {
                        assert!(trait_name.is_none());
                        assert_eq!(*visibility, Some(VisibilityModifier::Protected));
                    }
                    other => panic!("{:?}", other),
                }
                match &usage.adaptations[2] {
                    TraitUsageAdaptation::Visibility { visibility, method, .. } => {
                        assert_eq!(*visibility, VisibilityModifier::Private);
                        assert_eq!(method.name, b("a"));
                    }
                    other => panic!("{:?}", other),
                }
                match &usage.adaptations[3] {
                    TraitUsageAdaptation::Precedence { insteadof, .. } => {
                        assert_eq!(insteadof.len(), 2);
                    }
                    other => panic!("{:?}", other),
                }
                match &usage.adaptations[4] {
                    TraitUsageAdaptation::Visibility { visibility, method, trait_name } => {
                        assert_eq!(*visibility, VisibilityModifier::Public);
                        assert_eq!(method.name, b("d"));
                        assert!(trait_name.is_none());
                    }
                    other => panic!("{:?}", other),
                }
            }
            other => panic!("{:?}", other),
        },
        other => panic!("{:?}", other),
    }
}

#[test]
fn an_adaptation_needs_as_or_insteadof() {
    assert_eq!(
        parse("class C { use T { a ; } }"),
        Err(ParseError::ExpectedToken(vec![b("`as`"), b("`insteadof`")], Some(b(";")), at(7)))
    );
}

#[test]
fn interface_with_members() {
    match one("interface A extends B , C { const X = 1 ; public function f ( ) : int ; }") {
        Statement::Interface(interface) => {
            assert_eq!(interface.extends.len(), 2);
            assert_eq!(interface.members.len(), 2);
            assert!(matches!(interface.members[0], InterfaceMember::Constant(_)));
            match &interface.members[1] {
                InterfaceMember::Method(m) => assert!(m.body.is_none()),
                other => panic!("{:?}", other),
            }
        }
        other => panic!("{:?}", other),
    }
    assert_eq!(
        parse("interface A { public $a ; }"),
        Err(ParseError::ExpectedToken(
            vec![b("`const`"), b("`function`")],
            Some(b("$a")),
            at(4)
        ))
    );
}

#[test]
fn trait_with_members() {
    match one("trait T { use U ; public $a ; function f ( ) { } const X = 1 ; }") {
        Statement::Trait(t) => {
            assert_eq!(t.name, name("T", 1));
            assert_eq!(t.start, at(0));
            assert_eq!(t.members.len(), 4);
            assert!(matches!(t.members[0], TraitMember::TraitUsage(_)));
            assert!(matches!(t.members[1], TraitMember::Property(_)));
            assert!(matches!(t.members[2], TraitMember::Method(_)));
            assert!(matches!(t.members[3], TraitMember::Constant(_)));
        }
        other => panic!("{:?}", other),
    }
}

#[test]
fn enums() {
    match one("enum E { case A ; case B ; }") {
        Statement::Enum(e) => {
            assert_eq!(e.backing, None);
            assert_eq!(e.members.len(), 2);
        }
        other => panic!("{:?}", other),
    }
    match one("enum E : string implements I { case A = 'a' ; const X = 1 ; function f ( ) { } }") {
        Statement::Enum(e) => {
            assert_eq!(e.backing, Some(BackedEnumType::String));
            assert_eq!(e.implements.len(), 1);
            match &e.members[0] {
                EnumMember::Case(c) => {
                    assert_eq!(c.value, Some(Expression::LiteralString { value: b("a") }));
                }
                other => panic!("{:?}", other),
            }
            assert!(matches!(e.members[1], EnumMember::Constant(_)));
            assert!(matches!(e.members[2], EnumMember::Method(_)));
        }
        other => panic!("{:?}", other),
    }
    assert!(matches!(one("enum E : int { }"), Statement::Enum(ref e) if e.backing == Some(BackedEnumType::Int)));
    assert_eq!(
        parse("enum E : float { }"),
        Err(ParseError::ExpectedToken(vec![b("`int`"), b("`string`")], Some(b("float")), at(3)))
    );
}

#[test]
fn attributes_before_a_class() {
    match one("#[ A ] final class C { #[ B ] public $a ; #[ C ] function f ( ) { } }") {
        Statement::Class(class) => {
            assert_eq!(class.attributes.len(), 1);
            match &class.members[0] {
                ClassMember::Property(p) => assert_eq!(p.attributes.len(), 1),
                other => panic!("{:?}", other),
            }
            match &class.members[1] {
                ClassMember::Method(m) => assert_eq!(m.attributes.len(), 1),
                other => panic!("{:?}", other),
            }
        }
        other => panic!("{:?}", other),
    }
}

#[test]
fn attributes_before_a_trait_usage() {
    assert_eq!(
        parse("class C { #[ A ] use T ; }"),
        Err(ParseError::ExpectedItemDefinitionAfterAttributes(at(6)))
    );
}

#[test]
fn comments_between_members_are_dropped() {
    match one("class C { //a public $a ; /*b*/ }") {
        Statement::Class(class) => assert_eq!(class.members.len(), 1),
        other => panic!("{:?}", other),
    }
}
