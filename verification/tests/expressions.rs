use pxp_parser::lexer::token::DocStringIndentationKind;
use pxp_parser::lexer::token::DocStringKind;
use pxp_parser::lexer::token::OpenTagKind;
use pxp_parser::lexer::token::Span;
use pxp_parser::lexer::token::Token;
use pxp_parser::lexer::token::TokenKind;
use pxp_parser::parser::ast::functions::ClosureUse;
use pxp_parser::parser::ast::identifiers::Identifier;
use pxp_parser::parser::ast::variables::Variable;
use pxp_parser::parser::ast::ArrayItem;
use pxp_parser::parser::ast::CastKind;
use pxp_parser::parser::ast::Expression;
use pxp_parser::parser::ast::IncludeKind;
use pxp_parser::parser::ast::InfixOp;
use pxp_parser::parser::ast::MagicConst;
use pxp_parser::parser::ast::Statement;
use pxp_parser::parser::ast::StringPart;
use pxp_parser::parser::error::ParseError;
use pxp_parser::parser::Parser;

/// Every token kind that carries no data, for the small lexer below.
fn unit_kinds() -> Vec<TokenKind> {
    vec![
        TokenKind::Abstract, TokenKind::Array, TokenKind::As, TokenKind::Break,
        TokenKind::Callable, TokenKind::Case, TokenKind::Catch, TokenKind::Class, TokenKind::Clone,
        TokenKind::Const, TokenKind::Continue, TokenKind::Declare, TokenKind::Default,
        TokenKind::Do, TokenKind::Echo, TokenKind::Else, TokenKind::ElseIf, TokenKind::EndDeclare,
        TokenKind::EndFor, TokenKind::EndForeach, TokenKind::EndIf, TokenKind::EndSwitch,
        TokenKind::EndWhile, TokenKind::Enum, TokenKind::Extends, TokenKind::False,
        TokenKind::Final, TokenKind::Finally, TokenKind::Fn, TokenKind::For, TokenKind::Foreach,
        TokenKind::From, TokenKind::Function, TokenKind::Global, TokenKind::Goto,
        TokenKind::HaltCompiler, TokenKind::If, TokenKind::Implements, TokenKind::Include,
        TokenKind::IncludeOnce, TokenKind::Instanceof, TokenKind::Insteadof, TokenKind::Interface,
        TokenKind::List, TokenKind::LogicalAnd, TokenKind::LogicalOr, TokenKind::LogicalXor,
        TokenKind::Match, TokenKind::Namespace, TokenKind::New, TokenKind::Null, TokenKind::Parent,
        TokenKind::Print, TokenKind::Private, TokenKind::Protected, TokenKind::Public,
        TokenKind::Readonly, TokenKind::Require, TokenKind::RequireOnce, TokenKind::Return,
        TokenKind::Self_, TokenKind::Static, TokenKind::Switch, TokenKind::Throw, TokenKind::Trait,
        TokenKind::True, TokenKind::Try, TokenKind::Use, TokenKind::Var, TokenKind::While,
        TokenKind::Yield, TokenKind::DirConstant, TokenKind::StringCast, TokenKind::BinaryCast,
        TokenKind::ObjectCast, TokenKind::BoolCast, TokenKind::BooleanCast, TokenKind::IntCast,
        TokenKind::IntegerCast, TokenKind::FloatCast, TokenKind::DoubleCast, TokenKind::RealCast,
        TokenKind::UnsetCast, TokenKind::ArrayCast, TokenKind::Ampersand,
        TokenKind::AmpersandEquals, TokenKind::AngledLeftRight, TokenKind::Arrow,
        TokenKind::NullsafeArrow, TokenKind::At, TokenKind::Asterisk, TokenKind::AsteriskEqual,
        TokenKind::Attribute, TokenKind::Backtick, TokenKind::Bang, TokenKind::BangDoubleEquals,
        TokenKind::BangEquals, TokenKind::BitwiseNot, TokenKind::BooleanAnd, TokenKind::BooleanOr,
        TokenKind::Caret, TokenKind::CaretEquals, TokenKind::CloseTag, TokenKind::Coalesce,
        TokenKind::CoalesceEqual, TokenKind::Colon, TokenKind::Comma, TokenKind::Decrement,
        TokenKind::Dollar, TokenKind::DollarLeftBrace, TokenKind::Dot, TokenKind::DotEquals,
        TokenKind::DoubleArrow, TokenKind::DoubleColon, TokenKind::DoubleEquals,
        TokenKind::DoubleQuote, TokenKind::Ellipsis, TokenKind::Equals, TokenKind::GreaterThan,
        TokenKind::GreaterThanEquals, TokenKind::Increment, TokenKind::LeftBrace,
        TokenKind::LeftBracket, TokenKind::LeftParen, TokenKind::LeftShift,
        TokenKind::LeftShiftEquals, TokenKind::LessThan, TokenKind::LessThanEquals,
        TokenKind::Minus, TokenKind::MinusEquals, TokenKind::NamespaceSeparator,
        TokenKind::Percent, TokenKind::PercentEquals, TokenKind::Pipe, TokenKind::PipeEquals,
        TokenKind::Plus, TokenKind::PlusEquals, TokenKind::Pow, TokenKind::PowEquals,
        TokenKind::Question, TokenKind::QuestionColon, TokenKind::RightBrace,
        TokenKind::RightBracket, TokenKind::RightParen, TokenKind::RightShift,
        TokenKind::RightShiftEquals, TokenKind::SemiColon, TokenKind::Slash,
        TokenKind::SlashEquals, TokenKind::Spaceship, TokenKind::TripleEquals,
    ]
}

fn b(text: &str) -> Vec<u8> {
    text.as_bytes().to_vec()
}

/// The kind that a word of a test input stands for. Words are separated by
/// spaces; `part:x` is a string part, `html:x` inline HTML, `end:2` the end of
/// a doc string indented by two spaces, `heredoc`/`nowdoc` its start.
fn kind_of(word: &str) -> TokenKind {
    if word == "<?php" {
        return TokenKind::OpenTag(OpenTagKind::Full);
    }
    if let Some(rest) = word.strip_prefix("part:") {
        return TokenKind::StringPart(b(&rest.replace('_', " ").replace("\\n", "\n")));
    }
    if let Some(rest) = word.strip_prefix("html:") {
        return TokenKind::InlineHtml(b(rest));
    }
    if let Some(rest) = word.strip_prefix("end:") {
        let amount: usize = rest.parse().unwrap();
        let indentation = if amount > 0 { Some(DocStringIndentationKind::Space) } else { None };
        return TokenKind::EndDocString(b("EOT"), indentation, amount);
    }
    if word == "heredoc" {
        return TokenKind::StartDocString(b("EOT"), DocStringKind::Heredoc);
    }
    if word == "nowdoc" {
        return TokenKind::StartDocString(b("EOT"), DocStringKind::Nowdoc);
    }
    if word.starts_with("/**") {
        return TokenKind::DocumentComment(b(word));
    }
    if word.starts_with("/*") {
        return TokenKind::MultiLineComment(b(word));
    }
    if word.starts_with("//") {
        return TokenKind::SingleLineComment(b(word));
    }
    if word.starts_with('#') && word != "#[" {
        return TokenKind::HashMarkComment(b(word));
    }
    for kind in unit_kinds() {
        if kind.text() == word.as_bytes() {
            return kind;
        }
    }
    if let Some(name) = word.strip_prefix('$') {
        return TokenKind::Variable(b(name));
    }
    if let Some(text) = word.strip_prefix('\'') {
        return TokenKind::LiteralString(b(text.trim_end_matches('\'')));
    }
    if word.chars().all(|c| c.is_ascii_digit()) {
        return TokenKind::LiteralInteger(b(word));
    }
    if word.chars().all(|c| c.is_ascii_digit() || c == '.') {
        return TokenKind::LiteralFloat(b(word));
    }
    if word.starts_with('\\') {
        return TokenKind::FullyQualifiedIdentifier(b(word));
    }
    if word.contains('\\') {
        return TokenKind::QualifiedIdentifier(b(word));
    }
    TokenKind::Identifier(b(word))
}

fn at(index: usize) -> Span {
    Span { line: 1, column: index + 1, position: index }
}

/// Splits a test input at its spaces and gives each word its token, with
/// the word's index as its position. An `Eof` follows the last word.
fn lex(source: &str) -> Vec<Token> {
    let mut tokens = Vec::new();
    for word in source.split_whitespace() {
        let index = tokens.len();
        tokens.push(Token { kind: kind_of(word), span: at(index) });
    }
    let index = tokens.len();
    tokens.push(Token { kind: TokenKind::Eof, span: at(index) });
    tokens
}

fn parse(source: &str) -> Result<Vec<Statement>, ParseError> {
    Parser::new().parse(lex(source))
}

/// Parses an input that is one expression statement and hands out the
/// expression.
fn expression(source: &str) -> Expression {
    let mut program = parse(source).unwrap();
    assert_eq!(program.len(), 1, "{:?}", program);
    match program.remove(0) {
        Statement::Expression { expr } => expr,
        other => panic!("not an expression statement: {:?}", other),
    }
}

fn variable(name: &str, index: usize) -> Expression {
    Expression::Variable(Variable { start: at(index), name: b(name), end: at(index + 1) })
}

fn name(text: &str, index: usize) -> Identifier {
    Identifier { start: at(index), name: b(text), end: at(index + 1) }
}

fn named(text: &str, index: usize) -> Expression {
    Expression::Identifier(name(text, index))
}

fn integer(text: &str) -> Expression {
    Expression::LiteralInteger { i: b(text) }
}

fn boxed(e: Expression) -> Box<Expression> {
    Box::new(e)
}

fn infix(lhs: Expression, op: InfixOp, rhs: Expression) -> Expression {
    Expression::Infix { lhs: boxed(lhs), op, rhs: boxed(rhs) }
}

#[test]
fn literals() {
    assert_eq!(expression("1 ;"), integer("1"));
    assert_eq!(expression("1.5 ;"), Expression::LiteralFloat { f: b("1.5") });
    assert_eq!(expression("'a' ;"), Expression::LiteralString { value: b("a") });
    assert_eq!(expression("true ;"), Expression::Bool { value: true });
    assert_eq!(expression("false ;"), Expression::Bool { value: false });
    assert_eq!(expression("null ;"), Expression::Null);
    assert_eq!(expression("__DIR__ ;"), Expression::MagicConst { constant: MagicConst::Dir });
}

#[test]
fn names_and_variables() {
    assert_eq!(expression("$a ;"), variable("a", 0));
    assert_eq!(expression("Foo ;"), named("Foo", 0));
    assert_eq!(expression("Foo\\Bar ;"), named("Foo\\Bar", 0));
    assert_eq!(expression("\\Foo\\Bar ;"), named("\\Foo\\Bar", 0));
}

#[test]
fn addition_groups_to_the_left() {
    assert_eq!(
        expression("1 - 2 + 3 ;"),
        infix(infix(integer("1"), InfixOp::Sub, integer("2")), InfixOp::Add, integer("3"))
    );
}

#[test]
fn multiplication_before_addition_on_either_side() {
    assert_eq!(
        expression("1 * 2 + 3 ;"),
        infix(infix(integer("1"), InfixOp::Mul, integer("2")), InfixOp::Add, integer("3"))
    );
    assert_eq!(
        expression("1 + 2 * 3 ;"),
        infix(integer("1"), InfixOp::Add, infix(integer("2"), InfixOp::Mul, integer("3")))
    );
}

#[test]
fn power_groups_to_the_right() {
    assert_eq!(
        expression("2 ** 3 ** 4 ;"),
        infix(integer("2"), InfixOp::Pow, infix(integer("3"), InfixOp::Pow, integer("4")))
    );
}

#[test]
fn assignment_groups_to_the_right() {
    assert_eq!(
        expression("$a = $b = 1 ;"),
        infix(
            variable("a", 0),
            InfixOp::Assign,
            infix(variable("b", 2), InfixOp::Assign, integer("1"))
        )
    );
}

#[test]
fn parentheses_leave_no_node() {
    assert_eq!(
        expression("( 1 + 2 ) * 3 ;"),
        infix(infix(integer("1"), InfixOp::Add, integer("2")), InfixOp::Mul, integer("3"))
    );
}

#[test]
fn keyword_or_binds_more_loosely_than_assignment() {
    assert_eq!(
        expression("$a = 1 or 2 ;"),
        infix(
            infix(variable("a", 0), InfixOp::Assign, integer("1")),
            InfixOp::LogicalOr,
            integer("2")
        )
    );
}

#[test]
fn comparison_does_not_chain() {
    assert_eq!(parse("1 < 2 < 3 ;"), Err(ParseError::UnexpectedToken(b("<"), at(3))));
}

#[test]
fn comparison_of_two_classes_is_accepted() {
    assert_eq!(
        expression("1 < 2 == true ;"),
        infix(
            infix(integer("1"), InfixOp::LessThan, integer("2")),
            InfixOp::Equals,
            Expression::Bool { value: true }
        )
    );
}

#[test]
fn every_infix_operator_has_its_node() {
    let cases = vec![
        ("+", InfixOp::Add),
        ("-", InfixOp::Sub),
        ("*", InfixOp::Mul),
        ("/", InfixOp::Div),
        ("%", InfixOp::Mod),
        (".", InfixOp::Concat),
        ("<<", InfixOp::LeftShift),
        (">>", InfixOp::RightShift),
        ("&", InfixOp::BitwiseAnd),
        ("|", InfixOp::BitwiseOr),
        ("^", InfixOp::BitwiseXor),
        ("<", InfixOp::LessThan),
        ("<=", InfixOp::LessThanEquals),
        (">", InfixOp::GreaterThan),
        (">=", InfixOp::GreaterThanEquals),
        ("==", InfixOp::Equals),
        ("===", InfixOp::Identical),
        ("!=", InfixOp::NotEquals),
        ("!==", InfixOp::NotIdentical),
        ("<>", InfixOp::AngledNotEquals),
        ("<=>", InfixOp::Spaceship),
        ("&&", InfixOp::And),
        ("||", InfixOp::Or),
        ("and", InfixOp::LogicalAnd),
        ("or", InfixOp::LogicalOr),
        ("xor", InfixOp::LogicalXor),
        ("**", InfixOp::Pow),
        ("instanceof", InfixOp::Instanceof),
        ("=", InfixOp::Assign),
        ("+=", InfixOp::AddAssign),
        ("-=", InfixOp::SubAssign),
        ("*=", InfixOp::MulAssign),
        ("/=", InfixOp::DivAssign),
        ("%=", InfixOp::ModAssign),
        ("**=", InfixOp::PowAssign),
        (".=", InfixOp::ConcatAssign),
        ("&=", InfixOp::BitwiseAndAssign),
        ("|=", InfixOp::BitwiseOrAssign),
        ("^=", InfixOp::BitwiseXorAssign),
        ("<<=", InfixOp::LeftShiftAssign),
        (">>=", InfixOp::RightShiftAssign),
        ("??=", InfixOp::CoalesceAssign),
    ];
    for (text, op) in cases {
        let source = format!("$a {} $b ;", text);
        assert_eq!(expression(&source), infix(variable("a", 0), op, variable("b", 2)), "{}", text);
    }
}

#[test]
fn assignment_by_reference() {
    assert_eq!(
        expression("$a = & $b ;"),
        infix(variable("a", 0), InfixOp::AssignRef, variable("b", 3))
    );
}

#[test]
fn ternary_has_a_middle_operand() {
    assert_eq!(
        expression("$a ? 1 : 2 ;"),
        Expression::Ternary {
            condition: boxed(variable("a", 0)),
            then: Some(boxed(integer("1"))),
            otherwise: boxed(integer("2")),
        }
    );
}

#[test]
fn short_ternary_has_none() {
    assert_eq!(
        expression("$a ?: 2 ;"),
        Expression::Ternary {
            condition: boxed(variable("a", 0)),
            then: None,
            otherwise: boxed(integer("2")),
        }
    );
}

#[test]
fn ternary_does_not_chain() {
    assert_eq!(
        parse("$a ? 1 : $b ? 2 : 3 ;"),
        Err(ParseError::UnexpectedToken(b("?"), at(5)))
    );
}

#[test]
fn ternary_without_colon() {
    assert_eq!(
        parse("$a ? 1 ;"),
        Err(ParseError::ExpectedToken(vec![b("`:`")], Some(b(";")), at(3)))
    );
}

#[test]
fn prefix_operators() {
    let value = || boxed(variable("a", 1));
    assert_eq!(expression("! $a ;"), Expression::BooleanNot { value: value() });
    assert_eq!(expression("- $a ;"), Expression::Negate { value: value() });
    assert_eq!(expression("+ $a ;"), Expression::UnaryPlus { value: value() });
    assert_eq!(expression("~ $a ;"), Expression::BitwiseNot { value: value() });
    assert_eq!(expression("++ $a ;"), Expression::PreIncrement { value: value() });
    assert_eq!(expression("-- $a ;"), Expression::PreDecrement { value: value() });
    assert_eq!(expression("@ $a ;"), Expression::ErrorSuppress { expr: value() });
    assert_eq!(expression("print $a ;"), Expression::Print { value: value() });
}

#[test]
fn casts() {
    let cases = vec![
        ("(string)", CastKind::String),
        ("(binary)", CastKind::String),
        ("(object)", CastKind::Object),
        ("(bool)", CastKind::Bool),
        ("(boolean)", CastKind::Bool),
        ("(int)", CastKind::Int),
        ("(integer)", CastKind::Int),
        ("(float)", CastKind::Float),
        ("(double)", CastKind::Float),
        ("(real)", CastKind::Float),
        ("(unset)", CastKind::Unset),
        ("(array)", CastKind::Array),
    ];
    for (text, kind) in cases {
        let source = format!("{} $a ;", text);
        assert_eq!(
            expression(&source),
            Expression::Cast { kind, value: boxed(variable("a", 1)) },
            "{}",
            text
        );
    }
}

#[test]
fn negation_applies_before_multiplication() {
    assert_eq!(
        expression("- $a * 2 ;"),
        infix(Expression::Negate { value: boxed(variable("a", 1)) }, InfixOp::Mul, integer("2"))
    );
}

#[test]
fn not_applies_after_instanceof() {
    assert_eq!(
        expression("! $a instanceof B ;"),
        Expression::BooleanNot {
            value: boxed(infix(variable("a", 1), InfixOp::Instanceof, named("B", 3))),
        }
    );
}

#[test]
fn postfix_increment_and_decrement() {
    assert_eq!(expression("$a ++ ;"), Expression::Increment { value: boxed(variable("a", 0)) });
    assert_eq!(expression("$a -- ;"), Expression::Decrement { value: boxed(variable("a", 0)) });
    assert_eq!(
        expression("$a + $b ++ ;"),
        infix(
            variable("a", 0),
            InfixOp::Add,
            Expression::Increment { value: boxed(variable("b", 2)) }
        )
    );
}

#[test]
fn calls_and_arguments() {
    let e = expression("foo ( 1 , ... $rest , name : 2 ) ;");
    match e {
        Expression::Call { target, args } => {
            assert_eq!(*target, named("foo", 0));
            assert_eq!(args.len(), 3);
            assert_eq!(args[0].value, integer("1"));
            assert!(!args[0].unpack);
            assert!(args[0].name.is_none());
            assert!(args[1].unpack);
            assert_eq!(args[1].value, variable("rest", 5));
            assert_eq!(args[2].name, Some(name("name", 7)));
            assert_eq!(args[2].value, integer("2"));
        }
        other => panic!("{:?}", other),
    }
}

#[test]
fn call_with_a_trailing_comma() {
    let e = expression("foo ( 1 , ) ;");
    assert!(matches!(e, Expression::Call { ref args, .. } if args.len() == 1));
}

#[test]
fn array_index_and_append() {
    assert_eq!(
        expression("$a [ 0 ] ;"),
        Expression::ArrayIndex { array: boxed(variable("a", 0)), index: Some(boxed(integer("0"))) }
    );
    assert_eq!(
        expression("$a [ ] = 1 ;"),
        infix(
            Expression::ArrayIndex { array: boxed(variable("a", 0)), index: None },
            InfixOp::Assign,
            integer("1")
        )
    );
}

#[test]
fn property_and_method_access() {
    assert_eq!(
        expression("$a -> b ;"),
        Expression::PropertyFetch { target: boxed(variable("a", 0)), property: boxed(named("b", 2)) }
    );
    assert_eq!(
        expression("$a ?-> b ;"),
        Expression::NullsafePropertyFetch {
            target: boxed(variable("a", 0)),
            property: boxed(named("b", 2)),
        }
    );
    assert_eq!(
        expression("$a -> b ( ) ;"),
        Expression::MethodCall {
            target: boxed(variable("a", 0)),
            method: boxed(named("b", 2)),
            args: vec![],
        }
    );
    assert_eq!(
        expression("$a ?-> b ( ) ;"),
        Expression::NullsafeMethodCall {
            target: boxed(variable("a", 0)),
            method: boxed(named("b", 2)),
            args: vec![],
        }
    );
    assert_eq!(
        expression("$a -> $b ;"),
        Expression::PropertyFetch {
            target: boxed(variable("a", 0)),
            property: boxed(variable("b", 2)),
        }
    );
    assert_eq!(
        expression("$a -> { $b } ;"),
        Expression::PropertyFetch {
            target: boxed(variable("a", 0)),
            property: boxed(variable("b", 3)),
        }
    );
}

#[test]
fn reserved_word_after_an_arrow_is_a_name() {
    assert_eq!(
        expression("$a -> static ;"),
        Expression::PropertyFetch {
            target: boxed(variable("a", 0)),
            property: boxed(named("static", 2)),
        }
    );
}

#[test]
fn static_access() {
    assert_eq!(
        expression("A :: B ;"),
        Expression::ConstFetch { target: boxed(named("A", 0)), constant: name("B", 2) }
    );
    assert_eq!(
        expression("A :: class ;"),
        Expression::ConstFetch { target: boxed(named("A", 0)), constant: name("class", 2) }
    );
    assert_eq!(
        expression("A :: b ( ) ;"),
        Expression::StaticMethodCall {
            target: boxed(named("A", 0)),
            method: boxed(named("b", 2)),
            args: vec![],
        }
    );
    assert_eq!(
        expression("A :: $b ;"),
        Expression::StaticPropertyFetch {
            target: boxed(named("A", 0)),
            property: boxed(variable("b", 2)),
        }
    );
    assert_eq!(
        expression("A :: $b ( ) ;"),
        Expression::StaticMethodCall {
            target: boxed(named("A", 0)),
            method: boxed(variable("b", 2)),
            args: vec![],
        }
    );
    assert_eq!(
        expression("A :: { $b } ( ) ;"),
        Expression::StaticMethodCall {
            target: boxed(named("A", 0)),
            method: boxed(Expression::DynamicVariable { name: boxed(variable("b", 3)) }),
            args: vec![],
        }
    );
}

#[test]
fn static_access_needs_a_member() {
    assert_eq!(
        parse("A :: 1 ;"),
        Err(ParseError::ExpectedToken(
            vec![b("`{`"), b("`$`"), b("an identifier")],
            Some(b("1")),
            at(2)
        ))
    );
}

#[test]
fn self_outside_a_class() {
    assert_eq!(
        parse("self :: A ;"),
        Err(ParseError::CannotFindTypeInCurrentScope(b("self"), at(0)))
    );
    assert_eq!(
        parse("static :: A ;"),
        Err(ParseError::CannotFindTypeInCurrentScope(b("static"), at(0)))
    );
    assert_eq!(
        parse("parent :: A ;"),
        Err(ParseError::CannotFindTypeInCurrentScope(b("parent"), at(0)))
    );
}

#[test]
fn new_with_and_without_arguments() {
    assert_eq!(
        expression("new Foo ;"),
        Expression::New { target: boxed(named("Foo", 1)), args: vec![] }
    );
    let e = expression("new Foo ( 1 ) ;");
    match e {
        Expression::New { target, args } => {
            assert_eq!(*target, named("Foo", 1));
            assert_eq!(args.len(), 1);
            assert_eq!(args[0].value, integer("1"));
        }
        other => panic!("{:?}", other),
    }
}

#[test]
fn clone_takes_the_property() {
    assert_eq!(
        expression("clone $a -> b ;"),
        Expression::Clone {
            target: boxed(Expression::PropertyFetch {
                target: boxed(variable("a", 1)),
                property: boxed(named("b", 3)),
            }),
        }
    );
}

#[test]
fn throw_as_an_expression() {
    assert_eq!(expression("throw $e ;"), Expression::Throw { value: boxed(variable("e", 1)) });
}

#[test]
fn inclusion_forms() {
    let cases = vec![
        ("include", IncludeKind::Include),
        ("include_once", IncludeKind::IncludeOnce),
        ("require", IncludeKind::Require),
        ("require_once", IncludeKind::RequireOnce),
    ];
    for (text, kind) in cases {
        let source = format!("{} 'a.php' ;", text);
        assert_eq!(
            expression(&source),
            Expression::Include { kind, path: boxed(Expression::LiteralString { value: b("a.php") }) }
        );
    }
}

#[test]
fn yield_forms() {
    assert_eq!(expression("yield ;"), Expression::Yield { key: None, value: None });
    assert_eq!(
        expression("yield 1 ;"),
        Expression::Yield { key: None, value: Some(boxed(integer("1"))) }
    );
    assert_eq!(
        expression("yield 1 => 2 ;"),
        Expression::Yield { key: Some(boxed(integer("1"))), value: Some(boxed(integer("2"))) }
    );
    assert_eq!(
        expression("yield from $a ;"),
        Expression::YieldFrom { value: boxed(variable("a", 2)) }
    );
}

#[test]
fn yield_from_takes_no_key() {
    assert!(parse("yield from $a => $b ;").is_err());
}

#[test]
fn array_literals() {
    let plain = |value: Expression| ArrayItem { key: None, value, unpack: false, by_ref: false };
    assert_eq!(expression("[ ] ;"), Expression::Array { items: vec![] });
    assert_eq!(
        expression("[ 1 , 2 , ] ;"),
        Expression::Array { items: vec![plain(integer("1")), plain(integer("2"))] }
    );
    assert_eq!(
        expression("array ( 1 ) ;"),
        Expression::Array { items: vec![plain(integer("1"))] }
    );
    assert_eq!(
        expression("[ 'k' => & $v , ... $rest ] ;"),
        Expression::Array {
            items: vec![
                ArrayItem {
                    key: Some(Expression::LiteralString { value: b("k") }),
                    value: variable("v", 4),
                    unpack: false,
                    by_ref: true,
                },
                ArrayItem { key: None, value: variable("rest", 7), unpack: true, by_ref: false },
            ],
        }
    );
}

#[test]
fn reference_before_a_key_is_refused_at_the_reference() {
    assert_eq!(parse("[ & $k => 1 ] ;"), Err(ParseError::UnexpectedToken(b("&"), at(1))));
}

#[test]
fn list_may_leave_items_out() {
    let e = expression("list ( $a , , $b ) = $c ;");
    match e {
        Expression::Infix { lhs, op: InfixOp::Assign, .. } => match *lhs {
            Expression::List { items } => {
                assert_eq!(items.len(), 3);
                assert!(items[0].is_some());
                assert!(items[1].is_none());
                assert!(items[2].is_some());
            }
            other => panic!("{:?}", other),
        },
        other => panic!("{:?}", other),
    }
}

#[test]
fn match_without_default() {
    let e = expression("match ( $x ) { 1 => 2 } ;");
    match e {
        Expression::Match { arms, default, .. } => {
            assert_eq!(arms.len(), 1);
            assert!(default.is_none());
        }
        other => panic!("{:?}", other),
    }
}

#[test]
fn match_with_two_defaults() {
    assert_eq!(
        parse("match ( $x ) { default => 1 , default => 2 } ;"),
        Err(ParseError::MatchExpressionWithMultipleDefaultArms(at(9)))
    );
}

#[test]
fn match_conditions_may_end_in_a_comma() {
    let e = expression("match ( $x ) { 1 , 2 , => 3 , } ;");
    match e {
        Expression::Match { arms, .. } => {
            assert_eq!(arms.len(), 1);
            assert_eq!(arms[0].conditions, vec![integer("1"), integer("2")]);
        }
        other => panic!("{:?}", other),
    }
}

#[test]
fn dynamic_variables() {
    assert_eq!(
        expression("$ $a ;"),
        Expression::DynamicVariable { name: boxed(variable("a", 1)) }
    );
    assert_eq!(
        expression("$ { 'a' } ;"),
        Expression::DynamicVariable { name: boxed(Expression::LiteralString { value: b("a") }) }
    );
    assert_eq!(
        expression("$ $ $a ;"),
        Expression::DynamicVariable {
            name: boxed(Expression::DynamicVariable { name: boxed(variable("a", 2)) }),
        }
    );
}

#[test]
fn interpolated_string_drops_empty_parts() {
    assert_eq!(
        expression("part: $a part:x \" ;"),
        Expression::InterpolatedString {
            parts: vec![StringPart::Expr(boxed(variable("a", 1))), StringPart::Const(b("x"))],
        }
    );
}

#[test]
fn interpolation_with_braces() {
    assert_eq!(
        expression("part:a ${ b } ${ c [ 1 ] } ${ 'd' } \" ;"),
        Expression::InterpolatedString {
            parts: vec![
                StringPart::Const(b("a")),
                StringPart::Expr(boxed(Expression::Variable(Variable {
                    start: at(2),
                    name: b("b"),
                    end: at(3),
                }))),
                StringPart::Expr(boxed(Expression::ArrayIndex {
                    array: boxed(Expression::Variable(Variable {
                        start: at(5),
                        name: b("c"),
                        end: at(6),
                    })),
                    index: Some(boxed(integer("1"))),
                })),
                StringPart::Expr(boxed(Expression::DynamicVariable {
                    name: boxed(Expression::LiteralString { value: b("d") }),
                })),
            ],
        }
    );
}

#[test]
fn simple_interpolation_forms() {
    assert_eq!(
        expression("part:a $b [ - 1 ] $c [ k ] $d [ $e ] $f ?-> g \" ;"),
        Expression::InterpolatedString {
            parts: vec![
                StringPart::Const(b("a")),
                StringPart::Expr(boxed(Expression::ArrayIndex {
                    array: boxed(variable("b", 1)),
                    index: Some(boxed(Expression::Negate { value: boxed(integer("1")) })),
                })),
                StringPart::Expr(boxed(Expression::ArrayIndex {
                    array: boxed(variable("c", 6)),
                    index: Some(boxed(Expression::LiteralString { value: b("k") })),
                })),
                StringPart::Expr(boxed(Expression::ArrayIndex {
                    array: boxed(variable("d", 10)),
                    index: Some(boxed(variable("e", 12))),
                })),
                StringPart::Expr(boxed(Expression::NullsafePropertyFetch {
                    target: boxed(variable("f", 14)),
                    property: boxed(named("g", 16)),
                })),
            ],
        }
    );
}

#[test]
fn a_full_expression_is_no_simple_index() {
    assert_eq!(
        parse("part:a $b [ 1.5 ] \" ;"),
        Err(ParseError::ExpectedToken(
            vec![b("`-`"), b("an integer"), b("an identifier"), b("a variable")],
            Some(b("1.5")),
            at(3)
        ))
    );
}

#[test]
fn a_string_part_must_be_a_part() {
    assert_eq!(
        parse("part:a ) \" ;"),
        Err(ParseError::ExpectedToken(
            vec![b("`${`"), b("`{$"), b("`\"`"), b("a variable")],
            Some(b(")")),
            at(1)
        ))
    );
}

#[test]
fn shell_exec() {
    assert_eq!(
        expression("` part:ls_ $dir ` ;"),
        Expression::ShellExec {
            parts: vec![StringPart::Const(b("ls ")), StringPart::Expr(boxed(variable("dir", 2)))],
        }
    );
}

#[test]
fn heredoc_is_dedented_part_by_part() {
    assert_eq!(
        expression("heredoc part:__a $b part:___c end:2 ;"),
        Expression::Heredoc {
            parts: vec![
                StringPart::Const(b("a")),
                StringPart::Expr(boxed(variable("b", 2))),
                StringPart::Const(b(" c")),
            ],
        }
    );
}

#[test]
fn heredoc_without_indentation_is_kept() {
    assert_eq!(
        expression("heredoc part:__a end:0 ;"),
        Expression::Heredoc { parts: vec![StringPart::Const(b("  a"))] }
    );
}

#[test]
fn nowdoc_is_dedented_line_by_line() {
    let tokens = vec![
        Token { kind: TokenKind::StartDocString(b("EOT"), DocStringKind::Nowdoc), span: at(0) },
        Token { kind: TokenKind::StringPart(b("  a\n   b\n c\n")), span: at(1) },
        Token {
            kind: TokenKind::EndDocString(b("EOT"), Some(DocStringIndentationKind::Space), 2),
            span: at(2),
        },
        Token { kind: TokenKind::SemiColon, span: at(3) },
        Token { kind: TokenKind::Eof, span: at(4) },
    ];
    let program = Parser::new().parse(tokens).unwrap();
    assert_eq!(
        program,
        vec![Statement::Expression { expr: Expression::Nowdoc { value: b("a\n b\nc\n") } }]
    );
}

#[test]
fn nowdoc_with_tabs() {
    let tokens = vec![
        Token { kind: TokenKind::StartDocString(b("EOT"), DocStringKind::Nowdoc), span: at(0) },
        Token { kind: TokenKind::StringPart(b("\t\ta\n\tb")), span: at(1) },
        Token {
            kind: TokenKind::EndDocString(b("EOT"), Some(DocStringIndentationKind::Tab), 1),
            span: at(2),
        },
        Token { kind: TokenKind::SemiColon, span: at(3) },
        Token { kind: TokenKind::Eof, span: at(4) },
    ];
    let program = Parser::new().parse(tokens).unwrap();
    assert_eq!(
        program,
        vec![Statement::Expression { expr: Expression::Nowdoc { value: b("\ta\nb") } }]
    );
}

#[test]
fn nowdoc_needs_a_body() {
    assert_eq!(
        parse("nowdoc end:0 ;"),
        Err(ParseError::ExpectedToken(vec![b("constant string")], Some(b("EOT")), at(1)))
    );
}

#[test]
fn comments_inside_an_expression_are_dropped() {
    assert_eq!(
        expression("1 /*c*/ + //d 2 ;"),
        infix(integer("1"), InfixOp::Add, integer("2"))
    );
}

#[test]
fn an_expression_cannot_begin_with_an_operator() {
    assert_eq!(parse("* 1 ;"), Err(ParseError::UnexpectedToken(b("*"), at(0))));
    assert_eq!(parse("1 + ) ;"), Err(ParseError::UnexpectedToken(b(")"), at(2))));
}

#[test]
fn an_expression_that_ends_too_early() {
    assert_eq!(parse("1 +"), Err(ParseError::UnexpectedEndOfFile));
    assert_eq!(parse("( 1"), Err(ParseError::ExpectedToken(vec![b("`)`")], None, at(2))));
}

#[test]
fn attributes_in_an_expression_need_a_closure() {
    assert_eq!(
        parse("$a = #[ A ] 1 ;"),
        Err(ParseError::ExpectedItemDefinitionAfterAttributes(at(5)))
    );
}

#[test]
fn closures() {
    let e = expression("function ( $a ) use ( & $b ) : int { return $a ; } ;");
    match e {
        Expression::AnonymousFunction(closure) => {
            assert_eq!(closure.params.len(), 1);
            assert_eq!(closure.uses.len(), 1);
            assert!(closure.uses[0].by_ref);
            assert!(closure.return_type.is_some());
            assert_eq!(closure.body.len(), 1);
            assert!(!closure.is_static);
        }
        other => panic!("{:?}", other),
    }
    let e = expression("static fn ( $a ) => $a + 1 ;");
    match e {
        Expression::ArrowFunction(arrow) => {
            assert!(arrow.is_static);
            assert_eq!(*arrow.expr, infix(variable("a", 6), InfixOp::Add, integer("1")));
        }
        other => panic!("{:?}", other),
    }
    let e = expression("$f = #[ A ] fn ( ) => 1 ;");
    match e {
        Expression::Infix { rhs, .. } => match *rhs {
            Expression::ArrowFunction(arrow) => assert_eq!(arrow.attributes.len(), 1),
            other => panic!("{:?}", other),
        },
        other => panic!("{:?}", other),
    }
}

#[test]
fn anonymous_class() {
    let e = expression("new class ( 1 ) extends A implements B { public $x ; } ;");
    match e {
        Expression::New { target, args } => {
            assert_eq!(args.len(), 1);
            match *target {
                Expression::AnonymousClass(class) => {
                    assert_eq!(class.extends, Some(name("A", 6)));
                    assert_eq!(class.implements, vec![name("B", 8)]);
                    assert_eq!(class.members.len(), 1);
                }
                other => panic!("{:?}", other),
            }
        }
        other => panic!("{:?}", other),
    }
}

#[test]
fn closure_captures() {
    let e = expression("function ( ) use ( $a , & $b , ) { } ;");
    match e {
        Expression::AnonymousFunction(closure) => {
            assert_eq!(closure.start, at(0));
            assert_eq!(closure.end, at(12));
            assert_eq!(
                closure.uses,
                vec![
                    ClosureUse {
                        var: Variable { start: at(5), name: b("a"), end: at(6) },
                        by_ref: false
                    },
                    ClosureUse {
                        var: Variable { start: at(8), name: b("b"), end: at(9) },
                        by_ref: true
                    },
                ]
            );
            assert!(closure.body.is_empty());
        }
        other => panic!("{:?}", other),
    }
    let e = expression("function & ( ) use ( ) { } ;");
    match e {
        Expression::AnonymousFunction(closure) => {
            assert!(closure.by_ref);
            assert!(closure.uses.is_empty());
        }
        other => panic!("{:?}", other),
    }
    assert_eq!(
        parse("function ( ) use ( $a $b ) { } ;"),
        Err(ParseError::ExpectedToken(vec![b("`)`")], Some(b("$b")), at(6)))
    );
    assert_eq!(
        parse("function ( ) use $a { } ;"),
        Err(ParseError::ExpectedToken(vec![b("`(`")], Some(b("$a")), at(4)))
    );
}

#[test]
fn arrow_function_needs_its_arrow() {
    assert_eq!(
        parse("fn ( ) 1 ;"),
        Err(ParseError::ExpectedToken(vec![b("`=>`")], Some(b("1")), at(3)))
    );
    let e = expression("fn ( ) : int => 1 ;");
    match e {
        Expression::ArrowFunction(arrow) => {
            assert_eq!(arrow.start, at(0));
            assert_eq!(arrow.end, at(7));
            assert!(arrow.return_type.is_some());
            assert_eq!(*arrow.expr, integer("1"));
        }
        other => panic!("{:?}", other),
    }
}

#[test]
fn anonymous_class_with_attributes() {
    let e = expression("new #[ A ] class { } ;");
    match e {
        Expression::New { target, args } => {
            assert!(args.is_empty());
            match *target {
                Expression::AnonymousClass(class) => {
                    assert_eq!(class.attributes.len(), 1);
                    assert_eq!(class.start, at(4));
                    assert_eq!(class.end, at(6));
                    assert_eq!(class.extends, None);
                    assert!(class.members.is_empty());
                }
                other => panic!("{:?}", other),
            }
        }
        other => panic!("{:?}", other),
    }
    assert_eq!(
        parse("new #[ A ] $a ;"),
        Err(ParseError::ExpectedToken(vec![b("`class`")], Some(b("$a")), at(4)))
    );
}
