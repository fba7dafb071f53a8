use pxp_parser::lexer::token::OpenTagKind;
use pxp_parser::lexer::token::Span;
use pxp_parser::lexer::token::Token;
use pxp_parser::lexer::token::TokenKind;
use pxp_parser::parser::ast::classes::ClassMember;
use pxp_parser::parser::ast::identifiers::Identifier;
use pxp_parser::parser::ast::traits::TraitUsageAdaptation;
use pxp_parser::parser::ast::variables::Variable;
use pxp_parser::parser::ast::Expression;
use pxp_parser::parser::ast::InfixOp;
use pxp_parser::parser::ast::Statement;
use pxp_parser::parser::ast::StringPart;
use pxp_parser::parser::error::ParseError;
use pxp_parser::parser::Parser;

fn at(index: usize) -> Span {
    Span { line: 1, column: index + 1, position: index }
}

/// Places the kinds one after another, after an opening tag and before `Eof`.
fn php(kinds: Vec<TokenKind>) -> Vec<Token> {
    let mut tokens = vec![Token { kind: TokenKind::OpenTag(OpenTagKind::Full), span: at(0) }];
    for kind in kinds {
        let index = tokens.len();
        tokens.push(Token { kind, span: at(index) });
    }
    let index = tokens.len();
    tokens.push(Token { kind: TokenKind::Eof, span: at(index) });
    tokens
}

fn b(text: &str) -> Vec<u8> {
    text.as_bytes().to_vec()
}

fn var(name: &str) -> TokenKind {
    TokenKind::Variable(b(name))
}

fn number(text: &str) -> TokenKind {
    TokenKind::LiteralInteger(b(text))
}

fn ident(name: &str) -> TokenKind {
    TokenKind::Identifier(b(name))
}

fn variable(name: &str, index: usize) -> Expression {
    Expression::Variable(Variable { start: at(index), name: b(name), end: at(index + 1) })
}

fn name(text: &str, index: usize) -> Identifier {
    Identifier { start: at(index), name: b(text), end: at(index + 1) }
}

fn integer(text: &str) -> Expression {
    Expression::LiteralInteger { i: b(text) }
}

fn boxed(e: Expression) -> Box<Expression> {
    Box::new(e)
}

#[test]
fn empty_input_is_an_empty_program() {
    let program = Parser::new().parse(php(vec![])).unwrap();
    assert!(program.is_empty());
}

#[test]
fn no_tokens_at_all_is_an_empty_program() {
    let program = Parser::new().parse(vec![]).unwrap();
    assert!(program.is_empty());
}

#[test]
fn open_and_close_tag_alone_is_an_empty_program() {
    let program = Parser::new().parse(php(vec![TokenKind::CloseTag])).unwrap();
    assert!(program.is_empty());
}

#[test]
fn bare_return() {
    let program = Parser::new().parse(php(vec![TokenKind::Return, TokenKind::SemiColon])).unwrap();
    assert_eq!(program, vec![Statement::Return { value: None }]);
}

#[test]
fn multiplication_binds_tighter_than_addition_and_assignment() {
    // $a = 1 + 2 * 3;
    let program = Parser::new()
        .parse(php(vec![
            var("a"),
            TokenKind::Equals,
            number("1"),
            TokenKind::Plus,
            number("2"),
            TokenKind::Asterisk,
            number("3"),
            TokenKind::SemiColon,
        ]))
        .unwrap();
    let expected = Expression::Infix {
        lhs: boxed(variable("a", 1)),
        op: InfixOp::Assign,
        rhs: boxed(Expression::Infix {
            lhs: boxed(integer("1")),
            op: InfixOp::Add,
            rhs: boxed(Expression::Infix {
                lhs: boxed(integer("2")),
                op: InfixOp::Mul,
                rhs: boxed(integer("3")),
            }),
        }),
    };
    assert_eq!(program, vec![Statement::Expression { expr: expected }]);
}

#[test]
fn coalesce_groups_to_the_right() {
    // $a ?? $b ?? $c;
    let program = Parser::new()
        .parse(php(vec![
            var("a"),
            TokenKind::Coalesce,
            var("b"),
            TokenKind::Coalesce,
            var("c"),
            TokenKind::SemiColon,
        ]))
        .unwrap();
    let expected = Expression::Coalesce {
        lhs: boxed(variable("a", 1)),
        rhs: boxed(Expression::Coalesce {
            lhs: boxed(variable("b", 3)),
            rhs: boxed(variable("c", 5)),
        }),
    };
    assert_eq!(program, vec![Statement::Expression { expr: expected }]);
}

#[test]
fn equality_does_not_chain() {
    // 1 == 2 == 3;
    let error = Parser::new()
        .parse(php(vec![
            number("1"),
            TokenKind::DoubleEquals,
            number("2"),
            TokenKind::DoubleEquals,
            number("3"),
            TokenKind::SemiColon,
        ]))
        .unwrap_err();
    assert_eq!(error, ParseError::UnexpectedToken(b("=="), at(4)));
}

#[test]
fn match_with_two_conditions_and_a_default() {
    // match($x) { 1, 2 => "a", default => "b", };
    let program = Parser::new()
        .parse(php(vec![
            TokenKind::Match,
            TokenKind::LeftParen,
            var("x"),
            TokenKind::RightParen,
            TokenKind::LeftBrace,
            number("1"),
            TokenKind::Comma,
            number("2"),
            TokenKind::DoubleArrow,
            TokenKind::LiteralString(b("a")),
            TokenKind::Comma,
            TokenKind::Default,
            TokenKind::DoubleArrow,
            TokenKind::LiteralString(b("b")),
            TokenKind::Comma,
            TokenKind::RightBrace,
            TokenKind::SemiColon,
        ]))
        .unwrap();
    assert_eq!(program.len(), 1);
    match &program[0] {
        Statement::Expression { expr: Expression::Match { condition, arms, default } } => {
            assert_eq!(**condition, variable("x", 3));
            assert_eq!(arms.len(), 1);
            assert_eq!(arms[0].conditions, vec![integer("1"), integer("2")]);
            assert_eq!(arms[0].body, Expression::LiteralString { value: b("a") });
            let default = default.as_ref().unwrap();
            assert_eq!(default.body, Expression::LiteralString { value: b("b") });
        }
        other => panic!("not a match: {:?}", other),
    }
}

#[test]
fn trait_usage_with_the_three_adaptations() {
    // class C { use T { T::foo as bar; T::foo insteadof U; private baz; } }
    let program = Parser::new()
        .parse(php(vec![
            TokenKind::Class,
            ident("C"),
            TokenKind::LeftBrace,
            TokenKind::Use,
            ident("T"),
            TokenKind::LeftBrace,
            ident("T"),
            TokenKind::DoubleColon,
            ident("foo"),
            TokenKind::As,
            ident("bar"),
            TokenKind::SemiColon,
            ident("T"),
            TokenKind::DoubleColon,
            ident("foo"),
            TokenKind::Insteadof,
            ident("U"),
            TokenKind::SemiColon,
            TokenKind::Private,
            ident("baz"),
            TokenKind::SemiColon,
            TokenKind::RightBrace,
            TokenKind::RightBrace,
        ]))
        .unwrap();
    assert_eq!(program.len(), 1);
    let class = match &program[0] {
        Statement::Class(class) => class,
        other => panic!("not a class: {:?}", other),
    };
    assert_eq!(class.name.name, b("C"));
    assert_eq!(class.members.len(), 1);
    let usage = match &class.members[0] {
        ClassMember::TraitUsage(usage) => usage,
        other => panic!("not a trait usage: {:?}", other),
    };
    assert_eq!(usage.traits, vec![name("T", 5)]);
    assert_eq!(usage.adaptations.len(), 3);
    assert!(matches!(usage.adaptations[0], TraitUsageAdaptation::Alias { .. }));
    assert!(matches!(usage.adaptations[1], TraitUsageAdaptation::Precedence { .. }));
    assert!(matches!(usage.adaptations[2], TraitUsageAdaptation::Visibility { .. }));
}

#[test]
fn interpolated_string_with_index_and_property() {
    // $s = "hello $name[0] {$obj->x}";
    let program = Parser::new()
        .parse(php(vec![
            var("s"),
            TokenKind::Equals,
            TokenKind::StringPart(b("hello ")),
            var("name"),
            TokenKind::LeftBracket,
            number("0"),
            TokenKind::RightBracket,
            TokenKind::StringPart(b(" ")),
            TokenKind::LeftBrace,
            var("obj"),
            TokenKind::Arrow,
            ident("x"),
            TokenKind::RightBrace,
            TokenKind::DoubleQuote,
            TokenKind::SemiColon,
        ]))
        .unwrap();
    let expected = Expression::Infix {
        lhs: boxed(variable("s", 1)),
        op: InfixOp::Assign,
        rhs: boxed(Expression::InterpolatedString {
            parts: vec![
                StringPart::Const(b("hello ")),
                StringPart::Expr(boxed(Expression::ArrayIndex {
                    array: boxed(variable("name", 4)),
                    index: Some(boxed(integer("0"))),
                })),
                StringPart::Const(b(" ")),
                StringPart::Expr(boxed(Expression::PropertyFetch {
                    target: boxed(variable("obj", 10)),
                    property: boxed(Expression::Identifier(name("x", 12))),
                })),
            ],
        }),
    };
    assert_eq!(program, vec![Statement::Expression { expr: expected }]);
}
