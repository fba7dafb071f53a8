use pxp_parser::lexer::token::DocStringIndentationKind;
use pxp_parser::lexer::token::OpenTagKind;
use pxp_parser::lexer::token::Span;
use pxp_parser::lexer::token::Token;
use pxp_parser::lexer::token::TokenKind;
use pxp_parser::parser::ast::Expression;
use pxp_parser::parser::ast::InfixOp;
use pxp_parser::parser::error::ParseError;
use pxp_parser::parser::internal::identifiers;
use pxp_parser::parser::internal::modifiers;
use pxp_parser::parser::internal::modifiers::Modifier;
use pxp_parser::parser::internal::modifiers::Placed;
use pxp_parser::parser::internal::modifiers::Target;
use pxp_parser::parser::internal::precedences::Associativity;
use pxp_parser::parser::internal::precedences::Precedence;
use pxp_parser::parser::internal::strings;
use pxp_parser::parser::internal::utils;
use pxp_parser::parser::state::State;

fn b(text: &str) -> Vec<u8> {
    text.as_bytes().to_vec()
}

fn at(index: usize) -> Span {
    Span { line: 1, column: index + 1, position: index }
}

fn tokens(kinds: Vec<TokenKind>) -> Vec<Token> {
    let mut list = Vec::new();
    for kind in kinds {
        let index = list.len();
        list.push(Token { kind, span: at(index) });
    }
    list
}

#[test]
fn classes_from_the_loosest_to_the_tightest() {
    let order = vec![
        Precedence::Lowest,
        Precedence::KeyOr,
        Precedence::KeyXor,
        Precedence::KeyAnd,
        Precedence::Print,
        Precedence::Yield,
        Precedence::YieldFrom,
        Precedence::Assignment,
        Precedence::Ternary,
        Precedence::NullCoalesce,
        Precedence::Or,
        Precedence::And,
        Precedence::BitwiseOr,
        Precedence::BitwiseXor,
        Precedence::BitwiseAnd,
        Precedence::Equality,
        Precedence::LtGt,
        Precedence::Concat,
        Precedence::BitShift,
        Precedence::AddSub,
        Precedence::MulDivMod,
        Precedence::Bang,
        Precedence::Instanceof,
        Precedence::Prefix,
        Precedence::Pow,
        Precedence::CallDim,
        Precedence::CloneOrNew,
        Precedence::ObjectAccess,
        Precedence::IncDec,
    ];
    for (rank, class) in order.iter().enumerate() {
        assert_eq!(class.level() as usize, rank);
    }
    for pair in order.windows(2) {
        assert!(pair[0] < pair[1]);
    }
}

#[test]
fn prefix_classes() {
    assert_eq!(Precedence::prefix(&TokenKind::Bang), Precedence::Bang);
    assert_eq!(Precedence::prefix(&TokenKind::Clone), Precedence::CloneOrNew);
    assert_eq!(Precedence::prefix(&TokenKind::New), Precedence::CloneOrNew);
    assert_eq!(Precedence::prefix(&TokenKind::Minus), Precedence::Prefix);
    assert_eq!(Precedence::prefix(&TokenKind::IntCast), Precedence::Prefix);
    assert_eq!(Precedence::prefix(&TokenKind::Print), Precedence::Prefix);
}

#[test]
fn infix_classes() {
    let cases = vec![
        (TokenKind::Pow, Precedence::Pow),
        (TokenKind::Instanceof, Precedence::Instanceof),
        (TokenKind::Asterisk, Precedence::MulDivMod),
        (TokenKind::Slash, Precedence::MulDivMod),
        (TokenKind::Percent, Precedence::MulDivMod),
        (TokenKind::Plus, Precedence::AddSub),
        (TokenKind::Minus, Precedence::AddSub),
        (TokenKind::LeftShift, Precedence::BitShift),
        (TokenKind::RightShift, Precedence::BitShift),
        (TokenKind::Dot, Precedence::Concat),
        (TokenKind::LessThan, Precedence::LtGt),
        (TokenKind::GreaterThanEquals, Precedence::LtGt),
        (TokenKind::DoubleEquals, Precedence::Equality),
        (TokenKind::BangDoubleEquals, Precedence::Equality),
        (TokenKind::Spaceship, Precedence::Equality),
        (TokenKind::AngledLeftRight, Precedence::Equality),
        (TokenKind::Ampersand, Precedence::BitwiseAnd),
        (TokenKind::Caret, Precedence::BitwiseXor),
        (TokenKind::Pipe, Precedence::BitwiseOr),
        (TokenKind::BooleanAnd, Precedence::And),
        (TokenKind::BooleanOr, Precedence::Or),
        (TokenKind::Question, Precedence::Ternary),
        (TokenKind::QuestionColon, Precedence::Ternary),
        (TokenKind::Equals, Precedence::Assignment),
        (TokenKind::PlusEquals, Precedence::Assignment),
        (TokenKind::CoalesceEqual, Precedence::Assignment),
        (TokenKind::RightShiftEquals, Precedence::Assignment),
        (TokenKind::LogicalAnd, Precedence::KeyAnd),
        (TokenKind::LogicalXor, Precedence::KeyXor),
        (TokenKind::LogicalOr, Precedence::KeyOr),
    ];
    for (kind, class) in cases {
        assert!(pxp_parser::parser::is_infix(&kind));
        assert_eq!(Precedence::infix(&kind), class);
    }
    assert!(!pxp_parser::parser::is_infix(&TokenKind::Coalesce));
    assert!(!pxp_parser::parser::is_infix(&TokenKind::SemiColon));
    assert!(!pxp_parser::parser::is_infix(&TokenKind::Identifier(b("a"))));
}

#[test]
fn postfix_classes() {
    let cases = vec![
        (TokenKind::Coalesce, Precedence::NullCoalesce),
        (TokenKind::Increment, Precedence::IncDec),
        (TokenKind::Decrement, Precedence::IncDec),
        (TokenKind::LeftParen, Precedence::CallDim),
        (TokenKind::LeftBracket, Precedence::CallDim),
        (TokenKind::Arrow, Precedence::ObjectAccess),
        (TokenKind::NullsafeArrow, Precedence::ObjectAccess),
        (TokenKind::DoubleColon, Precedence::ObjectAccess),
    ];
    for (kind, class) in cases {
        assert!(pxp_parser::parser::is_postfix(&kind));
        assert_eq!(Precedence::postfix(&kind), class);
    }
    assert!(!pxp_parser::parser::is_postfix(&TokenKind::Plus));
}

#[test]
fn associativities() {
    let left = vec![
        Precedence::Instanceof,
        Precedence::MulDivMod,
        Precedence::AddSub,
        Precedence::BitShift,
        Precedence::Concat,
        Precedence::BitwiseAnd,
        Precedence::BitwiseOr,
        Precedence::BitwiseXor,
        Precedence::And,
        Precedence::Or,
        Precedence::KeyAnd,
        Precedence::KeyOr,
        Precedence::KeyXor,
    ];
    for class in left {
        assert_eq!(class.associativity(), Some(Associativity::Left));
    }
    for class in vec![Precedence::Pow, Precedence::NullCoalesce, Precedence::Assignment] {
        assert_eq!(class.associativity(), Some(Associativity::Right));
    }
    for class in vec![Precedence::Ternary, Precedence::Equality, Precedence::LtGt] {
        assert_eq!(class.associativity(), Some(Associativity::Non));
    }
    for class in vec![
        Precedence::Lowest,
        Precedence::Prefix,
        Precedence::Bang,
        Precedence::CallDim,
        Precedence::ObjectAccess,
        Precedence::IncDec,
        Precedence::CloneOrNew,
        Precedence::Print,
        Precedence::Yield,
        Precedence::YieldFrom,
    ] {
        assert_eq!(class.associativity(), None);
    }
}

#[test]
fn prefix_operators_and_their_nodes() {
    assert!(pxp_parser::parser::is_prefix(&TokenKind::Bang));
    assert!(pxp_parser::parser::is_prefix(&TokenKind::At));
    assert!(pxp_parser::parser::is_prefix(&TokenKind::ArrayCast));
    assert!(!pxp_parser::parser::is_prefix(&TokenKind::Asterisk));
    assert!(!pxp_parser::parser::is_prefix(&TokenKind::Clone));
    assert_eq!(
        pxp_parser::parser::prefix(&TokenKind::Minus, Expression::Null),
        Expression::Negate { value: Box::new(Expression::Null) }
    );
    assert_eq!(
        pxp_parser::parser::infix(Expression::Null, &TokenKind::Equals, Expression::Null, true),
        Expression::Infix {
            lhs: Box::new(Expression::Null),
            op: InfixOp::AssignRef,
            rhs: Box::new(Expression::Null),
        }
    );
    assert_eq!(
        pxp_parser::parser::infix(Expression::Null, &TokenKind::Plus, Expression::Null, true),
        Expression::Infix {
            lhs: Box::new(Expression::Null),
            op: InfixOp::Add,
            rhs: Box::new(Expression::Null),
        }
    );
}

#[test]
fn token_texts() {
    assert_eq!(TokenKind::DoubleEquals.text(), b("=="));
    assert_eq!(TokenKind::RequireOnce.text(), b("require_once"));
    assert_eq!(TokenKind::Variable(b("a")).text(), b("$a"));
    assert_eq!(TokenKind::Identifier(b("A")).text(), b("A"));
    assert_eq!(TokenKind::OpenTag(OpenTagKind::Echo).text(), b("<?="));
    assert_eq!(TokenKind::DoubleQuote.text(), b("\""));
    assert_eq!(TokenKind::NamespaceSeparator.text(), b("\\"));
    assert_eq!(DocStringIndentationKind::Space.byte(), b' ');
    assert_eq!(DocStringIndentationKind::Tab.byte(), b'\t');
}

#[test]
fn the_state_walks_the_tokens() {
    let mut state = State::new(tokens(vec![TokenKind::Plus, TokenKind::Minus]));
    assert_eq!(state.tokens.len(), 3);
    assert_eq!(state.tokens[2], Token { kind: TokenKind::Eof, span: at(1) });
    assert_eq!(state.current().kind, TokenKind::Plus);
    assert_eq!(state.peek().kind, TokenKind::Minus);
    assert_eq!(state.lookahead(2).kind, TokenKind::Eof);
    assert_eq!(state.lookahead(9).kind, TokenKind::Eof);
    assert!(!state.is_eof());
    state.next();
    assert_eq!(state.current().kind, TokenKind::Minus);
    assert_eq!(state.peek().kind, TokenKind::Eof);
    state.next();
    assert!(state.is_eof());
    state.next();
    assert!(state.is_eof());
    assert_eq!(state.position, 2);
    assert_eq!(state.peek().kind, TokenKind::Eof);
}

#[test]
fn the_state_of_no_tokens() {
    let state = State::new(vec![]);
    assert!(state.is_eof());
    assert_eq!(state.current().span, Span { line: 1, column: 1, position: 0 });
    assert!(!state.has_class_scope);
    assert!(!state.has_class_parent_scope);
}

#[test]
fn the_state_gathers_and_skips_comments() {
    let kinds = vec![
        TokenKind::SingleLineComment(b("//a")),
        TokenKind::DocumentComment(b("/**b*/")),
        TokenKind::Plus,
        TokenKind::HashMarkComment(b("#c")),
        TokenKind::Minus,
    ];
    let mut state = State::new(tokens(kinds));
    assert_eq!(state.past_comments().kind, TokenKind::Plus);
    state.gather_comments();
    assert_eq!(state.current().kind, TokenKind::Plus);
    assert_eq!(state.comments.len(), 2);
    assert_eq!(state.comments[0].content, b("//a"));
    assert_eq!(state.comments[0].start, at(0));
    assert_eq!(state.comments[0].end, at(1));
    assert_eq!(state.comments[1].content, b("/**b*/"));
    state.gather_comments();
    assert_eq!(state.comments.len(), 2);
    state.next();
    state.skip_comments();
    assert_eq!(state.current().kind, TokenKind::Minus);
    assert_eq!(state.comments.len(), 2);
    state.clear_comments();
    assert!(state.comments.is_empty());
}

#[test]
fn identifier_recognizers() {
    let make = |kind: TokenKind| State::new(tokens(vec![kind, TokenKind::SemiColon]));
    let expected = |got: &str| {
        ParseError::ExpectedToken(vec![b("an identifier")], Some(b(got)), at(0))
    };

    let mut state = make(TokenKind::Identifier(b("A")));
    let id = identifiers::ident(&mut state).unwrap();
    assert_eq!((id.start, id.name, id.end), (at(0), b("A"), at(1)));
    assert_eq!(state.position, 1);

    let mut state = make(TokenKind::QualifiedIdentifier(b("A\\B")));
    assert_eq!(identifiers::ident(&mut state), Err(expected("A\\B")));
    assert_eq!(state.position, 0);
    assert_eq!(identifiers::name(&mut state).unwrap().name, b("A\\B"));

    let mut state = make(TokenKind::FullyQualifiedIdentifier(b("\\A")));
    assert_eq!(identifiers::name(&mut state), Err(expected("\\A")));
    assert_eq!(identifiers::full_name(&mut state).unwrap().name, b("\\A"));

    let mut state = make(TokenKind::Array);
    assert_eq!(identifiers::full_name(&mut state), Err(expected("array")));
    assert_eq!(identifiers::full_name_maybe_type_keyword(&mut state).unwrap().name, b("array"));
    let mut state = make(TokenKind::Callable);
    assert_eq!(identifiers::full_name_maybe_type_keyword(&mut state).unwrap().name, b("callable"));

    let mut state = make(TokenKind::Static);
    assert_eq!(identifiers::full_name_maybe_type_keyword(&mut state), Err(expected("static")));
    assert_eq!(identifiers::type_with_static(&mut state).unwrap().name, b("static"));

    let mut state = make(TokenKind::Variable(b("v")));
    let v = identifiers::var(&mut state).unwrap();
    assert_eq!((v.start, v.name, v.end), (at(0), b("v"), at(1)));
    let mut state = make(TokenKind::Identifier(b("v")));
    assert_eq!(
        identifiers::var(&mut state),
        Err(ParseError::ExpectedToken(vec![b("a variable")], Some(b("v")), at(0)))
    );
}

#[test]
fn reserved_words_as_names() {
    let reserved = vec![
        (TokenKind::Static, "static"),
        (TokenKind::Abstract, "abstract"),
        (TokenKind::Final, "final"),
        (TokenKind::For, "for"),
        (TokenKind::Private, "private"),
        (TokenKind::Protected, "protected"),
        (TokenKind::Public, "public"),
        (TokenKind::Require, "require"),
        (TokenKind::RequireOnce, "require_once"),
        (TokenKind::New, "new"),
        (TokenKind::Clone, "clone"),
        (TokenKind::If, "if"),
        (TokenKind::Else, "else"),
        (TokenKind::ElseIf, "elseif"),
        (TokenKind::Default, "default"),
        (TokenKind::Enum, "enum"),
        (TokenKind::Match, "match"),
        (TokenKind::Catch, "catch"),
        (TokenKind::Finally, "finally"),
        (TokenKind::Namespace, "namespace"),
    ];
    for (kind, text) in reserved {
        assert!(identifiers::is_reserved_ident(&kind));
        let mut state = State::new(tokens(vec![kind, TokenKind::SemiColon]));
        let id = identifiers::ident_maybe_reserved(&mut state).unwrap();
        assert_eq!(id.name, b(text));
        assert_eq!(state.position, 1);
    }
    assert!(!identifiers::is_reserved_ident(&TokenKind::While));
    let mut state = State::new(tokens(vec![TokenKind::While]));
    assert!(identifiers::ident_maybe_reserved(&mut state).is_err());
    assert_eq!(state.position, 0);
}

#[test]
fn an_error_at_the_end_names_no_token() {
    let mut state = State::new(vec![]);
    assert_eq!(
        identifiers::ident(&mut state),
        Err(ParseError::ExpectedToken(
            vec![b("an identifier")],
            None,
            Span { line: 1, column: 1, position: 0 }
        ))
    );
}

#[test]
fn skipping_required_tokens() {
    let mut state = State::new(tokens(vec![TokenKind::LeftBrace, TokenKind::CloseTag]));
    assert_eq!(
        utils::skip_right_brace(&mut state),
        Err(ParseError::ExpectedToken(vec![b("`}`")], Some(b("{")), at(0)))
    );
    assert_eq!(state.position, 0);
    assert_eq!(utils::skip_left_brace(&mut state), Ok(()));
    assert_eq!(state.position, 1);
    assert_eq!(utils::skip_semicolon(&mut state), Ok(()));
    assert_eq!(state.position, 1);
    assert!(utils::spells(&b("int"), "int"));
    assert!(!utils::spells(&b("int"), "int "));
    assert!(!utils::spells(&b("inx"), "int"));
}

#[test]
fn errors_give_their_position() {
    assert_eq!(ParseError::UnexpectedEndOfFile.span(), None);
    assert_eq!(ParseError::UnexpectedToken(b("a"), at(3)).span(), Some(at(3)));
    assert_eq!(ParseError::ExpectedToken(vec![], None, at(4)).span(), Some(at(4)));
    assert_eq!(ParseError::MultipleModifiers(b("a"), at(5)).span(), Some(at(5)));
}

#[test]
fn dedenting_a_segment() {
    assert_eq!(strings::dedent(&b("    a"), b' ', 2), b("  a"));
    assert_eq!(strings::dedent(&b(" a"), b' ', 2), b("a"));
    assert_eq!(strings::dedent(&b("a  "), b' ', 2), b("a  "));
    assert_eq!(strings::dedent(&b("  "), b' ', 5), b(""));
    assert_eq!(strings::dedent(&b("\t a"), b' ', 2), b("\t a"));
    assert_eq!(strings::dedent(&b("  a\n  b"), b' ', 2), b("a\n  b"));
    assert_eq!(strings::dedent(&b("  a"), b' ', 0), b("  a"));
}

#[test]
fn dedenting_every_line() {
    assert_eq!(strings::dedent_lines(&b("  a\n   b\n c"), b' ', 2), b("a\n b\nc"));
    assert_eq!(strings::dedent_lines(&b("  a\n"), b' ', 2), b("a\n"));
    assert_eq!(strings::dedent_lines(&b("\n\n"), b' ', 2), b("\n\n"));
    assert_eq!(strings::dedent_lines(&b(""), b' ', 2), b(""));
    assert_eq!(strings::dedent_lines(&b("  \n  a"), b' ', 3), b("\na"));
}

#[test]
fn checking_modifiers() {
    let placed = |list: Vec<Modifier>| -> Vec<Placed> {
        list.into_iter().enumerate().map(|(i, modifier)| Placed { modifier, span: at(i) }).collect()
    };
    assert_eq!(modifiers::check(&placed(vec![]), Target::Class), Ok(()));
    assert_eq!(
        modifiers::check(&placed(vec![Modifier::Public, Modifier::Static]), Target::Method),
        Ok(())
    );
    assert_eq!(
        modifiers::check(&placed(vec![Modifier::Public, Modifier::Public]), Target::Method),
        Err(ParseError::MultipleModifiers(b("public"), at(1)))
    );
    assert_eq!(
        modifiers::check(&placed(vec![Modifier::Public, Modifier::Protected]), Target::Property),
        Err(ParseError::ConflictingModifiers(b("public"), b("protected"), at(1)))
    );
    assert_eq!(
        modifiers::check(&placed(vec![Modifier::Final, Modifier::Abstract]), Target::Method),
        Err(ParseError::ConflictingModifiers(b("final"), b("abstract"), at(1)))
    );
    assert_eq!(
        modifiers::check(&placed(vec![Modifier::Public]), Target::Class),
        Err(ParseError::UnexpectedModifier(b("public"), at(0)))
    );
    assert_eq!(
        modifiers::check(&placed(vec![Modifier::Static]), Target::PromotedProperty),
        Err(ParseError::UnexpectedModifier(b("static"), at(0)))
    );
    assert!(modifiers::has(&placed(vec![Modifier::Final, Modifier::Static]), Modifier::Static));
    assert!(!modifiers::has(&placed(vec![Modifier::Final]), Modifier::Static));
}

#[test]
fn collecting_modifiers() {
    let mut state = State::new(tokens(vec![
        TokenKind::Public,
        TokenKind::Static,
        TokenKind::Function,
    ]));
    let list = modifiers::collect(&mut state);
    assert_eq!(
        list,
        vec![
            Placed { modifier: Modifier::Public, span: at(0) },
            Placed { modifier: Modifier::Static, span: at(1) },
        ]
    );
    assert_eq!(state.position, 2);
}
