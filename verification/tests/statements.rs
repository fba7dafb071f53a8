use pxp_parser::lexer::token::DocStringIndentationKind;
use pxp_parser::lexer::token::DocStringKind;
use pxp_parser::lexer::token::OpenTagKind;
use pxp_parser::lexer::token::Span;
use pxp_parser::lexer::token::Token;
use pxp_parser::lexer::token::TokenKind;
use pxp_parser::parser::ast::comments::Comment;
use pxp_parser::parser::ast::comments::CommentFormat;
use pxp_parser::parser::ast::identifiers::Identifier;
use pxp_parser::parser::ast::variables::Variable;
use pxp_parser::parser::ast::Expression;
use pxp_parser::parser::ast::Statement;
use pxp_parser::parser::ast::Use;
use pxp_parser::parser::ast::UseKind;
use pxp_parser::parser::error::ParseError;
use pxp_parser::parser::Parser;

/// Every token kind that carries no data, for the small lexer below.
fn unit_kinds() -> Vec<TokenKind> {
    vec![
        TokenKind::Abstract, TokenKind::Array, TokenKind::As, TokenKind::Break,
        TokenKind::Callable, TokenKind::Case, TokenKind::Catch, TokenKind::Class, TokenKind::Clone,
        TokenKind::Const, TokenKind::Continue, TokenKind::Declare, TokenKind::Default,
        TokenKind::Do, TokenKind::Echo, TokenKind::Else, TokenKind::ElseIf, TokenKind::EndDeclare,
        TokenKind::EndFor, TokenKind::EndForeach, TokenKind::EndIf, TokenKind::EndSwitch,
        TokenKind::EndWhile, TokenKind::Enum, TokenKind::Extends, TokenKind::False,
        TokenKind::Final, TokenKind::Finally, TokenKind::Fn, TokenKind::For, TokenKind::Foreach,
        TokenKind::From, TokenKind::Function, TokenKind::Global, TokenKind::Goto,
        TokenKind::HaltCompiler, TokenKind::If, TokenKind::Implements, TokenKind::Include,
        TokenKind::IncludeOnce, TokenKind::Instanceof, TokenKind::Insteadof, TokenKind::Interface,
        TokenKind::List, TokenKind::LogicalAnd, TokenKind::LogicalOr, TokenKind::LogicalXor,
        TokenKind::Match, TokenKind::Namespace, TokenKind::New, TokenKind::Null, TokenKind::Parent,
        TokenKind::Print, TokenKind::Private, TokenKind::Protected, TokenKind::Public,
        TokenKind::Readonly, TokenKind::Require, TokenKind::RequireOnce, TokenKind::Return,
        TokenKind::Self_, TokenKind::Static, TokenKind::Switch, TokenKind::Throw, TokenKind::Trait,
        TokenKind::True, TokenKind::Try, TokenKind::Use, TokenKind::Var, TokenKind::While,
        TokenKind::Yield, TokenKind::DirConstant, TokenKind::StringCast, TokenKind::BinaryCast,
        TokenKind::ObjectCast, TokenKind::BoolCast, TokenKind::BooleanCast, TokenKind::IntCast,
        TokenKind::IntegerCast, TokenKind::FloatCast, TokenKind::DoubleCast, TokenKind::RealCast,
        TokenKind::UnsetCast, TokenKind::ArrayCast, TokenKind::Ampersand,
        TokenKind::AmpersandEquals, TokenKind::AngledLeftRight, TokenKind::Arrow,
        TokenKind::NullsafeArrow, TokenKind::At, TokenKind::Asterisk, TokenKind::AsteriskEqual,
        TokenKind::Attribute, TokenKind::Backtick, TokenKind::Bang, TokenKind::BangDoubleEquals,
        TokenKind::BangEquals, TokenKind::BitwiseNot, TokenKind::BooleanAnd, TokenKind::BooleanOr,
        TokenKind::Caret, TokenKind::CaretEquals, TokenKind::CloseTag, TokenKind::Coalesce,
        TokenKind::CoalesceEqual, TokenKind::Colon, TokenKind::Comma, TokenKind::Decrement,
        TokenKind::Dollar, TokenKind::DollarLeftBrace, TokenKind::Dot, TokenKind::DotEquals,
        TokenKind::DoubleArrow, TokenKind::DoubleColon, TokenKind::DoubleEquals,
        TokenKind::DoubleQuote, TokenKind::Ellipsis, TokenKind::Equals, TokenKind::GreaterThan,
        TokenKind::GreaterThanEquals, TokenKind::Increment, TokenKind::LeftBrace,
        TokenKind::LeftBracket, TokenKind::LeftParen, TokenKind::LeftShift,
        TokenKind::LeftShiftEquals, TokenKind::LessThan, TokenKind::LessThanEquals,
        TokenKind::Minus, TokenKind::MinusEquals, TokenKind::NamespaceSeparator,
        TokenKind::Percent, TokenKind::PercentEquals, TokenKind::Pipe, TokenKind::PipeEquals,
        TokenKind::Plus, TokenKind::PlusEquals, TokenKind::Pow, TokenKind::PowEquals,
        TokenKind::Question, TokenKind::QuestionColon, TokenKind::RightBrace,
        TokenKind::RightBracket, TokenKind::RightParen, TokenKind::RightShift,
        TokenKind::RightShiftEquals, TokenKind::SemiColon, TokenKind::Slash,
        TokenKind::SlashEquals, TokenKind::Spaceship, TokenKind::TripleEquals,
    ]
}

fn b(text: &str) -> Vec<u8> {
    text.as_bytes().to_vec()
}

/// The kind that a word of a test input stands for. Words are separated by
/// spaces; `part:x` is a string part, `html:x` inline HTML, `end:2` the end of
/// a doc string indented by two spaces, `heredoc`/`nowdoc` its start.
fn kind_of(word: &str) -> TokenKind {
    if word == "<?php" {
        return TokenKind::OpenTag(OpenTagKind::Full);
    }
    if let Some(rest) = word.strip_prefix("part:") {
        return TokenKind::StringPart(b(&rest.replace('_', " ").replace("\\n", "\n")));
    }
    if let Some(rest) = word.strip_prefix("html:") {
        return TokenKind::InlineHtml(b(rest));
    }
    if let Some(rest) = word.strip_prefix("end:") {
        let amount: usize = rest.parse().unwrap();
        let indentation = if amount > 0 { Some(DocStringIndentationKind::Space) } else { None };
        return TokenKind::EndDocString(b("EOT"), indentation, amount);
    }
    if word == "heredoc" {
        return TokenKind::StartDocString(b("EOT"), DocStringKind::Heredoc);
    }
    if word == "nowdoc" {
        return TokenKind::StartDocString(b("EOT"), DocStringKind::Nowdoc);
    }
    if word.starts_with("/**") {
        return TokenKind::DocumentComment(b(word));
    }
    if word.starts_with("/*") {
        return TokenKind::MultiLineComment(b(word));
    }
    if word.starts_with("//") {
        return TokenKind::SingleLineComment(b(word));
    }
    if word.starts_with('#') && word != "#[" {
        return TokenKind::HashMarkComment(b(word));
    }
    for kind in unit_kinds() {
        if kind.text() == word.as_bytes() {
            return kind;
        }
    }
    if let Some(name) = word.strip_prefix('$') {
        return TokenKind::Variable(b(name));
    }
    if let Some(text) = word.strip_prefix('\'') {
        return TokenKind::LiteralString(b(text.trim_end_matches('\'')));
    }
    if word.chars().all(|c| c.is_ascii_digit()) {
        return TokenKind::LiteralInteger(b(word));
    }
    if word.chars().all(|c| c.is_ascii_digit() || c == '.') {
        return TokenKind::LiteralFloat(b(word));
    }
    if word.starts_with('\\') {
        return TokenKind::FullyQualifiedIdentifier(b(word));
    }
    if word.contains('\\') {
        return TokenKind::QualifiedIdentifier(b(word));
    }
    TokenKind::Identifier(b(word))
}

fn at(index: usize) -> Span {
    Span { line: 1, column: index + 1, position: index }
}

/// Splits a test input at its spaces and gives each word its token, with
/// the word's index as its position. An `Eof` follows the last word.
fn lex(source: &str) -> Vec<Token> {
    let mut tokens = Vec::new();
    for word in source.split_whitespace() {
        let index = tokens.len();
        tokens.push(Token { kind: kind_of(word), span: at(index) });
    }
    let index = tokens.len();
    tokens.push(Token { kind: TokenKind::Eof, span: at(index) });
    tokens
}

fn parse(source: &str) -> Result<Vec<Statement>, ParseError> {
    Parser::new().parse(lex(source))
}

fn one(source: &str) -> Statement {
    let mut program = parse(source).unwrap();
    assert_eq!(program.len(), 1, "{:?}", program);
    program.remove(0)
}

fn name(text: &str, index: usize) -> Identifier {
    Identifier { start: at(index), name: b(text), end: at(index + 1) }
}

fn variable(text: &str, index: usize) -> Variable {
    Variable { start: at(index), name: b(text), end: at(index + 1) }
}

fn integer(text: &str) -> Expression {
    Expression::LiteralInteger { i: b(text) }
}

#[test]
fn tags_alone_give_no_statement() {
    assert_eq!(parse("<?php"), Ok(vec![]));
    assert_eq!(parse("<?php ?>"), Ok(vec![]));
    assert_eq!(parse("<?php ?> <?php ?>"), Ok(vec![]));
    assert_eq!(parse(""), Ok(vec![]));
}

#[test]
fn input_without_a_sentinel_is_given_one() {
    let tokens = vec![
        Token { kind: TokenKind::Return, span: at(0) },
        Token { kind: TokenKind::SemiColon, span: at(1) },
    ];
    assert_eq!(Parser::new().parse(tokens), Ok(vec![Statement::Return { value: None }]));
}

#[test]
fn tokens_after_the_first_eof_are_not_read() {
    let tokens = vec![
        Token { kind: TokenKind::Return, span: at(0) },
        Token { kind: TokenKind::SemiColon, span: at(1) },
        Token { kind: TokenKind::Eof, span: at(2) },
        Token { kind: TokenKind::RightBrace, span: at(3) },
        Token { kind: TokenKind::Eof, span: at(4) },
    ];
    assert_eq!(Parser::new().parse(tokens), Ok(vec![Statement::Return { value: None }]));
}

#[test]
fn return_with_a_value() {
    assert_eq!(one("<?php return 1 ;"), Statement::Return { value: Some(integer("1")) });
}

#[test]
fn return_needs_a_value_or_a_semicolon() {
    assert_eq!(parse("return ) ;"), Err(ParseError::UnexpectedToken(b(")"), at(1))));
    assert_eq!(
        parse("return 1 1 ;"),
        Err(ParseError::ExpectedToken(vec![b("`;`")], Some(b("1")), at(2)))
    );
}

#[test]
fn a_closing_tag_stands_for_a_semicolon() {
    assert_eq!(
        parse("<?php echo 1 ?> html:x"),
        Ok(vec![
            Statement::Echo { values: vec![integer("1")] },
            Statement::InlineHtml(b("x")),
        ])
    );
}

#[test]
fn echo_takes_a_list() {
    assert_eq!(one("echo 1 , 2 ;"), Statement::Echo { values: vec![integer("1"), integer("2")] });
    assert!(parse("echo ;").is_err());
    assert!(parse("echo 1 , ;").is_err());
}

#[test]
fn noop_and_block() {
    assert_eq!(one(";"), Statement::Noop);
    assert_eq!(one("{ ; ; }"), Statement::Block { body: vec![Statement::Noop, Statement::Noop] });
    assert_eq!(
        parse("{ ;"),
        Err(ParseError::UnexpectedEndOfFile)
    );
}

#[test]
fn goto_and_label() {
    assert_eq!(one("goto end ;"), Statement::Goto { label: name("end", 1) });
    assert_eq!(one("end :"), Statement::Label { label: name("end", 0) });
    assert_eq!(
        parse("goto 1 ;"),
        Err(ParseError::ExpectedToken(vec![b("an identifier")], Some(b("1")), at(1)))
    );
}

#[test]
fn global_takes_variables() {
    assert_eq!(
        one("global $a , $b ;"),
        Statement::Global { vars: vec![variable("a", 1), variable("b", 3)] }
    );
    assert_eq!(
        parse("global ;"),
        Err(ParseError::ExpectedToken(vec![b("a variable")], Some(b(";")), at(1)))
    );
    assert_eq!(
        parse("global $a , ;"),
        Err(ParseError::ExpectedToken(vec![b("a variable")], Some(b(";")), at(3)))
    );
}

#[test]
fn static_variables() {
    match one("static $a = 1 , $b ;") {
        Statement::Static { vars } => {
            assert_eq!(vars.len(), 2);
            assert_eq!(vars[0].var, variable("a", 1));
            assert_eq!(vars[0].default, Some(integer("1")));
            assert_eq!(vars[1].var, variable("b", 5));
            assert_eq!(vars[1].default, None);
        }
        other => panic!("{:?}", other),
    }
    assert!(parse("static $a , ;").is_err());
}

#[test]
fn use_of_names() {
    assert_eq!(
        one("use A\\B , C as D ;"),
        Statement::Use {
            uses: vec![
                Use { name: name("A\\B", 1), alias: None },
                Use { name: name("C", 3), alias: Some(name("D", 5)) },
            ],
            kind: UseKind::Normal,
        }
    );
    assert!(matches!(one("use function a ;"), Statement::Use { kind: UseKind::Function, .. }));
    assert!(matches!(one("use const A ;"), Statement::Use { kind: UseKind::Const, .. }));
}

#[test]
fn use_refuses_a_trailing_comma() {
    assert_eq!(
        parse("use A , ;"),
        Err(ParseError::ExpectedToken(vec![b("an identifier")], Some(b(";")), at(3)))
    );
    assert_eq!(
        parse("use A ,"),
        Err(ParseError::ExpectedToken(vec![b("an identifier")], None, at(3)))
    );
    assert_eq!(
        parse("use"),
        Err(ParseError::ExpectedToken(vec![b("an identifier")], None, at(1)))
    );
}

#[test]
fn group_use_accepts_a_trailing_comma() {
    assert_eq!(
        one("use A\\ { B , C as D , } ;"),
        Statement::GroupUse {
            prefix: name("A\\", 1),
            kind: UseKind::Normal,
            uses: vec![
                Use { name: name("B", 3), alias: None },
                Use { name: name("C", 5), alias: Some(name("D", 7)) },
            ],
        }
    );
    assert!(matches!(
        one("use function A\\ { b } ;"),
        Statement::GroupUse { kind: UseKind::Function, .. }
    ));
}

#[test]
fn group_use_needs_a_name() {
    assert_eq!(
        parse("use A\\ { } ;"),
        Err(ParseError::ExpectedToken(vec![b("an identifier")], Some(b("}")), at(3)))
    );
}

#[test]
fn constants() {
    match one("const A = 1 , B = 2 ;") {
        Statement::Constant { constants } => {
            assert_eq!(constants.len(), 2);
            assert_eq!(constants[0].name, name("A", 1));
            assert_eq!(constants[1].value, integer("2"));
        }
        other => panic!("{:?}", other),
    }
    assert_eq!(
        parse("const A 1 ;"),
        Err(ParseError::ExpectedToken(vec![b("`=`")], Some(b("1")), at(2)))
    );
}

#[test]
fn halt_compiler() {
    assert_eq!(one("__halt_compiler"), Statement::HaltCompiler { content: None });
    assert_eq!(
        one("__halt_compiler html:rest"),
        Statement::HaltCompiler { content: Some(b("rest")) }
    );
}

#[test]
fn inline_html() {
    assert_eq!(one("html:<p>"), Statement::InlineHtml(b("<p>")));
}

#[test]
fn comments_between_statements_are_statements() {
    let program = parse("<?php //a ; /*b*/ #c /**d*/").unwrap();
    let comment = |index: usize, format: CommentFormat, text: &str| {
        Statement::Comment(Comment { start: at(index), end: at(index + 1), format, content: b(text) })
    };
    assert_eq!(
        program,
        vec![
            comment(1, CommentFormat::SingleLine, "//a"),
            Statement::Noop,
            comment(3, CommentFormat::MultiLine, "/*b*/"),
            comment(4, CommentFormat::HashMark, "#c"),
            comment(5, CommentFormat::Document, "/**d*/"),
        ]
    );
}

#[test]
fn a_comment_in_a_block_is_a_statement() {
    match one("{ //a ; //b }") {
        Statement::Block { body } => {
            assert_eq!(body.len(), 3);
            assert!(matches!(body[0], Statement::Comment(_)));
            assert_eq!(body[1], Statement::Noop);
            assert!(matches!(body[2], Statement::Comment(_)));
        }
        other => panic!("{:?}", other),
    }
}

#[test]
fn declare_forms() {
    match one("declare ( strict_types = 1 ) ;") {
        Statement::Declare { declares, body } => {
            assert_eq!(declares.len(), 1);
            assert_eq!(declares[0].key, name("strict_types", 2));
            assert_eq!(declares[0].value, integer("1"));
            assert!(body.is_empty());
        }
        other => panic!("{:?}", other),
    }
    match one("declare ( ticks = 1 , a = 'b' ) { ; }") {
        Statement::Declare { declares, body } => {
            assert_eq!(declares.len(), 2);
            assert_eq!(body, vec![Statement::Noop]);
        }
        other => panic!("{:?}", other),
    }
    match one("declare ( ticks = 1 ) : ; enddeclare ;") {
        Statement::Declare { body, .. } => assert_eq!(body, vec![Statement::Noop]),
        other => panic!("{:?}", other),
    }
    assert_eq!(
        parse("declare ( ticks = $a ) ;"),
        Err(ParseError::ExpectedToken(vec![b("a literal")], Some(b("$a")), at(4)))
    );
}

#[test]
fn if_forms() {
    match one("if ( $a ) { ; } elseif ( $b ) ; else { ; ; }") {
        Statement::If { then, else_ifs, otherwise, .. } => {
            assert_eq!(then, vec![Statement::Noop]);
            assert_eq!(else_ifs.len(), 1);
            assert_eq!(else_ifs[0].body, vec![Statement::Noop]);
            assert_eq!(otherwise, Some(vec![Statement::Noop, Statement::Noop]));
        }
        other => panic!("{:?}", other),
    }
    match one("if ( $a ) : ; elseif ( $b ) : else : ; endif ;") {
        Statement::If { then, else_ifs, otherwise, .. } => {
            assert_eq!(then, vec![Statement::Noop]);
            assert_eq!(else_ifs.len(), 1);
            assert!(else_ifs[0].body.is_empty());
            assert_eq!(otherwise, Some(vec![Statement::Noop]));
        }
        other => panic!("{:?}", other),
    }
    match one("if ( $a ) ; else if ( $b ) ;") {
        Statement::If { otherwise, .. } => {
            let otherwise = otherwise.unwrap();
            assert_eq!(otherwise.len(), 1);
            assert!(matches!(otherwise[0], Statement::If { .. }));
        }
        other => panic!("{:?}", other),
    }
}

#[test]
fn a_comment_before_else_is_dropped() {
    match one("if ( $a ) ; //c else ;") {
        Statement::If { otherwise, .. } => assert_eq!(otherwise, Some(vec![Statement::Noop])),
        other => panic!("{:?}", other),
    }
    let program = parse("if ( $a ) ; //c ;").unwrap();
    assert_eq!(program.len(), 3);
    assert!(matches!(program[1], Statement::Comment(_)));
}

#[test]
fn loops() {
    assert!(matches!(one("while ( $a ) { ; }"), Statement::While { ref body, .. } if body.len() == 1));
    assert!(matches!(one("while ( $a ) ;"), Statement::While { ref body, .. } if body.is_empty()));
    assert!(matches!(
        one("while ( $a ) : ; ; endwhile ;"),
        Statement::While { ref body, .. } if body.len() == 2
    ));
    assert!(matches!(
        one("do { ; } while ( $a ) ;"),
        Statement::DoWhile { ref body, .. } if body.len() == 1
    ));
    match one("for ( $i = 0 , $j = 0 ; $i < 3 ; $i ++ ) { ; }") {
        Statement::For { init, condition, step, body } => {
            assert_eq!(init.len(), 2);
            assert_eq!(condition.len(), 1);
            assert_eq!(step.len(), 1);
            assert_eq!(body.len(), 1);
        }
        other => panic!("{:?}", other),
    }
    match one("for ( ; ; ) : endfor ;") {
        Statement::For { init, condition, step, body } => {
            assert!(init.is_empty() && condition.is_empty() && step.is_empty() && body.is_empty());
        }
        other => panic!("{:?}", other),
    }
    match one("foreach ( $a as $k => & $v ) { ; }") {
        Statement::Foreach { by_ref, key_var, value_var, body, .. } => {
            assert!(by_ref);
            assert_eq!(key_var, Some(Expression::Variable(variable("k", 4))));
            assert_eq!(value_var, Expression::Variable(variable("v", 7)));
            assert_eq!(body.len(), 1);
        }
        other => panic!("{:?}", other),
    }
    match one("foreach ( $a as $v ) : endforeach ;") {
        Statement::Foreach { by_ref, key_var, .. } => {
            assert!(!by_ref);
            assert!(key_var.is_none());
        }
        other => panic!("{:?}", other),
    }
}

#[test]
fn break_and_continue() {
    assert_eq!(one("break ;"), Statement::Break { level: None });
    assert_eq!(one("break 2 ;"), Statement::Break { level: Some(integer("2")) });
    assert_eq!(one("continue ;"), Statement::Continue { level: None });
    assert_eq!(one("continue 2 ;"), Statement::Continue { level: Some(integer("2")) });
}

#[test]
fn switch_forms() {
    match one("switch ( $a ) { case 1 : ; break ; case 2 ; default : ; }") {
        Statement::Switch { cases, .. } => {
            assert_eq!(cases.len(), 3);
            assert_eq!(cases[0].condition, Some(integer("1")));
            assert_eq!(cases[0].body.len(), 2);
            assert!(cases[1].body.is_empty());
            assert_eq!(cases[2].condition, None);
            assert_eq!(cases[2].body.len(), 1);
        }
        other => panic!("{:?}", other),
    }
    assert!(matches!(
        one("switch ( $a ) : case 1 : endswitch ;"),
        Statement::Switch { ref cases, .. } if cases.len() == 1
    ));
}

#[test]
fn try_forms() {
    match one("try { ; } catch ( A | B $e ) { } catch ( C ) { } finally { ; }") {
        Statement::Try { body, catches, finally } => {
            assert_eq!(body.len(), 1);
            assert_eq!(catches.len(), 2);
            assert_eq!(catches[0].types, vec![name("A", 6), name("B", 8)]);
            assert_eq!(catches[0].var, Some(variable("e", 9)));
            assert_eq!(catches[1].var, None);
            assert_eq!(finally, Some(vec![Statement::Noop]));
        }
        other => panic!("{:?}", other),
    }
}

#[test]
fn namespaces() {
    match one("namespace A\\B ; ; use C ;") {
        Statement::Namespace { name: n, body } => {
            assert_eq!(n, name("A\\B", 1));
            assert_eq!(body.len(), 2);
            assert!(matches!(body[1], Statement::Use { .. }));
        }
        other => panic!("{:?}", other),
    }
    match one("namespace A { ; }") {
        Statement::BracedNamespace { name: n, body } => {
            assert_eq!(n, Some(name("A", 1)));
            assert_eq!(body.len(), 1);
        }
        other => panic!("{:?}", other),
    }
    match one("namespace { ; }") {
        Statement::BracedNamespace { name: n, .. } => assert_eq!(n, None),
        other => panic!("{:?}", other),
    }
    let program = parse("namespace A ; ; namespace B ; ;").unwrap();
    assert_eq!(program.len(), 2);
}

#[test]
fn attributes_before_a_plain_statement() {
    assert_eq!(
        parse("#[ A ] echo 1 ;"),
        Err(ParseError::ExpectedItemDefinitionAfterAttributes(at(3)))
    );
}

#[test]
fn statements_keep_their_order() {
    let program = parse("<?php echo 1 ; return ; ; ?>").unwrap();
    assert_eq!(
        program,
        vec![
            Statement::Echo { values: vec![integer("1")] },
            Statement::Return { value: None },
            Statement::Noop,
        ]
    );
}

#[test]
fn positions_of_names_lie_in_the_input_in_order() {
    let tokens = lex("foo ( $a , Bar ) ;");
    let first = tokens[0].span.position;
    let last = tokens[tokens.len() - 1].span.position;
    let program = Parser::new().parse(tokens).unwrap();
    let mut seen = 0;
    if let Statement::Expression { expr: Expression::Call { target, args } } = &program[0] {
        if let Expression::Identifier(id) = &**target {
            assert!(first <= id.start.position && id.start.position <= id.end.position);
            assert!(id.end.position <= last);
            seen += 1;
        }
        for arg in args {
            match &arg.value {
                Expression::Variable(v) => {
                    assert!(first <= v.start.position && v.start.position <= v.end.position);
                    assert!(v.end.position <= last);
                    seen += 1;
                }
                Expression::Identifier(id) => {
                    assert!(first <= id.start.position && id.start.position <= id.end.position);
                    assert!(id.end.position <= last);
                    seen += 1;
                }
                _ => {}
            }
        }
    }
    assert_eq!(seen, 3);
}

#[test]
fn an_input_that_ends_inside_a_construct() {
    let missing = |message: &str, index: usize| {
        Err(ParseError::ExpectedToken(vec![b(message)], None, at(index)))
    };
    assert_eq!(parse("class"), missing("an identifier", 1));
    assert_eq!(parse("class A {"), missing("an identifier", 3));
    assert_eq!(parse("class A { const"), missing("an identifier", 4));
    assert_eq!(parse("interface"), missing("an identifier", 1));
    assert_eq!(parse("trait T"), missing("`{`", 2));
    assert_eq!(
        parse("enum E :"),
        Err(ParseError::ExpectedToken(vec![b("`int`"), b("`string`")], None, at(3)))
    );
    assert_eq!(
        parse("enum E {"),
        Err(ParseError::ExpectedToken(
            vec![b("`case`"), b("`const`"), b("`function`")],
            None,
            at(3)
        ))
    );
    assert_eq!(parse("use A"), missing("`;`", 2));
    assert_eq!(parse("use A\\ { B ,"), missing("an identifier", 5));
    assert_eq!(parse("declare"), missing("`(`", 1));
    assert_eq!(parse("namespace"), missing("an identifier", 1));
    assert_eq!(parse("function f"), missing("`(`", 2));
    assert_eq!(parse("fn"), missing("`(`", 1));
    assert_eq!(parse("match"), missing("`(`", 1));
    assert_eq!(parse("array"), missing("`(`", 1));
    assert_eq!(
        parse("class A { use T { a"),
        Err(ParseError::ExpectedToken(vec![b("`as`"), b("`insteadof`")], None, at(7)))
    );
    assert_eq!(parse("class A { use T { a as"), missing("an identifier", 8));
    assert_eq!(parse("class A { use T {"), missing("an identifier", 6));
    assert_eq!(parse("class A { use T"), missing("`;`", 5));
    assert_eq!(parse("$a ["), Err(ParseError::UnexpectedEndOfFile));
    assert_eq!(parse("[ 1 =>"), Err(ParseError::UnexpectedEndOfFile));
}
