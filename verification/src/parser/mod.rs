use crate::lexer::token::DocStringKind;
use crate::lexer::token::Token;
use crate::lexer::token::TokenKind;
use crate::parser::ast::comments::Comment;
use crate::parser::ast::variables::Variable;
use crate::parser::ast::DeclareItem;
use crate::parser::ast::DefaultMatchArm;
use crate::parser::ast::MatchArm;
use crate::parser::ast::Program;
use crate::parser::ast::Statement;
use crate::parser::ast::StringPart;
use crate::parser::ast::Use;
use crate::parser::internal::outcome::attributes_valid;
use crate::parser::internal::outcome::block_valid;
use crate::parser::internal::outcome::expressions_valid;
use crate::parser::internal::outcome::statement_outcome;
use crate::parser::internal::strings;
use crate::parser::state::comment_at;
use crate::parser::state::terminated;
use crate::parser::ast::Arg;
use crate::parser::ast::Expression;
use crate::parser::ast::IncludeKind;
use crate::parser::ast::MagicConst;
use crate::parser::ast::attributes::Attribute;
use crate::parser::ast::attributes::AttributeGroup;
use crate::parser::ast::identifiers::Identifier;
use crate::parser::error::ParseError;
use crate::parser::error::ParseResult;
use crate::parser::internal::grouping::agrees;
use crate::parser::internal::grouping::climb;
use crate::parser::internal::grouping::grouping;
use crate::parser::internal::grouping::infix_shape;
use crate::parser::internal::grouping::models;
use crate::parser::internal::grouping::operand;
use crate::parser::internal::grouping::postfix_shape;
use crate::parser::internal::grouping::tree_of;
use crate::parser::internal::grouping::Grouping;
use crate::parser::internal::grouping::Parsed;
use crate::parser::internal::grouping::ArgShape;
use crate::parser::internal::grouping::Closer;
use crate::parser::internal::grouping::PartShape;
use crate::parser::internal::grouping::ArmShape;
use crate::parser::internal::grouping::arguments;
use crate::parser::internal::grouping::arguments_agree;
use crate::parser::internal::grouping::arguments_from;
use crate::parser::internal::grouping::models_args;
use crate::parser::internal::grouping::models_arm;
use crate::parser::internal::grouping::models_list;
use crate::parser::internal::grouping::static_shape;
use crate::parser::internal::grouping::member_shape;
use crate::parser::internal::grouping;
use crate::parser::internal::grouping::Shape;
use crate::parser::internal::closures;
use crate::parser::internal::declarations;
use crate::parser::internal::declarations::groups_agree;
use crate::parser::internal::declarations::models_attribute;
use crate::parser::internal::declarations::models_group;
use crate::parser::internal::declarations::models_groups;
use crate::parser::internal::declarations::AttributeShape;
use crate::parser::internal::declarations::GroupShape;
use crate::parser::internal::identifiers;
use crate::parser::internal::listed;
use crate::parser::internal::operators::continues;
use crate::parser::internal::operators::infix_node;
use crate::parser::internal::operators::infix_op;
use crate::parser::internal::operators::is_prefix_spec;
use crate::parser::internal::operators::operator;
use crate::parser::internal::operators::prefix_node;
use crate::parser::internal::operators::prefix_operator;
use crate::parser::internal::outcome::expression_outcome;
use crate::parser::internal::precedences::infix_class;
use crate::parser::internal::program;
use crate::parser::internal::program::models_block;
use crate::parser::internal::program::models_program;
use crate::parser::internal::structures;
use crate::parser::internal::program::program_agrees;
use crate::parser::internal::program::statement_agrees;
use crate::parser::internal::program::StatementShape;
use crate::parser::internal::precedences::lemma_level_determines_class;
use crate::parser::internal::precedences::postfix_class;
use crate::parser::internal::precedences::Associativity;
use crate::parser::internal::precedences::Precedence;
use crate::parser::internal::utils;
use crate::parser::state::State;
use crate::parser::ast::CastKind;
use crate::parser::ast::InfixOp;
use vstd::prelude::*;
use vstd::string::StringSliceAdditionalSpecFns;

pub mod ast;
pub mod error;
pub mod internal;
pub mod state;

verus! {

/// The parser. It holds nothing: all that changes during a parse is in the
/// `State` that `parse` makes for one token sequence.
#[derive(Debug, PartialEq, Eq, Clone, Copy, Default)]
pub struct Parser;

impl Parser {
    /// A parser; every parser is the same.
    pub fn new() -> (p: Parser)
        ensures
            p == Parser,
    {
        Parser
    }

    /// Parses a whole token sequence into a program.
    ///
    /// Opening and closing tags between statements are passed over, and
    /// each comment between statements becomes a `Comment` statement in its
    /// place. The program is empty exactly where the input holds nothing
    /// but tags before its end. Of every input `program` says either how
    /// it groups or what its first fault is: the result is that program, or
    /// the error that reports that fault.
    pub fn parse(&self, tokens: Vec<Token>) -> (r: ParseResult<Program>)
        ensures
            match r {
                Ok(program) => block_valid(program@, terminated(tokens@)),
                Err(e) => e.valid(terminated(tokens@)),
            },
            (r is Ok && r->Ok_0@.len() == 0) <==> only_tags(terminated(tokens@)),
            !(program::program(terminated(tokens@), 0, Seq::empty()) is Other),
            program_agrees(
                program::program(terminated(tokens@), 0, Seq::empty()),
                terminated(tokens@),
                r,
            ),
    {
        let mut state = State::new(tokens);
        let mut program: Vec<Statement> = Vec::new();
        let ghost goal = program::program(state.tokens@, 0, Seq::empty());
        let ghost mut shapes: Seq<StatementShape> = Seq::empty();
        loop
            invariant
                state.wf(),
                state.tokens@ == terminated(tokens@),
                block_valid(program@, state.tokens@),
                program@.len() == 0 <==> tags_before(state.tokens@, state.position as int),
                goal == program::program(state.tokens@, 0, Seq::empty()),
                !state.has_class_scope,
                !state.has_class_parent_scope,
                models_program(program@, shapes, state.tokens@)
                    && program::program(state.tokens@, state.position as int, shapes) == goal,
            ensures
                state.wf(),
                state.tokens@ == terminated(tokens@),
                state.kind() is Eof,
                block_valid(program@, state.tokens@),
                program@.len() == 0 <==> tags_before(state.tokens@, state.position as int),
                goal == program::program(state.tokens@, 0, Seq::empty()),
                models_program(program@, shapes, state.tokens@) && goal
                    == Parsed::<Seq<StatementShape>>::Tree(shapes, state.position as int),
            decreases state.remaining(),
        {
            if state.is_eof() {
                break ;
            }
            if matches!(state.current().kind, TokenKind::OpenTag(_) | TokenKind::CloseTag) {
                state.next();
                continue ;
            }
            assert(!is_tag(state.tokens@[state.position as int].kind));
            if state.at_comment() {
                let ghost at = state.position as int;
                let comment = state.take_comment();
                let statement = Statement::Comment(comment);
                assert(statement.valid(state.tokens@));
                program.push(statement);
                proof {
                    shapes = shapes.push(StatementShape::Comment(at));
                }
                continue ;
            }
            proof {
                lemma_statement_excludes_only_tags(state.tokens@, state.position as int);
            }
            let ghost said = program::top_level(
                state.tokens@,
                state.position as int,
                state.scope(),
            );
            let statement = self.top_level_statement(&mut state)?;
            program.push(statement);
            proof {
                if said is Tree {
                    shapes = shapes.push(said->Tree_0);
                }
            }
            state.clear_comments();
        }
        proof {
            lemma_tags_before_end(state.tokens@, state.position as int);
        }
        Ok(program)
    }

    /// Parses one statement of a file or of a namespace: a namespace, a
    /// `use`, a `const`, `__halt_compiler`, or any statement that may stand
    /// in a block. A closing tag after the statement is passed over.
    pub(crate) fn top_level_statement(&self, state: &mut State) -> (r: ParseResult<Statement>)
        requires
            old(state).wf(),
        ensures
            statement_outcome(*old(state), *final(state), r),
            statement_agrees(
                program::top_level(old(state).tokens@, old(state).position as int, old(state).scope()),
                old(state).tokens@,
                r,
                final(state).position as int,
            ),
        decreases old(state).remaining(), 13nat,
    {
        state.skip_comments();
        let statement = match &state.current().kind {
            TokenKind::Namespace => self.namespace(state)?,
            TokenKind::Use => listed::use_statement(state)?,
            TokenKind::Const => self.const_statement(state)?,
            TokenKind::HaltCompiler => {
                state.next();
                let content = match &state.current().kind {
                    TokenKind::InlineHtml(content) => Some(content.clone()),
                    _ => None,
                };
                if content.is_some() {
                    state.next();
                }
                Statement::HaltCompiler { content }
            },
            _ => self.statement(state)?,
        };
        state.clear_comments();
        if matches!(state.current().kind, TokenKind::CloseTag) {
            state.next();
        }
        Ok(statement)
    }

    /// Parses one statement that may stand in a block.
    ///
    /// Attributes before the statement go to the class, interface, trait,
    /// enum or function that follows them, and are an error before anything
    /// else. A comment where a statement may begin is a statement. A closing
    /// tag after the statement is passed over.
    pub(crate) fn statement(&self, state: &mut State) -> (r: ParseResult<Statement>)
        requires
            old(state).wf(),
        ensures
            statement_outcome(*old(state), *final(state), r),
            statement_agrees(
                program::statement(old(state).tokens@, old(state).position as int, old(state).scope()),
                old(state).tokens@,
                r,
                final(state).position as int,
            ),
        decreases old(state).remaining(), 9nat,
    {
        let attributes = self.gather_attributes(state)?;
        let has_attributes = attributes.len() > 0;
        let statement = match &state.current().kind {
            TokenKind::Abstract | TokenKind::Readonly | TokenKind::Final | TokenKind::Class => {
                self.class_definition(state, attributes)?
            },
            TokenKind::Interface => self.interface_definition(state, attributes)?,
            TokenKind::Trait => self.trait_definition(state, attributes)?,
            TokenKind::Enum => self.enum_definition(state, attributes)?,
            TokenKind::Function if declares_function(state) => self.function(state, attributes)?,
            TokenKind::Function if matches!(state.peek().kind, TokenKind::Ampersand) => {
                if has_attributes {
                    let closure = self.anonymous_function(state, attributes)?;
                    self.expression_rest(state, closure)?
                } else {
                    self.expression_statement(state)?
                }
            },
            _ => {
                if has_attributes {
                    return Err(
                        ParseError::ExpectedItemDefinitionAfterAttributes(state.current().span),
                    );
                }
                self.plain_statement(state)?
            },
        };
        if matches!(state.current().kind, TokenKind::CloseTag) {
            state.next();
        }
        Ok(statement)
    }

    /// Parses `;` after an expression that is already there, and makes the
    /// two into a statement.
    fn expression_rest(&self, state: &mut State, expr: Expression) -> (r: ParseResult<Statement>)
        requires
            old(state).wf(),
            expr.valid(old(state).tokens@),
        ensures
            final(state).follows(*old(state)),
            match r {
                Ok(s) => s.valid(old(state).tokens@) && s is Expression,
                Err(e) => e.valid(old(state).tokens@),
            },
            forall|shape: Shape| #[trigger]
                models(expr, shape, old(state).tokens@) ==> statement_agrees(
                    program::ended(
                        old(state).tokens@,
                        old(state).position as int,
                        StatementShape::Expression(shape),
                    ),
                    old(state).tokens@,
                    r,
                    final(state).position as int,
                ),
    {
        utils::skip_semicolon(state)?;
        Ok(Statement::Expression { expr })
    }

    /// Parses an expression and the `;` after it.
    #[verifier::spinoff_prover]
    fn expression_statement(&self, state: &mut State) -> (r: ParseResult<Statement>)
        requires
            old(state).wf(),
        ensures
            statement_outcome(*old(state), *final(state), r),
            r is Ok ==> r->Ok_0 is Expression,
            statement_agrees(
                program::expression_statement(old(state).tokens@, old(state).position as int, old(state).scope()),
                old(state).tokens@,
                r,
                final(state).position as int,
            ),
        decreases old(state).remaining(), 7nat,
    {
        let expr = self.expression(state, Precedence::Lowest)?;
        utils::skip_semicolon(state)?;
        Ok(Statement::Expression { expr })
    }

    /// Parses a statement that takes no attributes, chosen by the token
    /// under the cursor; what no keyword claims is an expression statement.
    #[verifier::spinoff_prover]
    fn plain_statement(&self, state: &mut State) -> (r: ParseResult<Statement>)
        requires
            old(state).wf(),
        ensures
            statement_outcome(*old(state), *final(state), r),
            r is Ok ==> heads(*old(state), r->Ok_0),
            statement_agrees(
                program::plain(old(state).tokens@, old(state).position as int, old(state).scope()),
                old(state).tokens@,
                r,
                final(state).position as int,
            ),
        decreases old(state).remaining(), 8nat,
    {
        match &state.current().kind {
            TokenKind::Goto => {
                state.next();
                let label = identifiers::ident(state)?;
                utils::skip_semicolon(state)?;
                Ok(Statement::Goto { label })
            },
            TokenKind::Identifier(_) if matches!(state.peek().kind, TokenKind::Colon) => {
                let label = identifiers::ident(state)?;
                utils::colon(state)?;
                Ok(Statement::Label { label })
            },
            TokenKind::Declare => self.declare(state),
            TokenKind::Global => listed::global_statement(state),
            TokenKind::Static if matches!(state.peek().kind, TokenKind::Variable(_)) => {
                self.static_statement(state)
            },
            TokenKind::InlineHtml(html) => {
                let s = Statement::InlineHtml(html.clone());
                state.next();
                Ok(s)
            },
            TokenKind::SingleLineComment(_)
            | TokenKind::MultiLineComment(_)
            | TokenKind::HashMarkComment(_)
            | TokenKind::DocumentComment(_) => {
                let comment = state.take_comment();
                Ok(Statement::Comment(comment))
            },
            TokenKind::Do => self.do_loop(state),
            TokenKind::While => self.while_loop(state),
            TokenKind::For => self.for_loop(state),
            TokenKind::Foreach => self.foreach_loop(state),
            TokenKind::Switch => self.switch_statement(state),
            TokenKind::Continue => self.continue_statement(state),
            TokenKind::Break => self.break_statement(state),
            TokenKind::If => self.if_statement(state),
            TokenKind::Echo => self.echo(state),
            TokenKind::Return => {
                state.next();
                let value = if matches!(state.current().kind, TokenKind::SemiColon) {
                    None
                } else {
                    Some(self.expression(state, Precedence::Lowest)?)
                };
                utils::skip_semicolon(state)?;
                Ok(Statement::Return { value })
            },
            TokenKind::SemiColon => {
                state.next();
                Ok(Statement::Noop)
            },
            TokenKind::Try => self.try_block(state),
            TokenKind::LeftBrace => self.block_statement(state),
            _ => self.expression_statement(state),
        }
    }

    /// Parses `echo a, b;`, the cursor being on `echo`.
    fn echo(&self, state: &mut State) -> (r: ParseResult<Statement>)
        requires
            old(state).wf(),
            old(state).kind() is Echo,
        ensures
            statement_outcome(*old(state), *final(state), r),
            r is Ok ==> r->Ok_0 is Echo,
            statement_agrees(
                program::echo(old(state).tokens@, old(state).position as int, old(state).scope()),
                old(state).tokens@,
                r,
                final(state).position as int,
            ),
        decreases old(state).remaining(), 1nat,
    {
        state.next();
        let mut values: Vec<Expression> = Vec::new();
        let ghost goal = program::values(
            state.tokens@,
            state.position as int,
            Seq::empty(),
            state.scope(),
        );
        let ghost mut shapes: Seq<Shape> = Seq::empty();
        loop
            invariant_except_break
                models_list(values@, shapes, state.tokens@)
                    && program::values(state.tokens@, state.position as int, shapes, state.scope())
                    == goal,
            invariant
                state.follows(*old(state)),
                state.position > old(state).position,
                expressions_valid(values@, state.tokens@),
                goal == program::values(
                    state.tokens@,
                    old(state).position + 1,
                    Seq::empty(),
                    old(state).scope(),
                ),
            ensures
                state.follows(*old(state)),
                state.position > old(state).position,
                expressions_valid(values@, state.tokens@),
                values@.len() > 0,
                goal == program::values(
                    state.tokens@,
                    old(state).position + 1,
                    Seq::empty(),
                    old(state).scope(),
                ),
                models_list(values@, shapes, state.tokens@) && goal
                    == Parsed::<Seq<Shape>>::Tree(shapes, state.position as int),
            decreases state.remaining(),
        {
            let ghost said = grouping(
                state.tokens@,
                state.position as int,
                Precedence::Lowest,
                state.scope(),
            );
            let value = self.expression(state, Precedence::Lowest)?;
            values.push(value);
            proof {
                shapes = shapes.push(tree_of(said));
            }
            if matches!(state.current().kind, TokenKind::Comma) {
                state.next();
            } else {
                break ;
            }
        }
        utils::skip_semicolon(state)?;
        Ok(Statement::Echo { values })
    }

    /// Parses a `declare`, the cursor being on `declare`: the directives
    /// between parentheses, then a braced body, a body between `:` and
    /// `enddeclare;`, or `;` alone.
    fn declare(&self, state: &mut State) -> (r: ParseResult<Statement>)
        requires
            old(state).wf(),
            old(state).kind() is Declare,
        ensures
            statement_outcome(*old(state), *final(state), r),
            r is Ok ==> r->Ok_0 is Declare,
            statement_agrees(
                structures::declare(old(state).tokens@, old(state).position as int, old(state).scope()),
                old(state).tokens@,
                r,
                final(state).position as int,
            ),
        decreases old(state).remaining(), 1nat,
    {
        state.next();
        utils::skip_left_parenthesis(state)?;
        let declares = directives(state)?;
        utils::skip_right_parenthesis(state)?;
        let body = if matches!(state.current().kind, TokenKind::LeftBrace) {
            self.braced(state)?
        } else if matches!(state.current().kind, TokenKind::Colon) {
            self.governed(state, &TokenKind::EndDeclare)?
        } else {
            utils::skip_semicolon(state)?;
            let body: Vec<Statement> = Vec::new();
            assert(models_block(body@, Seq::empty(), state.tokens@));
            body
        };
        Ok(Statement::Declare { declares, body })
    }

    /// Parses what attributes in an expression may stand before: an
    /// anonymous function or an arrow function, `static` or not.
    fn attributed_expression(&self, state: &mut State, attributes: Vec<AttributeGroup>) -> (r:
        ParseResult<Expression>)
        requires
            old(state).wf(),
            attributes_valid(attributes@, old(state).tokens@),
        ensures
            expression_outcome(*old(state), *final(state), r),
            r is Ok ==> r->Ok_0 is AnonymousFunction || r->Ok_0 is ArrowFunction,
            forall|groups: Seq<GroupShape>| #[trigger]
                models_groups(attributes@, groups, old(state).tokens@) ==> agrees(
                    closures::after_attributes(
                        old(state).tokens@,
                        old(state).position as int,
                        groups,
                        old(state).scope(),
                    ),
                    old(state).tokens@,
                    r,
                    final(state).position as int,
                ),
        decreases old(state).remaining(), 2nat,
    {
        match &state.current().kind {
            TokenKind::Static if matches!(state.peek().kind, TokenKind::Function) => {
                self.anonymous_function(state, attributes)
            },
            TokenKind::Static if matches!(state.peek().kind, TokenKind::Fn) => {
                self.arrow_function(state, attributes)
            },
            TokenKind::Function => self.anonymous_function(state, attributes),
            TokenKind::Fn => self.arrow_function(state, attributes),
            _ => Err(ParseError::ExpectedItemDefinitionAfterAttributes(state.current().span)),
        }
    }

    /// Parses a `yield`, the cursor being on `yield`.
    ///
    /// Just before `;` the `yield` is bare. After `from` the operand is
    /// parsed at `YieldFrom` and takes no key; else at `Yield`, and where
    /// `=>` follows it is the key of the value after the `=>`.
    fn yield_expression(&self, state: &mut State) -> (r: ParseResult<Expression>)
        requires
            old(state).wf(),
            old(state).kind() is Yield,
        ensures
            expression_outcome(*old(state), *final(state), r),
            r is Ok ==> (r->Ok_0 is YieldFrom <==> old(state).peek_kind() is From),
            r is Ok && !(old(state).peek_kind() is From) ==> r->Ok_0 is Yield && (
            r->Ok_0->Yield_value is None <==> old(state).peek_kind() is SemiColon),
            agrees(
                grouping::yield_shape(
                    old(state).tokens@,
                    old(state).position as int,
                    old(state).scope(),
                ),
                old(state).tokens@,
                r,
                final(state).position as int,
            ),
        decreases old(state).remaining(), 1nat,
    {
        reveal(grouping::yield_shape);
        reveal(grouping::grouping);
        state.next();
        if matches!(state.current().kind, TokenKind::SemiColon) {
            return Ok(Expression::Yield { key: None, value: None });
        }
        if matches!(state.current().kind, TokenKind::From) {
            state.next();
            let value = self.expression(state, Precedence::YieldFrom)?;
            return Ok(Expression::YieldFrom { value: Box::new(value) });
        }
        let first = self.expression(state, Precedence::Yield)?;
        if matches!(state.current().kind, TokenKind::DoubleArrow) {
            state.next();
            let value = self.expression(state, Precedence::Yield)?;
            Ok(Expression::Yield { key: Some(Box::new(first)), value: Some(Box::new(value)) })
        } else {
            Ok(Expression::Yield { key: None, value: Some(Box::new(first)) })
        }
    }

    /// Parses a `match`, the cursor being on `match`.
    ///
    /// An arm is `default => body` or `a, b => body`; a comma may follow the
    /// last condition and the last arm. A second `default` arm is refused,
    /// at the position of its `default`.
    #[verifier::rlimit(60)]
    fn match_expression(&self, state: &mut State) -> (r: ParseResult<Expression>)
        requires
            old(state).wf(),
            old(state).kind() is Match,
        ensures
            expression_outcome(*old(state), *final(state), r),
            r is Ok ==> r->Ok_0 is Match,
            agrees(
                grouping::match_shape(
                    old(state).tokens@,
                    old(state).position as int,
                    old(state).scope(),
                ),
                old(state).tokens@,
                r,
                final(state).position as int,
            ),
        decreases old(state).remaining(), 1nat,
    {
        reveal(grouping::match_shape);
        reveal(grouping::arms);
        reveal(grouping::arm);
        reveal(grouping::arm_body);
        reveal(grouping::grouping);
        reveal(grouping::conditions);
        let ghost goal = grouping::match_shape(
            state.tokens@,
            state.position as int,
            state.scope(),
        );
        state.next();
        utils::skip_left_parenthesis(state)?;
        let ghost subject = grouping(
            state.tokens@,
            state.position as int,
            Precedence::Lowest,
            state.scope(),
        );
        let condition = self.expression(state, Precedence::Lowest)?;
        utils::skip_right_parenthesis(state)?;
        utils::skip_left_brace(state)?;
        let mut default: Option<Box<DefaultMatchArm>> = None;
        let mut arms: Vec<MatchArm> = Vec::new();
        let ghost mut shapes: Seq<ArmShape> = Seq::empty();
        let ghost mut fallback: Option<Box<Shape>> = None;
        loop
            invariant_except_break
                grouping::arms(
                    state.tokens@,
                    state.position as int,
                    tree_of(subject),
                    shapes,
                    fallback,
                    state.scope(),
                ) == goal,
            invariant
                state.follows(*old(state)),
                state.position > old(state).position,
                goal == grouping::match_shape(
                    old(state).tokens@,
                    old(state).position as int,
                    old(state).scope(),
                ),
                condition.valid(state.tokens@),
                forall|i: int| 0 <= i < arms@.len() ==> (#[trigger] arms@[i]).valid(state.tokens@),
                match default {
                    Some(x) => x.valid(state.tokens@),
                    None => true,
                },
                models(condition, tree_of(subject), state.tokens@),
                arms@.len() == shapes.len(),
                forall|i: int|
                    0 <= i < shapes.len() ==> models_arm(
                        arms@[i],
                        #[trigger] shapes[i],
                        state.tokens@,
                    ),
                match fallback {
                    Some(body) => default is Some && models(
                        default->Some_0.body,
                        *body,
                        state.tokens@,
                    ),
                    None => default is None,
                },
            ensures
                grouping::finish(
                    state.tokens@,
                    state.position as int,
                    |k: TokenKind| k is RightBrace,
                    "`}`".spec_bytes(),
                    Shape::Match(Box::new(tree_of(subject)), shapes, fallback),
                ) == goal,
            decreases state.remaining(),
        {
            reveal(grouping::match_shape);
            reveal(grouping::arms);
            reveal(grouping::arm);
            reveal(grouping::arm_body);
            reveal(grouping::grouping);
            reveal(grouping::conditions);
            state.skip_comments();
            if matches!(state.current().kind, TokenKind::RightBrace) {
                break ;
            }
            let ghost said = grouping::arm(
                state.tokens@,
                state.position as int,
                shapes,
                fallback,
                state.scope(),
            );
            if matches!(state.current().kind, TokenKind::Default) {
                if default.is_some() {
                    return Err(
                        ParseError::MatchExpressionWithMultipleDefaultArms(state.current().span),
                    );
                }
                state.next();
                if matches!(state.current().kind, TokenKind::Comma) {
                    state.next();
                }
                utils::skip_double_arrow(state)?;
                let body = self.expression(state, Precedence::Lowest)?;
                let arm = DefaultMatchArm { body };
                assert(arm.valid(state.tokens@));
                default = Some(Box::new(arm));
            } else {
                let conditions = self.match_conditions(state)?;
                utils::skip_double_arrow(state)?;
                let body = self.expression(state, Precedence::Lowest)?;
                arms.push(MatchArm { conditions, body });
            }
            proof {
                if said is Tree {
                    shapes = tree_of(said).0;
                    fallback = tree_of(said).1;
                }
            }
            if matches!(state.current().kind, TokenKind::Comma) {
                state.next();
            } else {
                break ;
            }
        }
        utils::skip_right_brace(state)?;
        Ok(Expression::Match { condition: Box::new(condition), arms, default })
    }

    /// Parses the conditions of one arm of a `match`, at least one, up to
    /// the `=>`.
    fn match_conditions(&self, state: &mut State) -> (r: ParseResult<Vec<Expression>>)
        requires
            old(state).wf(),
        ensures
            final(state).follows(*old(state)),
            match r {
                Ok(list) => {
                    &&& list@.len() > 0
                    &&& expressions_valid(list@, old(state).tokens@)
                    &&& final(state).position > old(state).position
                },
                Err(e) => e.valid(old(state).tokens@),
            },
            match grouping::conditions(
                old(state).tokens@,
                old(state).position as int,
                old(state).scope(),
            ) {
                Parsed::Tree(shapes, end) => r is Ok && models_list(
                    r->Ok_0@,
                    shapes,
                    old(state).tokens@,
                ) && final(state).position == end,
                Parsed::Fails(fault) => r is Err && grouping::reports(
                    r->Err_0,
                    fault,
                    old(state).tokens@,
                ),
                Parsed::Other => false,
            },
        decreases old(state).remaining(), 7nat,
    {
        reveal(grouping::conditions);
        reveal(grouping::more_conditions);
        reveal(grouping::grouping);
        let ghost goal = grouping::conditions(state.tokens@, state.position as int, state.scope());
        let ghost first_said = grouping(
            state.tokens@,
            state.position as int,
            Precedence::Lowest,
            state.scope(),
        );
        let mut conditions: Vec<Expression> = Vec::new();
        let first = self.expression(state, Precedence::Lowest)?;
        conditions.push(first);
        let ghost mut shapes: Seq<Shape> = seq![tree_of(first_said)];
        loop
            invariant_except_break
                grouping::more_conditions(
                    state.tokens@,
                    state.position as int,
                    shapes,
                    state.scope(),
                ) == goal,
            invariant
                state.follows(*old(state)),
                state.position > old(state).position,
                goal == grouping::conditions(
                    old(state).tokens@,
                    old(state).position as int,
                    old(state).scope(),
                ),
                conditions@.len() > 0,
                expressions_valid(conditions@, state.tokens@),
                models_list(conditions@, shapes, state.tokens@),
            ensures
                goal == Parsed::<Seq<Shape>>::Tree(
                    shapes,
                    state.position as int,
                ),
            decreases state.remaining(),
        {
            reveal(grouping::conditions);
            reveal(grouping::more_conditions);
            reveal(grouping::grouping);
            if !matches!(state.current().kind, TokenKind::Comma) {
                break ;
            }
            state.next();
            if matches!(state.current().kind, TokenKind::DoubleArrow) {
                break ;
            }
            let ghost said = grouping(
                state.tokens@,
                state.position as int,
                Precedence::Lowest,
                state.scope(),
            );
            let next = self.expression(state, Precedence::Lowest)?;
            conditions.push(next);
            proof {
                shapes = shapes.push(tree_of(said));
            }
        }
        Ok(conditions)
    }

    /// Parses the parts of a string up to the token that closes it, which
    /// is left under the cursor.
    fn string_parts(&self, state: &mut State, closer: Closer) -> (r: ParseResult<Vec<StringPart>>)
        requires
            old(state).wf(),
        ensures
            final(state).follows(*old(state)),
            match r {
                Ok(parts) => {
                    &&& forall|i: int|
                        0 <= i < parts@.len() ==> (#[trigger] parts@[i]).valid(old(state).tokens@)
                    &&& grouping::closes_string(final(state).kind(), closer)
                },
                Err(e) => e.valid(old(state).tokens@),
            },
            match grouping::parts(
                old(state).tokens@,
                old(state).position as int,
                closer,
                Seq::empty(),
                old(state).scope(),
            ) {
                Parsed::Tree(shapes, end) => r is Ok && final(state).position == end
                    && grouping::models_parts(r->Ok_0@, shapes, old(state).tokens@, None),
                Parsed::Fails(fault) => r is Err && grouping::reports(
                    r->Err_0,
                    fault,
                    old(state).tokens@,
                ),
                Parsed::Other => false,
            },
        decreases old(state).remaining(), 2nat,
    {
        let ghost goal = grouping::parts(
            state.tokens@,
            state.position as int,
            closer,
            Seq::empty(),
            state.scope(),
        );
        let mut parts: Vec<StringPart> = Vec::new();
        let ghost mut shapes: Seq<PartShape> = Seq::empty();
        loop
            invariant_except_break
                grouping::parts(
                    state.tokens@,
                    state.position as int,
                    closer,
                    shapes,
                    state.scope(),
                ) == goal,
            invariant
                state.follows(*old(state)),
                goal == grouping::parts(
                    old(state).tokens@,
                    old(state).position as int,
                    closer,
                    Seq::empty(),
                    old(state).scope(),
                ),
                forall|i: int| 0 <= i < parts@.len() ==> (#[trigger] parts@[i]).valid(state.tokens@),
                grouping::models_parts(parts@, shapes, state.tokens@, None),
            ensures
                grouping::closes_string(state.kind(), closer),
                goal == Parsed::<Seq<PartShape>>::Tree(
                    shapes,
                    state.position as int,
                ),
            decreases state.remaining(),
        {
            reveal(grouping::parts);
            reveal(grouping::part);
            let closed = match closer {
                Closer::Quote => matches!(state.current().kind, TokenKind::DoubleQuote),
                Closer::Backtick => matches!(state.current().kind, TokenKind::Backtick),
                Closer::Label => matches!(state.current().kind, TokenKind::EndDocString(_, _, _)),
            };
            if closed {
                break ;
            }
            let ghost said = grouping::part(state.tokens@, state.position as int, state.scope());
            match self.interpolated_string_part(state)? {
                Some(part) => {
                    parts.push(part);
                },
                None => {},
            }
            proof {
                if said is Tree {
                    shapes = grouping::with_part(shapes, tree_of(said));
                }
            }
        }
        Ok(parts)
    }

    /// Parses the parts of a double-quoted string up to its closing quote,
    /// the cursor being on the first part.
    pub(crate) fn interpolated_string(&self, state: &mut State) -> (r: ParseResult<Expression>)
        requires
            old(state).wf(),
            !(old(state).kind() is DoubleQuote),
            !(old(state).kind() is Eof),
        ensures
            expression_outcome(*old(state), *final(state), r),
            r is Ok ==> r->Ok_0 is InterpolatedString,
            agrees(
                grouping::interpolated(
                    old(state).tokens@,
                    old(state).position as int,
                    old(state).scope(),
                ),
                old(state).tokens@,
                r,
                final(state).position as int,
            ),
        decreases old(state).remaining(), 3nat,
    {
        reveal(grouping::interpolated);
        reveal(grouping::parts);
        let parts = self.string_parts(state, Closer::Quote)?;
        state.next();
        Ok(Expression::InterpolatedString { parts })
    }

    /// Parses a shell command between backticks, the cursor being on the
    /// first backtick.
    pub(crate) fn shell_exec(&self, state: &mut State) -> (r: ParseResult<Expression>)
        requires
            old(state).wf(),
            old(state).kind() is Backtick,
        ensures
            expression_outcome(*old(state), *final(state), r),
            r is Ok ==> r->Ok_0 is ShellExec,
            agrees(
                grouping::shell(old(state).tokens@, old(state).position as int, old(state).scope()),
                old(state).tokens@,
                r,
                final(state).position as int,
            ),
        decreases old(state).remaining(), 1nat,
    {
        reveal(grouping::shell);
        reveal(grouping::parts);
        state.next();
        let parts = self.string_parts(state, Closer::Backtick)?;
        state.next();
        Ok(Expression::ShellExec { parts })
    }

    /// Parses a heredoc or a nowdoc, the cursor being on its opening label.
    ///
    /// The closing label tells the indentation. From the beginning of each
    /// literal part of a heredoc, and of each line of a nowdoc, that
    /// indentation is removed.
    pub(crate) fn doc_string(&self, state: &mut State, kind: DocStringKind) -> (r: ParseResult<
        Expression,
    >)
        requires
            old(state).wf(),
            old(state).kind() is StartDocString,
            old(state).kind()->StartDocString_1 == kind,
        ensures
            expression_outcome(*old(state), *final(state), r),
            r is Ok ==> match kind {
                DocStringKind::Heredoc => r->Ok_0 is Heredoc,
                DocStringKind::Nowdoc => r->Ok_0 is Nowdoc,
            },
            agrees(
                grouping::doc(old(state).tokens@, old(state).position as int, old(state).scope()),
                old(state).tokens@,
                r,
                final(state).position as int,
            ),
        decreases old(state).remaining(), 1nat,
    {
        reveal(grouping::doc);
        reveal(grouping::parts);
        state.next();
        match kind {
            DocStringKind::Heredoc => {
                let ghost said = grouping::parts(
                    state.tokens@,
                    state.position as int,
                    Closer::Label,
                    Seq::empty(),
                    state.scope(),
                );
                let parts = self.string_parts(state, Closer::Label)?;
                let indentation = match &state.current().kind {
                    TokenKind::EndDocString(_, Some(kind), amount) => Some((kind.byte(), *amount)),
                    _ => None,
                };
                let ghost label = state.position as int;
                state.next();
                let parts = match indentation {
                    Some((c, amount)) => {
                        let ghost before = parts@;
                        let after = dedent_parts(parts, c, amount, Ghost(state.tokens@));
                        proof {
                            if said is Tree {
                                let shapes = tree_of(said);
                                assert forall|i: int| 0 <= i < shapes.len() implies grouping::models_part(
                                    after@[i],
                                    #[trigger] shapes[i],
                                    state.tokens@,
                                    Some((c, amount as nat)),
                                ) by {
                                    assert(grouping::models_part(
                                        before[i],
                                        shapes[i],
                                        state.tokens@,
                                        None,
                                    ));
                                }
                                assert(grouping::models_parts(
                                    after@,
                                    shapes,
                                    state.tokens@,
                                    Some((c, amount as nat)),
                                ));
                            }
                        }
                        after
                    },
                    None => parts,
                };
                assert(grouping::models_parts(
                    parts@,
                    tree_of(said),
                    state.tokens@,
                    grouping::indentation(state.tokens@[label].kind),
                ));
                Ok(Expression::Heredoc { parts })
            },
            DocStringKind::Nowdoc => {
                let s = match &state.current().kind {
                    TokenKind::StringPart(s) => s.clone(),
                    _ => {
                        return Err(utils::expected(state, utils::one("constant string")));
                    },
                };
                state.next();
                let indentation = match &state.current().kind {
                    TokenKind::EndDocString(_, Some(kind), amount) => Some((kind.byte(), *amount)),
                    TokenKind::EndDocString(_, None, _) => None,
                    _ => {
                        return Err(utils::expected(state, utils::one("label")));
                    },
                };
                state.next();
                let value = match indentation {
                    Some((c, amount)) => strings::dedent_lines(&s, c, amount),
                    None => s,
                };
                Ok(Expression::Nowdoc { value })
            },
        }
    }

    /// Parses one part of an interpolated string.
    ///
    /// A literal part gives its bytes, and nothing where it is empty. `${`
    /// opens `${name}`, `${name[expr]}` or `${expr}`; `{` opens a whole
    /// expression up to `}`; a variable may be followed by one index in
    /// brackets or by one property after `->` or `?->`.
    pub(crate) fn interpolated_string_part(&self, state: &mut State) -> (r: ParseResult<
        Option<StringPart>,
    >)
        requires
            old(state).wf(),
        ensures
            final(state).follows(*old(state)),
            match r {
                Ok(part) => {
                    &&& final(state).position > old(state).position
                    &&& match part {
                        Some(p) => p.valid(old(state).tokens@),
                        None => true,
                    }
                },
                Err(e) => e.valid(old(state).tokens@),
            },
            grouping::part_agrees(
                grouping::part(old(state).tokens@, old(state).position as int, old(state).scope()),
                old(state).tokens@,
                r,
                final(state).position as int,
            ),
        decreases old(state).remaining(), 1nat,
    {
        reveal(grouping::part);
        reveal(grouping::braced);
        reveal(grouping::grouping);
        match &state.current().kind {
            TokenKind::StringPart(s) => {
                let part = if s.len() > 0 {
                    Some(StringPart::Const(s.clone()))
                } else {
                    None
                };
                state.next();
                Ok(part)
            },
            TokenKind::DollarLeftBrace => {
                state.next();
                let e = self.braced_variable(state)?;
                Ok(Some(StringPart::Expr(Box::new(e))))
            },
            TokenKind::LeftBrace => {
                state.next();
                let e = self.expression(state, Precedence::Lowest)?;
                utils::skip_right_brace(state)?;
                Ok(Some(StringPart::Expr(Box::new(e))))
            },
            TokenKind::Variable(_) => {
                let e = simple_interpolation(state)?;
                Ok(Some(StringPart::Expr(Box::new(e))))
            },
            _ => Err(utils::expected(state, utils::four("`${`", "`{$", "`\"`", "a variable"))),
        }
    }

    /// Parses what follows `${` in a string: `name}`, `name[expr]}` or
    /// `expr}`.
    fn braced_variable(&self, state: &mut State) -> (r: ParseResult<Expression>)
        requires
            old(state).wf(),
        ensures
            expression_outcome(*old(state), *final(state), r),
            agrees(
                grouping::braced(old(state).tokens@, old(state).position as int, old(state).scope()),
                old(state).tokens@,
                r,
                final(state).position as int,
            ),
        decreases old(state).remaining(), 7nat,
    {
        reveal(grouping::braced);
        reveal(grouping::grouping);
        let name = match &state.current().kind {
            TokenKind::Identifier(name) if matches!(
                state.peek().kind,
                TokenKind::RightBrace | TokenKind::LeftBracket
            ) => Some(name.clone()),
            _ => None,
        };
        match name {
            Some(name) => {
                let ghost at = state.position as int;
                let start = state.current().span;
                let end = state.peek().span;
                let indexed = matches!(state.peek().kind, TokenKind::LeftBracket);
                state.next();
                state.next();
                let var = Expression::Variable(Variable { start, name, end });
                assert(var.valid(state.tokens@));
                assert(models(var, Shape::Braced(at), state.tokens@));
                if indexed {
                    let e = self.expression(state, Precedence::Lowest)?;
                    utils::skip_right_bracket(state)?;
                    utils::skip_right_brace(state)?;
                    Ok(Expression::ArrayIndex { array: Box::new(var), index: Some(Box::new(e)) })
                } else {
                    Ok(var)
                }
            },
            None => {
                let e = self.expression(state, Precedence::Lowest)?;
                utils::skip_right_brace(state)?;
                Ok(Expression::DynamicVariable { name: Box::new(e) })
            },
        }
    }

    /// Parses one expression whose operators all bind at least as tightly
    /// as `precedence` allows.
    ///
    /// Comments before the expression and between its operands and
    /// operators are dropped.
    /// On success the expression ends where the table says it must: the
    /// token under the cursor is not an operator that an expression at
    /// `precedence` goes on over. Where the tokens are an operator
    /// expression, the tree groups them as `grouping` says.
    #[verifier::rlimit(60)]
    pub(crate) fn expression(&self, state: &mut State, precedence: Precedence) -> (r: ParseResult<
        Expression,
    >)
        requires
            old(state).wf(),
        ensures
            expression_outcome(*old(state), *final(state), r),
            old(state).kind() is Eof ==> r == Err::<Expression, ParseError>(
                ParseError::UnexpectedEndOfFile,
            ),
            r is Ok ==> !continues(final(state).kind(), precedence),
            agrees(
                grouping(old(state).tokens@, old(state).position as int, precedence, old(state).scope()),
                old(state).tokens@,
                r,
                final(state).position as int,
            ),
        decreases old(state).remaining(), 6nat,
    {
        reveal(grouping::grouping);
        reveal(grouping::climb);
        reveal(grouping::operand);
        reveal(grouping::rooted);
        reveal(grouping::formed);
        reveal(grouping::postfix_shape);
        reveal(grouping::infix_shape);
        let ghost goal = grouping(state.tokens@, state.position as int, precedence, state.scope());
        state.skip_comments();
        let ghost first = operand(state.tokens@, state.position as int, state.scope());
        if state.is_eof() {
            return Err(ParseError::UnexpectedEndOfFile);
        }
        let attributes = self.gather_attributes(state)?;
        let mut left = if attributes.len() > 0 {
            self.attributed_expression(state, attributes)?
        } else {
            self.prefix_expression(state)?
        };
        let ghost mut current = tree_of(first);
        if matches!(state.current().kind, TokenKind::SemiColon) {
            return Ok(left);
        }
        state.skip_comments();
        loop
            invariant
                state.follows(*old(state)),
                state.position > old(state).position,
                left.valid(state.tokens@),
                !(old(state).kind() is Eof),
                goal == grouping(
                    old(state).tokens@,
                    old(state).position as int,
                    precedence,
                    old(state).scope(),
                ),
                models(left, current, state.tokens@) && climb(
                    state.tokens@,
                    state.position as int,
                    precedence,
                    current,
                    state.scope(),
                ) == goal,
            ensures
                state.follows(*old(state)),
                state.position > old(state).position,
                left.valid(state.tokens@),
                !continues(state.kind(), precedence),
                !state.kind().is_comment(),
                goal == grouping(
                    old(state).tokens@,
                    old(state).position as int,
                    precedence,
                    old(state).scope(),
                ),
                models(left, current, state.tokens@) && goal
                    == Grouping::Tree(current, state.position as int),
            decreases state.remaining(),
        {
            reveal(grouping::grouping);
            reveal(grouping::climb);
            reveal(grouping::operand);
            reveal(grouping::rooted);
            reveal(grouping::formed);
            reveal(grouping::postfix_shape);
            reveal(grouping::infix_shape);
            state.skip_comments();
            if matches!(state.current().kind, TokenKind::SemiColon | TokenKind::Eof) {
                break ;
            }
            let span = state.current().span;
            let kind = match operator(&state.current().kind) {
                Some(kind) => kind,
                None => {
                    break ;
                },
            };
            if is_postfix(&kind) {
                let lpred = Precedence::postfix(&kind);
                if lpred.level() < precedence.level() {
                    break ;
                }
                let ghost said = postfix_shape(
                    state.tokens@,
                    state.position as int,
                    current,
                    state.scope(),
                );
                left = self.postfix(state, left, &kind)?;
                proof {
                    current = tree_of(said);
                }
                continue ;
            }
            let rpred = Precedence::infix(&kind);
            if rpred.level() < precedence.level() {
                break ;
            }
            if rpred.level() == precedence.level() {
                proof {
                    lemma_level_determines_class(rpred, precedence);
                }
                match rpred.associativity() {
                    Some(Associativity::Left) => {
                        break ;
                    },
                    Some(Associativity::Non) => {
                        return Err(ParseError::UnexpectedToken(kind.text(), span));
                    },
                    _ => {},
                }
            }
            let ghost said = infix_shape(
                state.tokens@,
                state.position as int,
                rpred,
                current,
                state.scope(),
            );
            state.next();
            left = self.infix_rest(state, left, &kind, rpred)?;
            proof {
                current = tree_of(said);
            }
        }
        state.skip_comments();
        Ok(left)
    }

    /// Parses what follows an infix operator that has just been taken, and
    /// joins it to `left`.
    ///
    /// `?` gives a ternary with a middle operand, `?:` one without; every
    /// other operator gives the binary node of `infix`, by reference where
    /// `&` follows `=`.
    fn infix_rest(
        &self,
        state: &mut State,
        left: Expression,
        kind: &TokenKind,
        rpred: Precedence,
    ) -> (r: ParseResult<Expression>)
        requires
            old(state).wf(),
            left.valid(old(state).tokens@),
            infix_class(*kind) == Some(rpred),
            old(state).position > 0,
            old(state).tokens@[old(state).position - 1].kind == *kind,
        ensures
            final(state).follows(*old(state)),
            match r {
                Ok(e) => {
                    &&& e.valid(old(state).tokens@)
                    &&& final(state).position > old(state).position
                    &&& *kind is Question ==> e is Ternary && *e->Ternary_condition == left
                        && e->Ternary_then is Some
                    &&& *kind is QuestionColon ==> e is Ternary && *e->Ternary_condition == left
                        && e->Ternary_then is None
                    &&& !(*kind is Question) && !(*kind is QuestionColon) ==> e is Infix
                        && *e->Infix_lhs == left && (e->Infix_op == InfixOp::AssignRef
                        || Some(e->Infix_op) == infix_op(*kind))
                },
                Err(e) => e.valid(old(state).tokens@),
            },
            forall|shape: Shape| #[trigger]
                models(left, shape, old(state).tokens@) ==> agrees(
                    infix_shape(
                        old(state).tokens@,
                        old(state).position - 1,
                        rpred,
                        shape,
                        old(state).scope(),
                    ),
                    old(state).tokens@,
                    r,
                    final(state).position as int,
                ),
        decreases old(state).remaining(), 7nat,
    {
        reveal(grouping::infix_shape);
        reveal(grouping::grouping);
        match kind {
            TokenKind::Question => {
                let then = self.expression(state, Precedence::Lowest)?;
                utils::colon(state)?;
                let otherwise = self.expression(state, rpred)?;
                Ok(
                    Expression::Ternary {
                        condition: Box::new(left),
                        then: Some(Box::new(then)),
                        otherwise: Box::new(otherwise),
                    },
                )
            },
            TokenKind::QuestionColon => {
                let otherwise = self.expression(state, Precedence::Lowest)?;
                Ok(
                    Expression::Ternary {
                        condition: Box::new(left),
                        then: None,
                        otherwise: Box::new(otherwise),
                    },
                )
            },
            _ => {
                let by_ref = matches!(kind, TokenKind::Equals) && matches!(
                    state.current().kind,
                    TokenKind::Ampersand
                );
                if by_ref {
                    state.next();
                }
                let rhs = self.expression(state, rpred)?;
                Ok(infix(left, kind, rhs, by_ref))
            },
        }
    }

    /// Parses the form that an expression starts with, up to the first
    /// operator that follows it: an operand of one token, a form that a
    /// parenthesis, a class root or a prefix operator opens, or a form that
    /// a keyword opens.
    fn prefix_expression(&self, state: &mut State) -> (r: ParseResult<Expression>)
        requires
            old(state).wf(),
            !(old(state).kind() is Attribute),
            !(old(state).kind() is Eof),
            !old(state).kind().is_comment(),
        ensures
            expression_outcome(*old(state), *final(state), r),
            agrees(
                operand(old(state).tokens@, old(state).position as int, old(state).scope()),
                old(state).tokens@,
                r,
                final(state).position as int,
            ),
        decreases old(state).remaining(), 5nat,
    {
        reveal(grouping::operand);
        reveal(grouping::rooted);
        reveal(grouping::formed);
        match &state.current().kind {
            TokenKind::Variable(_) => {
                let v = identifiers::var(state)?;
                Ok(Expression::Variable(v))
            },
            TokenKind::LiteralInteger(i) => {
                let e = Expression::LiteralInteger { i: i.clone() };
                state.next();
                Ok(e)
            },
            TokenKind::LiteralFloat(f) => {
                let e = Expression::LiteralFloat { f: f.clone() };
                state.next();
                Ok(e)
            },
            TokenKind::LiteralString(s) => {
                let e = Expression::LiteralString { value: s.clone() };
                state.next();
                Ok(e)
            },
            TokenKind::Identifier(_)
            | TokenKind::QualifiedIdentifier(_)
            | TokenKind::FullyQualifiedIdentifier(_) => {
                let name = identifiers::full_name(state)?;
                Ok(Expression::Identifier(name))
            },
            TokenKind::True => {
                state.next();
                Ok(Expression::Bool { value: true })
            },
            TokenKind::False => {
                state.next();
                Ok(Expression::Bool { value: false })
            },
            TokenKind::Null => {
                state.next();
                Ok(Expression::Null)
            },
            TokenKind::DirConstant => {
                state.next();
                Ok(Expression::MagicConst { constant: MagicConst::Dir })
            },
            _ => {
                if begins_rooted(state) {
                    self.rooted_expression(state)
                } else {
                    self.formed_expression(state)
                }
            },
        }
    }

    /// Parses a form that a parenthesis, `self`, `static`, `parent` or a
    /// prefix operator opens.
    fn rooted_expression(&self, state: &mut State) -> (r: ParseResult<Expression>)
        requires
            old(state).wf(),
            grouping::is_rooted(old(state).tokens@, old(state).position as int),
        ensures
            expression_outcome(*old(state), *final(state), r),
            agrees(
                grouping::rooted(old(state).tokens@, old(state).position as int, old(state).scope()),
                old(state).tokens@,
                r,
                final(state).position as int,
            ),
        decreases old(state).remaining(), 2nat,
    {
        reveal(grouping::rooted);
        reveal(grouping::grouping);
        reveal(grouping::static_shape);
        match &state.current().kind {
            TokenKind::LeftParen => {
                state.next();
                let e = self.expression(state, Precedence::Lowest)?;
                utils::skip_right_parenthesis(state)?;
                Ok(e)
            },
            TokenKind::Self_ => {
                if !state.has_class_scope {
                    return Err(
                        ParseError::CannotFindTypeInCurrentScope(
                            state.current().kind.text(),
                            state.current().span,
                        ),
                    );
                }
                assert(models(Expression::Self_, Shape::Root(state.position as int), state.tokens@));
                state.next();
                self.postfix(state, Expression::Self_, &TokenKind::DoubleColon)
            },
            TokenKind::Static => {
                if !state.has_class_scope {
                    return Err(
                        ParseError::CannotFindTypeInCurrentScope(
                            state.current().kind.text(),
                            state.current().span,
                        ),
                    );
                }
                assert(models(Expression::Static, Shape::Root(state.position as int), state.tokens@));
                state.next();
                self.postfix(state, Expression::Static, &TokenKind::DoubleColon)
            },
            TokenKind::Parent => {
                if !state.has_class_parent_scope {
                    return Err(
                        ParseError::CannotFindTypeInCurrentScope(
                            state.current().kind.text(),
                            state.current().span,
                        ),
                    );
                }
                assert(models(Expression::Parent, Shape::Root(state.position as int), state.tokens@));
                state.next();
                self.postfix(state, Expression::Parent, &TokenKind::DoubleColon)
            },
            _ => {
                match prefix_operator(&state.current().kind) {
                    Some(op) => {
                        state.next();
                        let rpred = Precedence::prefix(&op);
                        let rhs = self.expression(state, rpred)?;
                        Ok(prefix(&op, rhs))
                    },
                    None => Err(utils::unexpected(state)),
                }
            },
        }
    }

    /// Parses a form that a keyword or a bracket opens; any other token is
    /// unexpected.
    #[verifier::rlimit(60)]
    fn formed_expression(&self, state: &mut State) -> (r: ParseResult<Expression>)
        requires
            old(state).wf(),
            !(old(state).kind() is Attribute),
            !(old(state).kind() is Eof),
            !old(state).kind().is_comment(),
        ensures
            expression_outcome(*old(state), *final(state), r),
            agrees(
                grouping::formed(old(state).tokens@, old(state).position as int, old(state).scope()),
                old(state).tokens@,
                r,
                final(state).position as int,
            ),
        decreases old(state).remaining(), 4nat,
    {
        reveal(grouping::formed);
        reveal(grouping::interpolated);
        reveal(grouping::shell);
        reveal(grouping::doc);
        reveal(grouping::new_shape);
        reveal(grouping::grouping);
        reveal(grouping::dynamic);
        reveal(grouping::yield_shape);
        reveal(grouping::list_items);
        reveal(grouping::long_array);
        reveal(grouping::short_array);
        reveal(grouping::match_shape);
        reveal(grouping::arguments);
        match &state.current().kind {
            TokenKind::List => self.list_expression(state),
            TokenKind::Static if matches!(state.peek().kind, TokenKind::Function) => {
                self.plain_function(state)
            },
            TokenKind::Static if matches!(state.peek().kind, TokenKind::Fn) => {
                self.plain_function(state)
            },
            TokenKind::Function => self.plain_function(state),
            TokenKind::Fn => self.plain_function(state),
            TokenKind::New if matches!(
                state.peek().kind,
                TokenKind::Class | TokenKind::Attribute
            ) => self.anonymous_class_definition(state),
            TokenKind::Throw => {
                state.next();
                let value = self.expression(state, Precedence::Lowest)?;
                Ok(Expression::Throw { value: Box::new(value) })
            },
            TokenKind::Yield => self.yield_expression(state),
            TokenKind::StringPart(_) => self.interpolated_string(state),
            TokenKind::StartDocString(_, DocStringKind::Heredoc) => self.doc_string(
                state,
                DocStringKind::Heredoc,
            ),
            TokenKind::StartDocString(_, DocStringKind::Nowdoc) => self.doc_string(
                state,
                DocStringKind::Nowdoc,
            ),
            TokenKind::Backtick => self.shell_exec(state),
            TokenKind::Match => self.match_expression(state),
            TokenKind::Array => self.legacy_array_expression(state),
            TokenKind::LeftBracket => self.array_expression(state),
            TokenKind::Clone => {
                state.next();
                let target = self.expression(state, Precedence::CloneOrNew)?;
                Ok(Expression::Clone { target: Box::new(target) })
            },
            TokenKind::New => {
                state.next();
                let target = self.expression(state, Precedence::CloneOrNew)?;
                let args = if matches!(state.current().kind, TokenKind::LeftParen) {
                    self.args_list(state)?
                } else {
                    Vec::new()
                };
                assert(args@.len() == 0 ==> models_args(args@, Seq::empty(), state.tokens@));
                Ok(Expression::New { target: Box::new(target), args })
            },
            TokenKind::Include => self.inclusion(state, IncludeKind::Include),
            TokenKind::IncludeOnce => self.inclusion(state, IncludeKind::IncludeOnce),
            TokenKind::Require => self.inclusion(state, IncludeKind::Require),
            TokenKind::RequireOnce => self.inclusion(state, IncludeKind::RequireOnce),
            TokenKind::Dollar => self.dynamic_variable(state),
            _ => Err(utils::unexpected(state)),
        }
    }

    /// Parses an anonymous function or an arrow function that has no
    /// attributes, the cursor being on `function`, on `fn` or on the
    /// `static` before either.
    fn plain_function(&self, state: &mut State) -> (r: ParseResult<Expression>)
        requires
            old(state).wf(),
            closures::begins_closure(old(state).tokens@, old(state).position as int)
                || closures::begins_arrow(old(state).tokens@, old(state).position as int),
        ensures
            expression_outcome(*old(state), *final(state), r),
            agrees(
                closures::after_attributes(
                    old(state).tokens@,
                    old(state).position as int,
                    Seq::empty(),
                    old(state).scope(),
                ),
                old(state).tokens@,
                r,
                final(state).position as int,
            ),
        decreases old(state).remaining(), 3nat,
    {
        let none: Vec<AttributeGroup> = Vec::new();
        assert(models_groups(none@, Seq::empty(), state.tokens@));
        self.attributed_expression(state, none)
    }

    /// Parses an inclusion, the cursor being on its keyword.
    fn inclusion(&self, state: &mut State, kind: IncludeKind) -> (r: ParseResult<Expression>)
        requires
            old(state).wf(),
            !(old(state).kind() is Eof),
            kind == grouping::include_kind(old(state).kind()),
        ensures
            expression_outcome(*old(state), *final(state), r),
            agrees(
                grouping::wrapped(
                    grouping(
                        old(state).tokens@,
                        old(state).position + 1,
                        Precedence::Lowest,
                        old(state).scope(),
                    ),
                    Shape::Include(
                        old(state).position as int,
                        Box::new(
                            tree_of(
                                grouping(
                                    old(state).tokens@,
                                    old(state).position + 1,
                                    Precedence::Lowest,
                                    old(state).scope(),
                                ),
                            ),
                        ),
                    ),
                ),
                old(state).tokens@,
                r,
                final(state).position as int,
            ),
        decreases old(state).remaining(), 1nat,
    {
        reveal(grouping::grouping);
        state.next();
        let path = self.expression(state, Precedence::Lowest)?;
        Ok(Expression::Include { kind, path: Box::new(path) })
    }

    /// Parses `$$name`, `${expr}` and `$$$name`, the cursor being on the
    /// first `$`.
    pub(crate) fn dynamic_variable(&self, state: &mut State) -> (r: ParseResult<Expression>)
        requires
            old(state).wf(),
            old(state).kind() is Dollar,
        ensures
            expression_outcome(*old(state), *final(state), r),
            agrees(
                grouping::dynamic(old(state).tokens@, old(state).position as int, old(state).scope()),
                old(state).tokens@,
                r,
                final(state).position as int,
            ),
        decreases old(state).remaining(), 1nat,
    {
        reveal(grouping::dynamic);
        reveal(grouping::grouping);
        state.next();
        match &state.current().kind {
            TokenKind::LeftBrace => {
                state.next();
                let name = self.expression(state, Precedence::Lowest)?;
                utils::skip_right_brace(state)?;
                Ok(Expression::DynamicVariable { name: Box::new(name) })
            },
            TokenKind::Dollar => {
                let name = self.dynamic_variable(state)?;
                Ok(Expression::DynamicVariable { name: Box::new(name) })
            },
            TokenKind::Variable(_) => {
                let ghost at = state.position as int;
                let v = identifiers::var(state)?;
                let name = Expression::Variable(v);
                assert(name.valid(state.tokens@));
                assert(models(name, Shape::Atom(at), state.tokens@));
                Ok(Expression::DynamicVariable { name: Box::new(name) })
            },
            _ => Err(utils::expected(state, utils::three("a variable", "`{`", "`$`"))),
        }
    }

    /// Parses the attribute groups under the cursor, none where the cursor
    /// is not on `#[`. Comments after a group are passed over.
    pub(crate) fn gather_attributes(&self, state: &mut State) -> (r: ParseResult<
        Vec<AttributeGroup>,
    >)
        requires
            old(state).wf(),
        ensures
            final(state).follows(*old(state)),
            match r {
                Ok(groups) => {
                    &&& forall|i: int|
                        0 <= i < groups@.len() ==> (#[trigger] groups@[i]).valid(old(state).tokens@)
                    &&& groups@.len() > 0 <==> old(state).kind() is Attribute
                    &&& groups@.len() > 0 ==> final(state).position > old(state).position
                    &&& groups@.len() == 0 ==> final(state).position == old(state).position
                    &&& !(final(state).kind() is Attribute)
                },
                Err(e) => e.valid(old(state).tokens@) && old(state).kind() is Attribute,
            },
            groups_agree(
                declarations::attributes(
                    old(state).tokens@,
                    old(state).position as int,
                    Seq::empty(),
                    old(state).scope(),
                ),
                old(state).tokens@,
                r,
                final(state).position as int,
            ),
        decreases old(state).remaining(), 2nat,
    {
        let ghost goal = declarations::attributes(
            state.tokens@,
            state.position as int,
            Seq::empty(),
            state.scope(),
        );
        let mut groups: Vec<AttributeGroup> = Vec::new();
        let ghost mut shapes: Seq<GroupShape> = Seq::empty();
        loop
            invariant_except_break
                declarations::attributes(
                    state.tokens@,
                    state.position as int,
                    shapes,
                    state.scope(),
                ) == goal,
            invariant
                state.follows(*old(state)),
                goal == declarations::attributes(
                    old(state).tokens@,
                    old(state).position as int,
                    Seq::empty(),
                    old(state).scope(),
                ),
                forall|i: int|
                    0 <= i < groups@.len() ==> (#[trigger] groups@[i]).valid(old(state).tokens@),
                groups@.len() > 0 ==> state.position > old(state).position,
                groups@.len() == 0 ==> state.position == old(state).position,
                groups@.len() > 0 ==> old(state).kind() is Attribute,
                models_groups(groups@, shapes, state.tokens@),
            ensures
                !(state.kind() is Attribute),
                goal == Parsed::<Seq<GroupShape>>::Tree(
                    shapes,
                    state.position as int,
                ),
            decreases state.remaining(),
        {
            if !matches!(state.current().kind, TokenKind::Attribute) {
                break ;
            }
            let ghost said = declarations::attribute_group(
                state.tokens@,
                state.position as int,
                state.scope(),
            );
            let group = self.attribute_group(state)?;
            groups.push(group);
            state.skip_comments();
            proof {
                if said is Tree {
                    shapes = shapes.push(said->Tree_0);
                }
            }
        }
        Ok(groups)
    }

    /// Parses one attribute group, the cursor being on its `#[`.
    fn attribute_group(&self, state: &mut State) -> (r: ParseResult<AttributeGroup>)
        requires
            old(state).wf(),
            old(state).kind() is Attribute,
        ensures
            final(state).follows(*old(state)),
            match r {
                Ok(group) => group.valid(old(state).tokens@) && final(state).position > old(state).position,
                Err(e) => e.valid(old(state).tokens@),
            },
            match declarations::attribute_group(
                old(state).tokens@,
                old(state).position as int,
                old(state).scope(),
            ) {
                Parsed::Tree(shape, end) => r is Ok && models_group(
                    r->Ok_0,
                    shape,
                    old(state).tokens@,
                ) && final(state).position == end,
                Parsed::Fails(fault) => r is Err && grouping::reports(
                    r->Err_0,
                    fault,
                    old(state).tokens@,
                ),
                Parsed::Other => false,
            },
        decreases old(state).remaining(), 1nat,
    {
        let start = state.current().span;
        state.next();
        let ghost goal = declarations::attribute_members(
            state.tokens@,
            state.position as int,
            Seq::empty(),
            state.scope(),
        );
        let mut members: Vec<Attribute> = Vec::new();
        let ghost mut shapes: Seq<AttributeShape> = Seq::empty();
        loop
            invariant_except_break
                declarations::attribute_members(
                    state.tokens@,
                    state.position as int,
                    shapes,
                    state.scope(),
                ) == goal,
            invariant
                state.follows(*old(state)),
                state.position > old(state).position,
                old(state).kind() is Attribute,
                start == old(state).span(),
                goal == declarations::attribute_members(
                    old(state).tokens@,
                    old(state).position + 1,
                    Seq::empty(),
                    old(state).scope(),
                ),
                forall|i: int|
                    0 <= i < members@.len() ==> (#[trigger] members@[i]).valid(old(state).tokens@),
                members@.len() == shapes.len() && forall|i: int|
                    0 <= i < shapes.len() ==> models_attribute(
                        members@[i],
                        #[trigger] shapes[i],
                        state.tokens@,
                    ),
            ensures
                goal == Parsed::<Seq<AttributeShape>>::Tree(
                    shapes,
                    state.position as int,
                ),
            decreases state.remaining(),
        {
            if matches!(state.current().kind, TokenKind::RightBracket) {
                break ;
            }
            let ghost at = state.position as int;
            let ghost said = grouping(
                state.tokens@,
                state.position as int,
                Precedence::Lowest,
                state.scope(),
            );
            let member_start = state.current().span;
            let expression = self.expression(state, Precedence::Lowest)?;
            let member_end = state.current().span;
            members.push(Attribute { start: member_start, end: member_end, expression });
            proof {
                shapes = shapes.push(
                    AttributeShape {
                        start: at,
                        end: state.position as int,
                        expression: tree_of(said),
                    },
                );
            }
            if matches!(state.current().kind, TokenKind::Comma) {
                state.next();
            } else {
                break ;
            }
        }
        let end = state.current().span;
        utils::skip_right_bracket(state)?;
        Ok(AttributeGroup { start, end, members })
    }

    /// Parses an argument list with its parentheses. An argument may have a
    /// name before a `:` and may be unpacked with `...`; a comma may follow
    /// the last argument.
    #[verifier::rlimit(60)]
    pub(crate) fn args_list(&self, state: &mut State) -> (r: ParseResult<Vec<Arg>>)
        requires
            old(state).wf(),
        ensures
            final(state).follows(*old(state)),
            match r {
                Ok(args) => {
                    &&& forall|i: int|
                        0 <= i < args@.len() ==> (#[trigger] args@[i]).valid(old(state).tokens@)
                    &&& final(state).position > old(state).position
                },
                Err(e) => e.valid(old(state).tokens@),
            },
            arguments_agree(
                arguments(old(state).tokens@, old(state).position as int, old(state).scope()),
                old(state).tokens@,
                r,
                final(state).position as int,
            ),
        decreases old(state).remaining(), 1nat,
    {
        reveal(grouping::arguments);
        reveal(grouping::arguments_from);
        reveal(grouping::grouping);
        let ghost goal = arguments(state.tokens@, state.position as int, state.scope());
        utils::skip_left_parenthesis(state)?;
        let mut args: Vec<Arg> = Vec::new();
        let ghost mut shapes: Seq<ArgShape> = Seq::empty();
        loop
            invariant_except_break
                models_args(args@, shapes, state.tokens@) && arguments_from(
                    state.tokens@,
                    state.position as int,
                    shapes,
                    state.scope(),
                ) == goal,
            invariant
                state.follows(*old(state)),
                state.position > old(state).position,
                goal == arguments(old(state).tokens@, old(state).position as int, old(state).scope()),
                forall|i: int| 0 <= i < args@.len() ==> (#[trigger] args@[i]).valid(old(state).tokens@),
            ensures
                models_args(args@, shapes, state.tokens@) && grouping::finish(
                    state.tokens@,
                    state.position as int,
                    |k: TokenKind| k is RightParen,
                    "`)`".spec_bytes(),
                    shapes,
                ) == goal,
            decreases state.remaining(),
        {
            reveal(grouping::arguments);
            reveal(grouping::arguments_from);
            reveal(grouping::grouping);
            state.skip_comments();
            if matches!(state.current().kind, TokenKind::RightParen) {
                break ;
            }
            let ghost start = state.position as int;
            let name = if matches!(state.current().kind, TokenKind::Identifier(_)) && matches!(
                state.peek().kind,
                TokenKind::Colon
            ) {
                let name = identifiers::ident_maybe_reserved(state)?;
                utils::colon(state)?;
                Some(name)
            } else {
                None
            };
            let unpack = if matches!(state.current().kind, TokenKind::Ellipsis) {
                state.next();
                true
            } else {
                false
            };
            let ghost said = grouping(
                state.tokens@,
                state.position as int,
                Precedence::Lowest,
                state.scope(),
            );
            let value = self.expression(state, Precedence::Lowest)?;
            args.push(Arg { name, value, unpack });
            proof {
                shapes = shapes.push(grouping::argument(state.tokens@, start, tree_of(said)));
            }
            if matches!(state.current().kind, TokenKind::Comma) {
                state.next();
            } else {
                break ;
            }
        }
        utils::skip_right_parenthesis(state)?;
        Ok(args)
    }

    /// Parses `??` and its right operand.
    fn coalesce(&self, state: &mut State, lhs: Expression) -> (r: ParseResult<Expression>)
        requires
            old(state).wf(),
            lhs.valid(old(state).tokens@),
            old(state).kind() is Coalesce,
        ensures
            expression_outcome(*old(state), *final(state), r),
            r is Ok ==> postfix_node(TokenKind::Coalesce, r->Ok_0, lhs),
            forall|shape: Shape| #[trigger]
                models(lhs, shape, old(state).tokens@) ==> agrees(
                    grouping::coalesce_shape(
                        old(state).tokens@,
                        old(state).position as int,
                        shape,
                        old(state).scope(),
                    ),
                    old(state).tokens@,
                    r,
                    final(state).position as int,
                ),
        decreases old(state).remaining(), 1nat,
    {
        reveal(grouping::grouping);
        state.next();
        let rhs = self.expression(state, Precedence::NullCoalesce)?;
        Ok(Expression::Coalesce { lhs: Box::new(lhs), rhs: Box::new(rhs) })
    }

    /// Parses the argument list of a call.
    fn call(&self, state: &mut State, lhs: Expression) -> (r: ParseResult<Expression>)
        requires
            old(state).wf(),
            lhs.valid(old(state).tokens@),
            old(state).kind() is LeftParen,
        ensures
            expression_outcome(*old(state), *final(state), r),
            r is Ok ==> postfix_node(TokenKind::LeftParen, r->Ok_0, lhs),
            forall|shape: Shape| #[trigger]
                models(lhs, shape, old(state).tokens@) ==> agrees(
                    grouping::call_shape(
                        old(state).tokens@,
                        old(state).position as int,
                        shape,
                        old(state).scope(),
                    ),
                    old(state).tokens@,
                    r,
                    final(state).position as int,
                ),
        decreases old(state).remaining(), 2nat,
    {
        reveal(grouping::arguments);
        let args = self.args_list(state)?;
        Ok(Expression::Call { target: Box::new(lhs), args })
    }

    /// Parses the brackets after an expression: an index, or none where the
    /// brackets are empty.
    fn index(&self, state: &mut State, lhs: Expression) -> (r: ParseResult<Expression>)
        requires
            old(state).wf(),
            lhs.valid(old(state).tokens@),
            old(state).kind() is LeftBracket,
        ensures
            expression_outcome(*old(state), *final(state), r),
            r is Ok ==> postfix_node(TokenKind::LeftBracket, r->Ok_0, lhs),
            forall|shape: Shape| #[trigger]
                models(lhs, shape, old(state).tokens@) ==> agrees(
                    grouping::index_shape(
                        old(state).tokens@,
                        old(state).position as int,
                        shape,
                        old(state).scope(),
                    ),
                    old(state).tokens@,
                    r,
                    final(state).position as int,
                ),
        decreases old(state).remaining(), 1nat,
    {
        reveal(grouping::grouping);
        utils::skip_left_bracket(state)?;
        if matches!(state.current().kind, TokenKind::RightBracket) {
            state.next();
            Ok(Expression::ArrayIndex { array: Box::new(lhs), index: None })
        } else {
            let index = self.expression(state, Precedence::Lowest)?;
            utils::skip_right_bracket(state)?;
            Ok(Expression::ArrayIndex { array: Box::new(lhs), index: Some(Box::new(index)) })
        }
    }

    /// Applies the postfix operator `op` to `lhs`.
    ///
    /// The cursor is on `op`, or `op` is `::`, which is then required.
    pub(crate) fn postfix(&self, state: &mut State, lhs: Expression, op: &TokenKind) -> (r:
        ParseResult<Expression>)
        requires
            old(state).wf(),
            lhs.valid(old(state).tokens@),
            postfix_class(*op) is Some,
            *op is DoubleColon || old(state).kind() == *op,
        ensures
            final(state).follows(*old(state)),
            match r {
                Ok(e) => {
                    &&& e.valid(old(state).tokens@)
                    &&& final(state).position > old(state).position
                    &&& old(state).kind() == *op
                    &&& postfix_node(*op, e, lhs)
                },
                Err(e) => e.valid(old(state).tokens@),
            },
            old(state).kind() == *op ==> forall|shape: Shape| #[trigger]
                models(lhs, shape, old(state).tokens@) ==> agrees(
                    postfix_shape(
                        old(state).tokens@,
                        old(state).position as int,
                        shape,
                        old(state).scope(),
                    ),
                    old(state).tokens@,
                    r,
                    final(state).position as int,
                ),
            *op is DoubleColon ==> forall|shape: Shape| #[trigger]
                models(lhs, shape, old(state).tokens@) ==> agrees(
                    static_shape(
                        old(state).tokens@,
                        old(state).position as int,
                        shape,
                        old(state).scope(),
                    ),
                    old(state).tokens@,
                    r,
                    final(state).position as int,
                ),
        decreases old(state).remaining(), 4nat,
    {
        reveal(grouping::postfix_shape);
        reveal(grouping::static_shape);
        reveal(grouping::member_shape);
        match op {
            TokenKind::Coalesce => self.coalesce(state, lhs),
            TokenKind::LeftParen => self.call(state, lhs),
            TokenKind::LeftBracket => self.index(state, lhs),
            TokenKind::DoubleColon => self.static_access(state, lhs),
            TokenKind::Arrow => self.member_access(state, lhs, false),
            TokenKind::NullsafeArrow => self.member_access(state, lhs, true),
            TokenKind::Increment => {
                state.next();
                Ok(Expression::Increment { value: Box::new(lhs) })
            },
            _ => {
                state.next();
                Ok(Expression::Decrement { value: Box::new(lhs) })
            },
        }
    }

    /// Parses `::` and the member after it: a constant, a static method
    /// call or a static property.
    #[verifier::rlimit(60)]
    fn static_access(&self, state: &mut State, lhs: Expression) -> (r: ParseResult<Expression>)
        requires
            old(state).wf(),
            lhs.valid(old(state).tokens@),
        ensures
            final(state).follows(*old(state)),
            match r {
                Ok(e) => {
                    &&& e.valid(old(state).tokens@)
                    &&& final(state).position > old(state).position
                    &&& old(state).kind() is DoubleColon
                    &&& postfix_node(TokenKind::DoubleColon, e, lhs)
                },
                Err(e) => e.valid(old(state).tokens@),
            },
            forall|shape: Shape| #[trigger]
                models(lhs, shape, old(state).tokens@) ==> agrees(
                    static_shape(
                        old(state).tokens@,
                        old(state).position as int,
                        shape,
                        old(state).scope(),
                    ),
                    old(state).tokens@,
                    r,
                    final(state).position as int,
                ),
        decreases old(state).remaining(), 2nat,
    {
        reveal(grouping::static_shape);
        reveal(grouping::arguments);
        reveal(grouping::dynamic);
        reveal(grouping::grouping);
        utils::skip_double_colon(state)?;
        let mut must_be_method_call = false;
        let mut constant: Option<Identifier> = None;
        let mut property: Option<Expression> = None;
        match &state.current().kind {
            TokenKind::Dollar => {
                property = Some(self.dynamic_variable(state)?);
            },
            TokenKind::Variable(_) => {
                property = Some(Expression::Variable(identifiers::var(state)?));
            },
            TokenKind::Identifier(_) => {
                constant = Some(identifiers::ident(state)?);
            },
            TokenKind::LeftBrace => {
                must_be_method_call = true;
                state.next();
                let name = self.expression(state, Precedence::Lowest)?;
                utils::skip_right_brace(state)?;
                property = Some(Expression::DynamicVariable { name: Box::new(name) });
            },
            TokenKind::Class => {
                let start = state.current().span;
                let name = state.current().kind.text();
                state.next();
                let end = state.current().span;
                constant = Some(Identifier { start, name, end });
            },
            _ => {
                if identifiers::is_reserved_ident(&state.current().kind) {
                    constant = Some(identifiers::ident_maybe_reserved(state)?);
                } else {
                    return Err(
                        utils::expected(state, utils::three("`{`", "`$`", "an identifier")),
                    );
                }
            },
        }
        let at_call = matches!(state.current().kind, TokenKind::LeftParen);
        let ghost at = old(state).position + 1;
        match constant {
            Some(identifier) => {
                if !at_call {
                    Ok(Expression::ConstFetch { target: Box::new(lhs), constant: identifier })
                } else {
                    let args = self.args_list(state)?;
                    let method = Expression::Identifier(identifier);
                    assert(method.valid(state.tokens@));
                    assert(models(method, Shape::Named(at), state.tokens@));
                    Ok(
                        Expression::StaticMethodCall {
                            target: Box::new(lhs),
                            method: Box::new(method),
                            args,
                        },
                    )
                }
            },
            None => match property {
                Some(property) => {
                    assert(property.valid(state.tokens@));
                    assert(old(state).tokens@[at].kind is Variable ==> models(
                        property,
                        Shape::Atom(at),
                        state.tokens@,
                    ));
                    assert(old(state).tokens@[at].kind is LeftBrace ==> forall|inner: Shape| #[trigger]
                        models(*property->DynamicVariable_name, inner, state.tokens@) ==> models(
                            property,
                            Shape::Dynamic(Box::new(inner)),
                            state.tokens@,
                        ));
                    if at_call || must_be_method_call {
                        let args = self.args_list(state)?;
                        Ok(
                            Expression::StaticMethodCall {
                                target: Box::new(lhs),
                                method: Box::new(property),
                                args,
                            },
                        )
                    } else {
                        Ok(
                            Expression::StaticPropertyFetch {
                                target: Box::new(lhs),
                                property: Box::new(property),
                            },
                        )
                    }
                },
                None => Err(utils::unexpected(state)),
            },
        }
    }

    /// Parses the member after `->` or `?->`: a braced expression, a
    /// variable, a dynamic variable or a name, which may be a reserved word.
    fn member_name(&self, state: &mut State) -> (r: ParseResult<Expression>)
        requires
            old(state).wf(),
        ensures
            expression_outcome(*old(state), *final(state), r),
            agrees(
                grouping::member_name(
                    old(state).tokens@,
                    old(state).position as int,
                    old(state).scope(),
                ),
                old(state).tokens@,
                r,
                final(state).position as int,
            ),
        decreases old(state).remaining(), 2nat,
    {
        reveal(grouping::member_name);
        reveal(grouping::grouping);
        reveal(grouping::dynamic);
        let ghost at = state.position as int;
        match &state.current().kind {
            TokenKind::LeftBrace => {
                utils::skip_left_brace(state)?;
                let e = self.expression(state, Precedence::Lowest)?;
                utils::skip_right_brace(state)?;
                Ok(e)
            },
            TokenKind::Variable(_) => {
                let v = identifiers::var(state)?;
                Ok(Expression::Variable(v))
            },
            TokenKind::Dollar => self.dynamic_variable(state),
            _ => {
                let name = identifiers::ident_maybe_reserved(state)?;
                Ok(Expression::Identifier(name))
            },
        }
    }

    /// Parses `->` or `?->` and the member after it: a method call where an
    /// argument list follows, else a property.
    fn member_access(&self, state: &mut State, lhs: Expression, nullsafe: bool) -> (r: ParseResult<
        Expression,
    >)
        requires
            old(state).wf(),
            lhs.valid(old(state).tokens@),
            !(old(state).kind() is Eof),
        ensures
            expression_outcome(*old(state), *final(state), r),
            r is Ok ==> postfix_node(
                if nullsafe {
                    TokenKind::NullsafeArrow
                } else {
                    TokenKind::Arrow
                },
                r->Ok_0,
                lhs,
            ),
            forall|shape: Shape| #[trigger]
                models(lhs, shape, old(state).tokens@) ==> agrees(
                    member_shape(
                        old(state).tokens@,
                        old(state).position as int,
                        shape,
                        nullsafe,
                        old(state).scope(),
                    ),
                    old(state).tokens@,
                    r,
                    final(state).position as int,
                ),
        decreases old(state).remaining(), 3nat,
    {
        reveal(grouping::member_shape);
        reveal(grouping::member_name);
        reveal(grouping::arguments);
        state.next();
        let property = self.member_name(state)?;
        if matches!(state.current().kind, TokenKind::LeftParen) {
            let args = self.args_list(state)?;
            if nullsafe {
                Ok(
                    Expression::NullsafeMethodCall {
                        target: Box::new(lhs),
                        method: Box::new(property),
                        args,
                    },
                )
            } else {
                Ok(
                    Expression::MethodCall {
                        target: Box::new(lhs),
                        method: Box::new(property),
                        args,
                    },
                )
            }
        } else if nullsafe {
            Ok(
                Expression::NullsafePropertyFetch {
                    target: Box::new(lhs),
                    property: Box::new(property),
                },
            )
        } else {
            Ok(Expression::PropertyFetch { target: Box::new(lhs), property: Box::new(property) })
        }
    }
}

/// Whether `e` is of the variant that the postfix operator `op` makes,
/// with `lhs` as its operand.
pub open spec fn postfix_node(op: TokenKind, e: Expression, lhs: Expression) -> bool {
    match op {
        TokenKind::Coalesce => e is Coalesce && *e->Coalesce_lhs == lhs,
        TokenKind::LeftParen => e is Call && *e->Call_target == lhs,
        TokenKind::LeftBracket => e is ArrayIndex && *e->array == lhs,
        TokenKind::DoubleColon => (e is ConstFetch && *e->ConstFetch_target == lhs) || (
        e is StaticMethodCall && *e->StaticMethodCall_target == lhs) || (e is StaticPropertyFetch
            && *e->StaticPropertyFetch_target == lhs),
        TokenKind::Arrow => (e is MethodCall && *e->MethodCall_target == lhs) || (e is PropertyFetch
            && *e->PropertyFetch_target == lhs),
        TokenKind::NullsafeArrow => (e is NullsafeMethodCall && *e->NullsafeMethodCall_target
            == lhs) || (e is NullsafePropertyFetch && *e->NullsafePropertyFetch_target == lhs),
        TokenKind::Increment => e == (Expression::Increment { value: Box::new(lhs) }),
        TokenKind::Decrement => e == (Expression::Decrement { value: Box::new(lhs) }),
        _ => false,
    }
}

/// Whether a parenthesis, a class root or a prefix operator is under the
/// cursor.
pub(crate) fn begins_rooted(state: &State) -> (b: bool)
    requires
        state.wf(),
    ensures
        b == grouping::is_rooted(state.tokens@, state.position as int),
{
    match &state.current().kind {
        TokenKind::LeftParen | TokenKind::Self_ | TokenKind::Parent => true,
        TokenKind::Static => !matches!(state.peek().kind, TokenKind::Function | TokenKind::Fn),
        _ => is_prefix(&state.current().kind),
    }
}

/// Whether the token is an opening or a closing tag.
pub open spec fn is_tag(kind: TokenKind) -> bool {
    kind is OpenTag || kind is CloseTag
}

/// Whether every token before `end` is a tag.
pub open spec fn tags_before(tokens: Seq<Token>, end: int) -> bool {
    forall|i: int| 0 <= i < end ==> is_tag((#[trigger] tokens[i]).kind)
}

/// Whether the input holds nothing but tags before its first `Eof`.
pub open spec fn only_tags(tokens: Seq<Token>) -> bool {
    exists|end: int|
        0 <= end < tokens.len() && (#[trigger] tokens[end]).kind is Eof && tags_before(tokens, end)
}

/// Where the cursor is on the first `Eof`, the input holds only tags
/// exactly where only tags lie before the cursor.
pub proof fn lemma_tags_before_end(tokens: Seq<Token>, position: int)
    requires
        0 <= position < tokens.len(),
        tokens[position].kind is Eof,
        forall|i: int| 0 <= i < position ==> !((#[trigger] tokens[i]).kind is Eof),
    ensures
        only_tags(tokens) <==> tags_before(tokens, position),
{
    if only_tags(tokens) {
        let end = choose|end: int|
            0 <= end < tokens.len() && (#[trigger] tokens[end]).kind is Eof && tags_before(
                tokens,
                end,
            );
        if end < position {
            assert(!(tokens[end].kind is Eof));
        }
        if position < end {
            assert(is_tag(tokens[position].kind));
        }
    }
}

/// Where the cursor, having passed no `Eof`, is on a token that is neither
/// a tag nor `Eof`, the input does not hold only tags.
pub proof fn lemma_statement_excludes_only_tags(tokens: Seq<Token>, position: int)
    requires
        0 <= position < tokens.len(),
        !(tokens[position].kind is Eof),
        !is_tag(tokens[position].kind),
        forall|i: int| 0 <= i < position ==> !((#[trigger] tokens[i]).kind is Eof),
    ensures
        !only_tags(tokens),
{
    if only_tags(tokens) {
        let end = choose|end: int|
            0 <= end < tokens.len() && (#[trigger] tokens[end]).kind is Eof && tags_before(
                tokens,
                end,
            );
        if end < position {
            assert(!(tokens[end].kind is Eof));
        }
        if position < end {
            assert(is_tag(tokens[position].kind));
        }
    }
}

/// Whether `function` at the cursor begins a declaration rather than an
/// anonymous function: a name follows, or `&` and then a name.
pub fn declares_function(state: &State) -> (b: bool)
    requires
        state.wf(),
    ensures
        b == program::declares_function(state.tokens@, state.position as int),
{
    proof {
        reveal_with_fuel(crate::parser::state::ahead, 3);
    }
    if !matches!(state.current().kind, TokenKind::Function) {
        return false;
    }
    match &state.peek().kind {
        TokenKind::Identifier(_) | TokenKind::Null => true,
        TokenKind::Ampersand => matches!(state.lookahead(2).kind, TokenKind::Identifier(_)),
        _ => false,
    }
}

/// Whether the statement is of the variant that the token under the cursor
/// of `before` calls for.
pub open spec fn heads(before: State, s: Statement) -> bool {
    match before.kind() {
        TokenKind::Goto => s is Goto,
        TokenKind::Identifier(_) => if before.peek_kind() is Colon {
            s is Label
        } else {
            s is Expression
        },
        TokenKind::Declare => s is Declare,
        TokenKind::Global => s is Global,
        TokenKind::Static => if before.peek_kind() is Variable {
            s is Static
        } else {
            s is Expression
        },
        TokenKind::InlineHtml(_) => s is InlineHtml,
        TokenKind::SingleLineComment(_)
        | TokenKind::MultiLineComment(_)
        | TokenKind::HashMarkComment(_)
        | TokenKind::DocumentComment(_) => s is Comment && comment_at(
            before.tokens@,
            before.position as int,
            s->Comment_0,
        ),
        TokenKind::Do => s is DoWhile,
        TokenKind::While => s is While,
        TokenKind::For => s is For,
        TokenKind::Foreach => s is Foreach,
        TokenKind::Switch => s is Switch,
        TokenKind::Continue => s is Continue,
        TokenKind::Break => s is Break,
        TokenKind::If => s is If,
        TokenKind::Echo => s is Echo,
        TokenKind::Return => s is Return && (s->Return_value is None <==> before.peek_kind()
            is SemiColon),
        TokenKind::SemiColon => s is Noop,
        TokenKind::Try => s is Try,
        TokenKind::LeftBrace => s is Block,
        _ => s is Expression,
    }
}

/// Parses the directives of a `declare`: `key = literal`, separated by
/// commas, at least one.
pub(crate) fn directives(state: &mut State) -> (r: ParseResult<Vec<DeclareItem>>)
    requires
        old(state).wf(),
    ensures
        final(state).follows(*old(state)),
        match r {
            Ok(list) => {
                &&& list@.len() > 0
                &&& forall|i: int|
                    0 <= i < list@.len() ==> (#[trigger] list@[i]).valid(old(state).tokens@)
                &&& final(state).position > old(state).position
            },
            Err(e) => e.valid(old(state).tokens@),
        },
        match structures::directives(old(state).tokens@, old(state).position as int, Seq::empty()) {
            Parsed::Tree(shapes, end) => {
                &&& r is Ok
                &&& final(state).position == end
                &&& shapes.len() > 0
                &&& r->Ok_0@.len() == shapes.len()
                &&& forall|i: int|
                    0 <= i < shapes.len() ==> grouping::named_at(
                        r->Ok_0@[i].key,
                        old(state).tokens@,
                        (#[trigger] shapes[i]).0,
                    ) && models(r->Ok_0@[i].value, Shape::Atom(shapes[i].1), old(state).tokens@)
            },
            Parsed::Fails(fault) => r is Err && grouping::reports(
                r->Err_0,
                fault,
                old(state).tokens@,
            ),
            Parsed::Other => false,
        },
{
    let ghost goal = structures::directives(state.tokens@, state.position as int, Seq::empty());
    let mut declares: Vec<DeclareItem> = Vec::new();
    let ghost mut shapes: Seq<(int, int)> = Seq::empty();
    loop
        invariant_except_break
            structures::directives(
                state.tokens@,
                state.position as int,
                shapes,
            ) == goal,
        invariant
            state.follows(*old(state)),
            goal == structures::directives(
                old(state).tokens@,
                old(state).position as int,
                Seq::empty(),
            ),
            declares@.len() > 0 ==> state.position > old(state).position,
            forall|i: int|
                0 <= i < declares@.len() ==> (#[trigger] declares@[i]).valid(state.tokens@),
            declares@.len() == shapes.len() && forall|i: int|
                0 <= i < shapes.len() ==> grouping::named_at(
                    declares@[i].key,
                    state.tokens@,
                    (#[trigger] shapes[i]).0,
                ) && models(declares@[i].value, Shape::Atom(shapes[i].1), state.tokens@),
        ensures
            declares@.len() > 0,
            state.position > old(state).position,
            goal == Parsed::<Seq<(int, int)>>::Tree(
                shapes,
                state.position as int,
            ) && shapes.len() > 0,
        decreases state.remaining(),
    {
        let ghost at = state.position as int;
        let key = identifiers::ident(state)?;
        utils::skip_equals(state)?;
        let value = literal(state)?;
        assert(models(value, Shape::Atom(at + 2), state.tokens@));
        declares.push(DeclareItem { key, value });
        proof {
            shapes = shapes.push((at, at + 2));
        }
        if matches!(state.current().kind, TokenKind::Comma) {
            state.next();
        } else {
            break ;
        }
    }
    Ok(declares)
}

/// The bytes of a literal token.
pub open spec fn literal_text(kind: TokenKind) -> Option<Seq<u8>> {
    match kind {
        TokenKind::LiteralInteger(i) => Some(i@),
        TokenKind::LiteralFloat(f) => Some(f@),
        TokenKind::LiteralString(s) => Some(s@),
        _ => None,
    }
}

/// Parses a literal: an integer, a float or a string.
pub fn literal(state: &mut State) -> (r: ParseResult<Expression>)
    requires
        old(state).wf(),
    ensures
        final(state).follows(*old(state)),
        match r {
            Ok(e) => {
                &&& e.valid(old(state).tokens@)
                &&& final(state).position == old(state).position + 1
                &&& match old(state).kind() {
                    TokenKind::LiteralInteger(i) => e is LiteralInteger && e->i@ == i@,
                    TokenKind::LiteralFloat(f) => e is LiteralFloat && e->f@ == f@,
                    TokenKind::LiteralString(s) => e is LiteralString && e->LiteralString_value@
                        == s@,
                    _ => false,
                }
            },
            Err(e) => {
                &&& literal_text(old(state).kind()) is None
                &&& e.is_expected(
                    seq!["a literal".spec_bytes()],
                    old(state).tokens@[old(state).position as int],
                )
                &&& e.valid(old(state).tokens@)
                &&& final(state).position == old(state).position
            },
        },
{
    let found = match &state.current().kind {
        TokenKind::LiteralInteger(i) => Some(Expression::LiteralInteger { i: i.clone() }),
        TokenKind::LiteralFloat(f) => Some(Expression::LiteralFloat { f: f.clone() }),
        TokenKind::LiteralString(s) => Some(Expression::LiteralString { value: s.clone() }),
        _ => None,
    };
    match found {
        Some(e) => {
            state.next();
            Ok(e)
        },
        None => Err(utils::expected(state, utils::one("a literal"))),
    }
}

/// Parses a variable in a string with the one index or property that may
/// follow it there.
pub(crate) fn simple_interpolation(state: &mut State) -> (r: ParseResult<Expression>)
    requires
        old(state).wf(),
        old(state).kind() is Variable,
    ensures
        expression_outcome(*old(state), *final(state), r),
        agrees(
            grouping::simple(old(state).tokens@, old(state).position as int),
            old(state).tokens@,
            r,
            final(state).position as int,
        ),
{
    let ghost at = state.position as int;
    let variable = identifiers::var(state)?;
    let var = Expression::Variable(variable);
    assert(var.valid(state.tokens@));
    assert(models(var, Shape::Atom(at), state.tokens@));
    match &state.current().kind {
        TokenKind::LeftBracket => {
            state.next();
            let ghost shape: Shape;
            let index = match &state.current().kind {
                TokenKind::LiteralInteger(i) => {
                    let e = Expression::LiteralInteger { i: i.clone() };
                    state.next();
                    proof {
                        shape = Shape::Atom(at + 2);
                    }
                    e
                },
                TokenKind::Minus => {
                    state.next();
                    match &state.current().kind {
                        TokenKind::LiteralInteger(i) => {
                            let number = Expression::LiteralInteger { i: i.clone() };
                            assert(number.valid(state.tokens@));
                            assert(models(number, Shape::Atom(at + 3), state.tokens@));
                            let e = Expression::Negate { value: Box::new(number) };
                            state.next();
                            proof {
                                shape = Shape::Prefix(at + 2, Box::new(Shape::Atom(at + 3)));
                            }
                            e
                        },
                        _ => {
                            return Err(utils::expected(state, utils::one("an integer")));
                        },
                    }
                },
                TokenKind::Identifier(ident) => {
                    let e = Expression::LiteralString { value: ident.clone() };
                    state.next();
                    proof {
                        shape = Shape::Key(at + 2);
                    }
                    e
                },
                TokenKind::Variable(_) => {
                    let v = identifiers::var(state)?;
                    let e = Expression::Variable(v);
                    assert(e.valid(state.tokens@));
                    proof {
                        shape = Shape::Atom(at + 2);
                    }
                    e
                },
                _ => {
                    return Err(
                        utils::expected(
                            state,
                            utils::four("`-`", "an integer", "an identifier", "a variable"),
                        ),
                    );
                },
            };
            assert(index.valid(state.tokens@));
            assert(models(index, shape, state.tokens@));
            utils::skip_right_bracket(state)?;
            Ok(Expression::ArrayIndex { array: Box::new(var), index: Some(Box::new(index)) })
        },
        TokenKind::Arrow => {
            state.next();
            let name = identifiers::ident_maybe_reserved(state)?;
            let property = Expression::Identifier(name);
            assert(property.valid(state.tokens@));
            assert(models(property, Shape::Named(at + 2), state.tokens@));
            Ok(Expression::PropertyFetch { target: Box::new(var), property: Box::new(property) })
        },
        TokenKind::NullsafeArrow => {
            state.next();
            let name = identifiers::ident_maybe_reserved(state)?;
            let property = Expression::Identifier(name);
            assert(property.valid(state.tokens@));
            assert(models(property, Shape::Named(at + 2), state.tokens@));
            Ok(
                Expression::NullsafePropertyFetch {
                    target: Box::new(var),
                    property: Box::new(property),
                },
            )
        },
        _ => Ok(var),
    }
}

/// Whether `after` is `before` with the indentation removed from the
/// beginning of each literal part; the other parts are as they were.
pub open spec fn parts_dedented(
    before: Seq<StringPart>,
    after: Seq<StringPart>,
    c: u8,
    amount: nat,
) -> bool {
    &&& after.len() == before.len()
    &&& forall|i: int|
        0 <= i < before.len() ==> match #[trigger] before[i] {
            StringPart::Const(bytes) => after[i] is Const && after[i]->Const_0@
                == strings::dedented(bytes@, c, amount),
            StringPart::Expr(_) => after[i] == before[i],
        }
}

/// Removes the indentation from the beginning of each literal part.
pub(crate) fn dedent_parts(parts: Vec<StringPart>, c: u8, amount: usize, Ghost(tokens): Ghost<Seq<Token>>) -> (r:
    Vec<StringPart>)
    requires
        forall|i: int| 0 <= i < parts@.len() ==> (#[trigger] parts@[i]).valid(tokens),
    ensures
        parts_dedented(parts@, r@, c, amount as nat),
        forall|i: int| 0 <= i < r@.len() ==> (#[trigger] r@[i]).valid(tokens),
{
    let mut parts = parts;
    let ghost all = parts@;
    let mut reversed: Vec<StringPart> = Vec::new();
    while parts.len() > 0
        invariant
            parts@.len() + reversed@.len() == all.len(),
            forall|i: int| 0 <= i < parts@.len() ==> parts@[i] == all[i],
            forall|i: int|
                0 <= i < reversed@.len() ==> reversed@[i] == all[all.len() - 1 - i],
        decreases parts@.len(),
    {
        match parts.pop() {
            Some(p) => {
                reversed.push(p);
            },
            None => {},
        }
    }
    let mut out: Vec<StringPart> = Vec::new();
    while reversed.len() > 0
        invariant
            forall|i: int| 0 <= i < all.len() ==> (#[trigger] all[i]).valid(tokens),
            out@.len() + reversed@.len() == all.len(),
            forall|i: int|
                0 <= i < reversed@.len() ==> reversed@[i] == all[all.len() - 1 - i],
            forall|i: int| 0 <= i < out@.len() ==> (#[trigger] out@[i]).valid(tokens),
            forall|i: int|
                0 <= i < out@.len() ==> match #[trigger] all[i] {
                    StringPart::Const(bytes) => out@[i] is Const && out@[i]->Const_0@
                        == strings::dedented(bytes@, c, amount as nat),
                    StringPart::Expr(_) => out@[i] == all[i],
                },
        decreases reversed@.len(),
    {
        match reversed.pop() {
            Some(StringPart::Const(bytes)) => {
                let part = StringPart::Const(strings::dedent(&bytes, c, amount));
                assert(part.valid(tokens));
                out.push(part);
            },
            Some(other) => {
                out.push(other);
            },
            None => {},
        }
    }
    out
}

/// Whether `op` is a prefix operator.
pub fn is_prefix(op: &TokenKind) -> (b: bool)
    ensures
        b == is_prefix_spec(*op),
{
    matches!(
        op,
        TokenKind::Bang
            | TokenKind::Print
            | TokenKind::BitwiseNot
            | TokenKind::Decrement
            | TokenKind::Increment
            | TokenKind::Minus
            | TokenKind::Plus
            | TokenKind::StringCast
            | TokenKind::BinaryCast
            | TokenKind::ObjectCast
            | TokenKind::BoolCast
            | TokenKind::BooleanCast
            | TokenKind::IntCast
            | TokenKind::IntegerCast
            | TokenKind::FloatCast
            | TokenKind::DoubleCast
            | TokenKind::RealCast
            | TokenKind::UnsetCast
            | TokenKind::ArrayCast
            | TokenKind::At
    )
}

/// The node that the prefix operator `op` makes of its operand.
pub fn prefix(op: &TokenKind, rhs: Expression) -> (e: Expression)
    requires
        is_prefix_spec(*op),
    ensures
        Some(e) == prefix_node(*op, rhs),
{
    match op {
        TokenKind::Print => Expression::Print { value: Box::new(rhs) },
        TokenKind::Bang => Expression::BooleanNot { value: Box::new(rhs) },
        TokenKind::Minus => Expression::Negate { value: Box::new(rhs) },
        TokenKind::Plus => Expression::UnaryPlus { value: Box::new(rhs) },
        TokenKind::BitwiseNot => Expression::BitwiseNot { value: Box::new(rhs) },
        TokenKind::Decrement => Expression::PreDecrement { value: Box::new(rhs) },
        TokenKind::Increment => Expression::PreIncrement { value: Box::new(rhs) },
        TokenKind::At => Expression::ErrorSuppress { expr: Box::new(rhs) },
        TokenKind::StringCast | TokenKind::BinaryCast => Expression::Cast {
            kind: CastKind::String,
            value: Box::new(rhs),
        },
        TokenKind::ObjectCast => Expression::Cast { kind: CastKind::Object, value: Box::new(rhs) },
        TokenKind::BoolCast | TokenKind::BooleanCast => Expression::Cast {
            kind: CastKind::Bool,
            value: Box::new(rhs),
        },
        TokenKind::IntCast | TokenKind::IntegerCast => Expression::Cast {
            kind: CastKind::Int,
            value: Box::new(rhs),
        },
        TokenKind::UnsetCast => Expression::Cast { kind: CastKind::Unset, value: Box::new(rhs) },
        TokenKind::ArrayCast => Expression::Cast { kind: CastKind::Array, value: Box::new(rhs) },
        _ => Expression::Cast { kind: CastKind::Float, value: Box::new(rhs) },
    }
}

/// The binary operator that the token `op` stands for.
pub fn binary_operator(op: &TokenKind) -> (o: InfixOp)
    requires
        infix_op(*op) is Some,
    ensures
        Some(o) == infix_op(*op),
{
    match op {
        TokenKind::Plus => InfixOp::Add,
        TokenKind::Minus => InfixOp::Sub,
        TokenKind::Asterisk => InfixOp::Mul,
        TokenKind::Slash => InfixOp::Div,
        TokenKind::Percent => InfixOp::Mod,
        TokenKind::Dot => InfixOp::Concat,
        TokenKind::LeftShift => InfixOp::LeftShift,
        TokenKind::RightShift => InfixOp::RightShift,
        TokenKind::Ampersand => InfixOp::BitwiseAnd,
        TokenKind::Pipe => InfixOp::BitwiseOr,
        TokenKind::Caret => InfixOp::BitwiseXor,
        TokenKind::LessThan => InfixOp::LessThan,
        TokenKind::LessThanEquals => InfixOp::LessThanEquals,
        TokenKind::GreaterThan => InfixOp::GreaterThan,
        TokenKind::GreaterThanEquals => InfixOp::GreaterThanEquals,
        TokenKind::DoubleEquals => InfixOp::Equals,
        TokenKind::TripleEquals => InfixOp::Identical,
        TokenKind::BangEquals => InfixOp::NotEquals,
        TokenKind::BangDoubleEquals => InfixOp::NotIdentical,
        TokenKind::AngledLeftRight => InfixOp::AngledNotEquals,
        TokenKind::Spaceship => InfixOp::Spaceship,
        TokenKind::BooleanAnd => InfixOp::And,
        TokenKind::BooleanOr => InfixOp::Or,
        TokenKind::LogicalAnd => InfixOp::LogicalAnd,
        TokenKind::LogicalOr => InfixOp::LogicalOr,
        TokenKind::LogicalXor => InfixOp::LogicalXor,
        TokenKind::Pow => InfixOp::Pow,
        TokenKind::Instanceof => InfixOp::Instanceof,
        TokenKind::Equals => InfixOp::Assign,
        TokenKind::PlusEquals => InfixOp::AddAssign,
        TokenKind::MinusEquals => InfixOp::SubAssign,
        TokenKind::AsteriskEqual => InfixOp::MulAssign,
        TokenKind::SlashEquals => InfixOp::DivAssign,
        TokenKind::PercentEquals => InfixOp::ModAssign,
        TokenKind::PowEquals => InfixOp::PowAssign,
        TokenKind::DotEquals => InfixOp::ConcatAssign,
        TokenKind::AmpersandEquals => InfixOp::BitwiseAndAssign,
        TokenKind::PipeEquals => InfixOp::BitwiseOrAssign,
        TokenKind::CaretEquals => InfixOp::BitwiseXorAssign,
        TokenKind::LeftShiftEquals => InfixOp::LeftShiftAssign,
        TokenKind::RightShiftEquals => InfixOp::RightShiftAssign,
        _ => InfixOp::CoalesceAssign,
    }
}

/// The node for `lhs op rhs`; with `by_ref`, `=` becomes an assignment by
/// reference.
pub fn infix(lhs: Expression, op: &TokenKind, rhs: Expression, by_ref: bool) -> (e: Expression)
    requires
        infix_op(*op) is Some,
    ensures
        Some(e) == infix_node(lhs, *op, rhs, by_ref),
{
    let operator = if by_ref && matches!(op, TokenKind::Equals) {
        InfixOp::AssignRef
    } else {
        binary_operator(op)
    };
    Expression::Infix { lhs: Box::new(lhs), op: operator, rhs: Box::new(rhs) }
}

/// Whether `t` is an infix operator.
pub fn is_infix(t: &TokenKind) -> (b: bool)
    ensures
        b == infix_class(*t) is Some,
{
    matches!(
        t,
        TokenKind::Pow
            | TokenKind::RightShiftEquals
            | TokenKind::LeftShiftEquals
            | TokenKind::CaretEquals
            | TokenKind::AmpersandEquals
            | TokenKind::PipeEquals
            | TokenKind::PercentEquals
            | TokenKind::PowEquals
            | TokenKind::LogicalAnd
            | TokenKind::LogicalOr
            | TokenKind::LogicalXor
            | TokenKind::Spaceship
            | TokenKind::LeftShift
            | TokenKind::RightShift
            | TokenKind::Ampersand
            | TokenKind::Pipe
            | TokenKind::Caret
            | TokenKind::Percent
            | TokenKind::Instanceof
            | TokenKind::Asterisk
            | TokenKind::Slash
            | TokenKind::Plus
            | TokenKind::Minus
            | TokenKind::Dot
            | TokenKind::LessThan
            | TokenKind::GreaterThan
            | TokenKind::LessThanEquals
            | TokenKind::GreaterThanEquals
            | TokenKind::DoubleEquals
            | TokenKind::TripleEquals
            | TokenKind::BangEquals
            | TokenKind::BangDoubleEquals
            | TokenKind::AngledLeftRight
            | TokenKind::Question
            | TokenKind::QuestionColon
            | TokenKind::BooleanAnd
            | TokenKind::BooleanOr
            | TokenKind::Equals
            | TokenKind::PlusEquals
            | TokenKind::MinusEquals
            | TokenKind::DotEquals
            | TokenKind::CoalesceEqual
            | TokenKind::AsteriskEqual
            | TokenKind::SlashEquals
    )
}

/// Whether `t` is a postfix operator.
pub fn is_postfix(t: &TokenKind) -> (b: bool)
    ensures
        b == postfix_class(*t) is Some,
{
    matches!(
        t,
        TokenKind::Increment
            | TokenKind::Decrement
            | TokenKind::LeftParen
            | TokenKind::LeftBracket
            | TokenKind::Arrow
            | TokenKind::NullsafeArrow
            | TokenKind::DoubleColon
            | TokenKind::Coalesce
    )
}

} // verus!
