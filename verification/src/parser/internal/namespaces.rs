use crate::lexer::token::TokenKind;
use crate::parser::ast::identifiers::Identifier;
use crate::parser::ast::Statement;
use crate::parser::error::ParseResult;
use crate::parser::internal::grouping::named_at;
use crate::parser::internal::grouping::Parsed;
use crate::parser::internal::identifiers;
use crate::parser::internal::outcome::block_outcome;
use crate::parser::internal::outcome::block_valid;
use crate::parser::internal::outcome::statement_outcome;
use crate::parser::internal::program;
use crate::parser::internal::program::block_agrees;
use crate::parser::internal::program::models_block;
use crate::parser::internal::program::statement_agrees;
use crate::parser::internal::program::StatementShape;
use crate::parser::internal::structures;
use crate::parser::internal::utils;
use crate::parser::state::State;
use crate::parser::Parser;
use vstd::prelude::*;

verus! {

impl Parser {
    /// Parses the statements of a namespace up to its end, which is left
    /// under the cursor: `}` for a namespace with braces, the next
    /// `namespace` for one without, and the end of the input for both.
    /// Tags are passed over and each comment is a statement.
    fn members(&self, state: &mut State, in_braces: bool) -> (r: ParseResult<Vec<Statement>>)
        requires
            old(state).wf(),
        ensures
            block_outcome(*old(state), *final(state), r),
            block_agrees(
                structures::members(
                    old(state).tokens@,
                    old(state).position as int,
                    in_braces,
                    Seq::empty(),
                    old(state).scope(),
                ),
                old(state).tokens@,
                r,
                final(state).position as int,
            ),
        decreases old(state).remaining(), 14nat,
    {
        let ghost goal = structures::members(
            state.tokens@,
            state.position as int,
            in_braces,
            Seq::empty(),
            state.scope(),
        );
        let mut body: Vec<Statement> = Vec::new();
        let ghost mut shapes: Seq<StatementShape> = Seq::empty();
        loop
            invariant_except_break
                structures::members(
                    state.tokens@,
                    state.position as int,
                    in_braces,
                    shapes,
                    state.scope(),
                ) == goal,
            invariant
                state.follows(*old(state)),
                goal == structures::members(
                    old(state).tokens@,
                    old(state).position as int,
                    in_braces,
                    Seq::empty(),
                    old(state).scope(),
                ),
                block_valid(body@, state.tokens@),
                models_block(body@, shapes, state.tokens@),
            ensures
                goal == Parsed::<Seq<StatementShape>>::Tree(
                    shapes,
                    state.position as int,
                ),
            decreases state.remaining(),
        {
            let ended = if in_braces {
                matches!(state.current().kind, TokenKind::RightBrace | TokenKind::Eof)
            } else {
                matches!(state.current().kind, TokenKind::Namespace | TokenKind::Eof)
            };
            if ended {
                break ;
            }
            if state.at_comment() {
                let ghost at = state.position as int;
                let comment = Statement::Comment(state.take_comment());
                assert(comment.valid(state.tokens@));
                body.push(comment);
                proof {
                    shapes = shapes.push(StatementShape::Comment(at));
                }
                continue ;
            }
            if matches!(state.current().kind, TokenKind::OpenTag(_) | TokenKind::CloseTag) {
                state.next();
                continue ;
            }
            let ghost said = program::top_level(state.tokens@, state.position as int, state.scope());
            let statement = self.top_level_statement(state)?;
            body.push(statement);
            proof {
                if said is Tree {
                    shapes = shapes.push(said->Tree_0);
                }
            }
        }
        Ok(body)
    }

    /// Parses a namespace, the cursor being on `namespace`.
    ///
    /// With braces the namespace holds what stands between them, and may
    /// have no name. Without, it has a name and holds the statements up to
    /// the next `namespace` or the end of the input.
    pub(crate) fn namespace(&self, state: &mut State) -> (r: ParseResult<Statement>)
        requires
            old(state).wf(),
            old(state).kind() is Namespace,
        ensures
            statement_outcome(*old(state), *final(state), r),
            r is Ok ==> r->Ok_0 is Namespace || r->Ok_0 is BracedNamespace,
            statement_agrees(
                structures::namespace(old(state).tokens@, old(state).position as int, old(state).scope()),
                old(state).tokens@,
                r,
                final(state).position as int,
            ),
        decreases old(state).remaining(), 2nat,
    {
        state.next();
        if matches!(state.current().kind, TokenKind::LeftBrace) {
            return self.braced_namespace(state, None, Ghost(None));
        }
        let ghost at = state.position as int;
        let name = identifiers::name(state)?;
        if matches!(state.current().kind, TokenKind::LeftBrace) {
            return self.braced_namespace(state, Some(name), Ghost(Some(at)));
        }
        utils::skip_semicolon(state)?;
        let body = self.members(state, false)?;
        Ok(Statement::Namespace { name, body })
    }

    /// Parses the braces of a namespace and what stands between them.
    fn braced_namespace(
        &self,
        state: &mut State,
        name: Option<Identifier>,
        Ghost(at): Ghost<Option<int>>,
    ) -> (r: ParseResult<Statement>)
        requires
            old(state).wf(),
            old(state).kind() is LeftBrace,
            match at {
                Some(index) => name is Some && name->Some_0.valid(old(state).tokens@) && named_at(
                    name->Some_0,
                    old(state).tokens@,
                    index,
                ),
                None => name is None,
            },
        ensures
            statement_outcome(*old(state), *final(state), r),
            r is Ok ==> r->Ok_0 is BracedNamespace,
            statement_agrees(
                structures::braced_namespace(
                    old(state).tokens@,
                    old(state).position as int,
                    at,
                    old(state).scope(),
                ),
                old(state).tokens@,
                r,
                final(state).position as int,
            ),
        decreases old(state).remaining(), 1nat,
    {
        state.next();
        let body = self.members(state, true)?;
        utils::skip_right_brace(state)?;
        Ok(Statement::BracedNamespace { name, body })
    }
}

} // verus!
