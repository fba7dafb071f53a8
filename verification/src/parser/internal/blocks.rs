use crate::lexer::token::TokenKind;
use crate::parser::ast::Expression;
use crate::parser::ast::Statement;
use crate::parser::error::ParseResult;
use crate::parser::internal::grouping::agrees;
use crate::parser::internal::grouping::Parsed;
use crate::parser::internal::outcome::block_outcome;
use crate::parser::internal::outcome::block_valid;
use crate::parser::internal::outcome::expression_outcome;
use crate::parser::internal::outcome::statement_outcome;
use crate::parser::internal::precedences::Precedence;
use crate::parser::internal::program;
use crate::parser::internal::program::block_agrees;
use crate::parser::internal::program::models_block;
use crate::parser::internal::program::statement_agrees;
use crate::parser::internal::program::StatementShape;
use crate::parser::internal::structures;
use crate::parser::internal::utils;
use crate::parser::state::State;
use crate::parser::Parser;
use vstd::prelude::*;

verus! {

/// The tokens that close a list of statements.
pub open spec fn is_closer(kind: TokenKind) -> bool {
    kind is RightBrace || kind is EndDeclare || kind is EndWhile || kind is EndFor
        || kind is EndForeach || kind is EndSwitch
}

/// Whether `current` is the closing token `until`.
pub fn closes(current: &TokenKind, until: &TokenKind) -> (b: bool)
    requires
        is_closer(*until),
    ensures
        b == (*current == *until),
{
    match until {
        TokenKind::RightBrace => matches!(current, TokenKind::RightBrace),
        TokenKind::EndDeclare => matches!(current, TokenKind::EndDeclare),
        TokenKind::EndWhile => matches!(current, TokenKind::EndWhile),
        TokenKind::EndFor => matches!(current, TokenKind::EndFor),
        TokenKind::EndForeach => matches!(current, TokenKind::EndForeach),
        _ => matches!(current, TokenKind::EndSwitch),
    }
}

impl Parser {
    /// Parses an expression between parentheses.
    pub(crate) fn parenthesized(&self, state: &mut State) -> (r: ParseResult<Expression>)
        requires
            old(state).wf(),
        ensures
            expression_outcome(*old(state), *final(state), r),
            agrees(
                structures::parenthesized(
                    old(state).tokens@,
                    old(state).position as int,
                    old(state).scope(),
                ),
                old(state).tokens@,
                r,
                final(state).position as int,
            ),
        decreases old(state).remaining(), 1nat,
    {
        utils::skip_left_parenthesis(state)?;
        let e = self.expression(state, Precedence::Lowest)?;
        utils::skip_right_parenthesis(state)?;
        Ok(e)
    }

    /// Parses statements up to the closing token `until`, which is left
    /// under the cursor.
    pub(crate) fn body(&self, state: &mut State, until: &TokenKind) -> (r: ParseResult<
        Vec<Statement>,
    >)
        requires
            old(state).wf(),
            is_closer(*until),
        ensures
            block_outcome(*old(state), *final(state), r),
            r is Ok ==> final(state).kind() == *until,
            block_agrees(
                structures::body(
                    old(state).tokens@,
                    old(state).position as int,
                    *until,
                    Seq::empty(),
                    old(state).scope(),
                ),
                old(state).tokens@,
                r,
                final(state).position as int,
            ),
        decreases old(state).remaining(), 10nat,
    {
        let ghost goal = structures::body(
            state.tokens@,
            state.position as int,
            *until,
            Seq::empty(),
            state.scope(),
        );
        let mut block: Vec<Statement> = Vec::new();
        let ghost mut shapes: Seq<StatementShape> = Seq::empty();
        loop
            invariant_except_break
                structures::body(
                    state.tokens@,
                    state.position as int,
                    *until,
                    shapes,
                    state.scope(),
                ) == goal,
            invariant
                state.follows(*old(state)),
                is_closer(*until),
                goal == structures::body(
                    old(state).tokens@,
                    old(state).position as int,
                    *until,
                    Seq::empty(),
                    old(state).scope(),
                ),
                block_valid(block@, state.tokens@),
                models_block(block@, shapes, state.tokens@),
            ensures
                state.kind() == *until,
                goal == Parsed::<Seq<StatementShape>>::Tree(
                    shapes,
                    state.position as int,
                ),
            decreases state.remaining(),
        {
            if closes(&state.current().kind, until) {
                break ;
            }
            let ghost said = program::statement(state.tokens@, state.position as int, state.scope());
            let statement = self.statement(state)?;
            block.push(statement);
            proof {
                if said is Tree {
                    shapes = shapes.push(said->Tree_0);
                }
            }
        }
        Ok(block)
    }

    /// Parses `{`, statements and `}` into a block.
    pub(crate) fn block_statement(&self, state: &mut State) -> (r: ParseResult<Statement>)
        requires
            old(state).wf(),
        ensures
            statement_outcome(*old(state), *final(state), r),
            r is Ok ==> r->Ok_0 is Block,
            statement_agrees(
                structures::block(old(state).tokens@, old(state).position as int, old(state).scope()),
                old(state).tokens@,
                r,
                final(state).position as int,
            ),
        decreases old(state).remaining(), 2nat,
    {
        let body = self.braced(state)?;
        Ok(Statement::Block { body })
    }

    /// Parses the statements between `{` and `}`, both of which are taken.
    pub(crate) fn braced(&self, state: &mut State) -> (r: ParseResult<Vec<Statement>>)
        requires
            old(state).wf(),
        ensures
            block_outcome(*old(state), *final(state), r),
            r is Ok ==> final(state).position > old(state).position,
            block_agrees(
                structures::braced(old(state).tokens@, old(state).position as int, old(state).scope()),
                old(state).tokens@,
                r,
                final(state).position as int,
            ),
        decreases old(state).remaining(), 1nat,
    {
        utils::skip_left_brace(state)?;
        let body = self.body(state, &TokenKind::RightBrace)?;
        utils::skip_right_brace(state)?;
        Ok(body)
    }

    /// Parses what a control structure governs: the statements of a braced
    /// block, or one statement.
    pub(crate) fn branch(&self, state: &mut State) -> (r: ParseResult<Vec<Statement>>)
        requires
            old(state).wf(),
        ensures
            block_outcome(*old(state), *final(state), r),
            r is Ok ==> final(state).position > old(state).position,
            block_agrees(
                structures::branch(old(state).tokens@, old(state).position as int, old(state).scope()),
                old(state).tokens@,
                r,
                final(state).position as int,
            ),
        decreases old(state).remaining(), 10nat,
    {
        if matches!(state.current().kind, TokenKind::LeftBrace) {
            self.braced(state)
        } else {
            let ghost said = program::statement(state.tokens@, state.position as int, state.scope());
            let statement = self.statement(state)?;
            let mut body: Vec<Statement> = Vec::new();
            body.push(statement);
            assert(said is Tree ==> models_block(body@, seq![said->Tree_0], state.tokens@));
            Ok(body)
        }
    }

    /// Parses what a control structure governs, in the braced form, as one
    /// statement, or, after `:`, up to `until` and the `;` behind it.
    pub(crate) fn governed(&self, state: &mut State, until: &TokenKind) -> (r: ParseResult<
        Vec<Statement>,
    >)
        requires
            old(state).wf(),
            is_closer(*until),
        ensures
            block_outcome(*old(state), *final(state), r),
            r is Ok ==> final(state).position > old(state).position,
            block_agrees(
                structures::governed(
                    old(state).tokens@,
                    old(state).position as int,
                    *until,
                    old(state).scope(),
                ),
                old(state).tokens@,
                r,
                final(state).position as int,
            ),
        decreases old(state).remaining(), 11nat,
    {
        if matches!(state.current().kind, TokenKind::Colon) {
            state.next();
            let body = self.body(state, until)?;
            state.next();
            utils::skip_semicolon(state)?;
            Ok(body)
        } else {
            self.branch(state)
        }
    }

    /// Parses what a loop governs: nothing where `;` follows the header,
    /// else as `governed`.
    pub(crate) fn loop_body(&self, state: &mut State, until: &TokenKind) -> (r: ParseResult<
        Vec<Statement>,
    >)
        requires
            old(state).wf(),
            is_closer(*until),
        ensures
            block_outcome(*old(state), *final(state), r),
            r is Ok ==> final(state).position > old(state).position,
            block_agrees(
                structures::loop_body(
                    old(state).tokens@,
                    old(state).position as int,
                    *until,
                    old(state).scope(),
                ),
                old(state).tokens@,
                r,
                final(state).position as int,
            ),
        decreases old(state).remaining(), 12nat,
    {
        if matches!(state.current().kind, TokenKind::SemiColon) {
            state.next();
            let body: Vec<Statement> = Vec::new();
            assert(models_block(body@, Seq::empty(), state.tokens@));
            Ok(body)
        } else {
            self.governed(state, until)
        }
    }
}

} // verus!
