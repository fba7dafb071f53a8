use crate::lexer::token::TokenKind;
use crate::parser::ast::Expression;
use crate::parser::ast::Statement;
use crate::parser::error::ParseResult;
use crate::parser::internal::outcome::expressions_valid;
use crate::parser::internal::outcome::statement_outcome;
use crate::parser::internal::functions::by_reference;
use crate::parser::internal::grouping::grouping;
use crate::parser::internal::grouping::models_list;
use crate::parser::internal::grouping::reports;
use crate::parser::internal::grouping::tree_of;
use crate::parser::internal::grouping::Shape;
use crate::parser::internal::grouping::Parsed;
use crate::parser::internal::precedences::Precedence;
use crate::parser::internal::program;
use crate::parser::internal::program::statement_agrees;
use crate::parser::internal::structures;
use crate::parser::internal::utils;
use crate::parser::state::State;
use crate::parser::Parser;
use vstd::prelude::*;

verus! {

impl Parser {
    /// Parses a `while` loop, the cursor being on `while`.
    pub(crate) fn while_loop(&self, state: &mut State) -> (r: ParseResult<Statement>)
        requires
            old(state).wf(),
            old(state).kind() is While,
        ensures
            statement_outcome(*old(state), *final(state), r),
            r is Ok ==> r->Ok_0 is While,
            statement_agrees(
                structures::while_loop(
                    old(state).tokens@,
                    old(state).position as int,
                    old(state).scope(),
                ),
                old(state).tokens@,
                r,
                final(state).position as int,
            ),
        decreases old(state).remaining(), 1nat,
    {
        state.next();
        let condition = self.parenthesized(state)?;
        let body = self.loop_body(state, &TokenKind::EndWhile)?;
        Ok(Statement::While { condition, body })
    }

    /// Parses a `do` loop, the cursor being on `do`.
    pub(crate) fn do_loop(&self, state: &mut State) -> (r: ParseResult<Statement>)
        requires
            old(state).wf(),
            old(state).kind() is Do,
        ensures
            statement_outcome(*old(state), *final(state), r),
            r is Ok ==> r->Ok_0 is DoWhile,
            statement_agrees(
                structures::do_loop(old(state).tokens@, old(state).position as int, old(state).scope()),
                old(state).tokens@,
                r,
                final(state).position as int,
            ),
        decreases old(state).remaining(), 1nat,
    {
        state.next();
        let body = self.branch(state)?;
        state.skip_comments();
        let at = matches!(state.current().kind, TokenKind::While);
        utils::skip_when(state, at, "`while`")?;
        let condition = self.parenthesized(state)?;
        utils::skip_semicolon(state)?;
        Ok(Statement::DoWhile { body, condition })
    }

    /// Parses the expressions of one section of a `for` header, up to the
    /// token that ends the section, which is left under the cursor.
    fn for_section(&self, state: &mut State, last: bool) -> (r: ParseResult<Vec<Expression>>)
        requires
            old(state).wf(),
        ensures
            final(state).follows(*old(state)),
            match r {
                Ok(list) => expressions_valid(list@, old(state).tokens@),
                Err(e) => e.valid(old(state).tokens@),
            },
            match structures::section(
                old(state).tokens@,
                old(state).position as int,
                last,
                Seq::empty(),
                old(state).scope(),
            ) {
                Parsed::Tree(shapes, end) => r is Ok && models_list(
                    r->Ok_0@,
                    shapes,
                    old(state).tokens@,
                ) && final(state).position == end,
                Parsed::Fails(fault) => r is Err && reports(r->Err_0, fault, old(state).tokens@),
                Parsed::Other => false,
            },
        decreases old(state).remaining(), 7nat,
    {
        let ghost goal = structures::section(
            state.tokens@,
            state.position as int,
            last,
            Seq::empty(),
            state.scope(),
        );
        let mut list: Vec<Expression> = Vec::new();
        let ghost mut shapes: Seq<Shape> = Seq::empty();
        loop
            invariant_except_break
                structures::section(
                    state.tokens@,
                    state.position as int,
                    last,
                    shapes,
                    state.scope(),
                ) == goal,
            invariant
                state.follows(*old(state)),
                goal == structures::section(
                    old(state).tokens@,
                    old(state).position as int,
                    last,
                    Seq::empty(),
                    old(state).scope(),
                ),
                expressions_valid(list@, state.tokens@),
                models_list(list@, shapes, state.tokens@),
            ensures
                goal == Parsed::<Seq<Shape>>::Tree(
                    shapes,
                    state.position as int,
                ),
            decreases state.remaining(),
        {
            let at_end = if last {
                matches!(state.current().kind, TokenKind::RightParen)
            } else {
                matches!(state.current().kind, TokenKind::SemiColon)
            };
            if at_end {
                break ;
            }
            let ghost said = grouping(
                state.tokens@,
                state.position as int,
                Precedence::Lowest,
                state.scope(),
            );
            let e = self.expression(state, Precedence::Lowest)?;
            list.push(e);
            proof {
                shapes = shapes.push(tree_of(said));
            }
            if matches!(state.current().kind, TokenKind::Comma) {
                state.next();
            } else {
                break ;
            }
        }
        Ok(list)
    }

    /// Parses a `for` loop, the cursor being on `for`.
    pub(crate) fn for_loop(&self, state: &mut State) -> (r: ParseResult<Statement>)
        requires
            old(state).wf(),
            old(state).kind() is For,
        ensures
            statement_outcome(*old(state), *final(state), r),
            r is Ok ==> r->Ok_0 is For,
            statement_agrees(
                structures::for_loop(old(state).tokens@, old(state).position as int, old(state).scope()),
                old(state).tokens@,
                r,
                final(state).position as int,
            ),
        decreases old(state).remaining(), 1nat,
    {
        state.next();
        utils::skip_left_parenthesis(state)?;
        let init = self.for_section(state, false)?;
        let at = matches!(state.current().kind, TokenKind::SemiColon);
        utils::skip_when(state, at, "`;`")?;
        let condition = self.for_section(state, false)?;
        let at = matches!(state.current().kind, TokenKind::SemiColon);
        utils::skip_when(state, at, "`;`")?;
        let step = self.for_section(state, true)?;
        utils::skip_right_parenthesis(state)?;
        let body = self.loop_body(state, &TokenKind::EndFor)?;
        Ok(Statement::For { init, condition, step, body })
    }

    /// Parses a `foreach` loop, the cursor being on `foreach`.
    pub(crate) fn foreach_loop(&self, state: &mut State) -> (r: ParseResult<Statement>)
        requires
            old(state).wf(),
            old(state).kind() is Foreach,
        ensures
            statement_outcome(*old(state), *final(state), r),
            r is Ok ==> r->Ok_0 is Foreach,
            statement_agrees(
                structures::foreach_loop(
                    old(state).tokens@,
                    old(state).position as int,
                    old(state).scope(),
                ),
                old(state).tokens@,
                r,
                final(state).position as int,
            ),
        decreases old(state).remaining(), 1nat,
    {
        state.next();
        utils::skip_left_parenthesis(state)?;
        let expr = self.expression(state, Precedence::Lowest)?;
        let at = matches!(state.current().kind, TokenKind::As);
        utils::skip_when(state, at, "`as`")?;
        let mut by_ref = by_reference(state);
        let first = self.expression(state, Precedence::Lowest)?;
        let (key_var, value_var) = if matches!(state.current().kind, TokenKind::DoubleArrow) {
            state.next();
            by_ref = by_reference(state);
            let value = self.expression(state, Precedence::Lowest)?;
            (Some(first), value)
        } else {
            (None, first)
        };
        utils::skip_right_parenthesis(state)?;
        let body = self.loop_body(state, &TokenKind::EndForeach)?;
        Ok(Statement::Foreach { expr, by_ref, key_var, value_var, body })
    }

    /// Parses the level of a `break` or `continue`, absent just before `;`,
    /// and the `;`.
    fn level(&self, state: &mut State) -> (r: ParseResult<Option<Expression>>)
        requires
            old(state).wf(),
        ensures
            final(state).follows(*old(state)),
            match r {
                Ok(level) => match level {
                    Some(e) => e.valid(old(state).tokens@),
                    None => true,
                },
                Err(e) => e.valid(old(state).tokens@),
            },
            match program::level(old(state).tokens@, old(state).position as int, old(state).scope()) {
                Parsed::Tree(shape, end) => r is Ok && program::models_optional(
                    r->Ok_0,
                    shape,
                    old(state).tokens@,
                ) && final(state).position == end,
                Parsed::Fails(fault) => r is Err && reports(r->Err_0, fault, old(state).tokens@),
                Parsed::Other => false,
            },
        decreases old(state).remaining(), 7nat,
    {
        let level = if matches!(state.current().kind, TokenKind::SemiColon | TokenKind::CloseTag) {
            None
        } else {
            Some(self.expression(state, Precedence::Lowest)?)
        };
        utils::skip_semicolon(state)?;
        Ok(level)
    }

    /// Parses a `break`, the cursor being on `break`.
    pub(crate) fn break_statement(&self, state: &mut State) -> (r: ParseResult<Statement>)
        requires
            old(state).wf(),
            old(state).kind() is Break,
        ensures
            statement_outcome(*old(state), *final(state), r),
            r is Ok ==> r->Ok_0 is Break,
            statement_agrees(
                program::jump(old(state).tokens@, old(state).position as int, true, old(state).scope()),
                old(state).tokens@,
                r,
                final(state).position as int,
            ),
        decreases old(state).remaining(), 1nat,
    {
        state.next();
        let level = self.level(state)?;
        Ok(Statement::Break { level })
    }

    /// Parses a `continue`, the cursor being on `continue`.
    pub(crate) fn continue_statement(&self, state: &mut State) -> (r: ParseResult<Statement>)
        requires
            old(state).wf(),
            old(state).kind() is Continue,
        ensures
            statement_outcome(*old(state), *final(state), r),
            r is Ok ==> r->Ok_0 is Continue,
            statement_agrees(
                program::jump(old(state).tokens@, old(state).position as int, false, old(state).scope()),
                old(state).tokens@,
                r,
                final(state).position as int,
            ),
        decreases old(state).remaining(), 1nat,
    {
        state.next();
        let level = self.level(state)?;
        Ok(Statement::Continue { level })
    }
}

} // verus!
