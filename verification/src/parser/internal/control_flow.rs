use crate::lexer::token::TokenKind;
use crate::parser::ast::Case;
use crate::parser::ast::ElseIf;
use crate::parser::ast::Statement;
use crate::parser::error::ParseResult;
use crate::parser::internal::outcome::block_outcome;
use crate::parser::internal::outcome::block_valid;
use crate::parser::internal::grouping::models;
use crate::parser::internal::grouping::Parsed;
use crate::parser::internal::grouping::Shape;
use crate::parser::internal::outcome::statement_outcome;
use crate::parser::internal::program;
use crate::parser::internal::program::block_agrees;
use crate::parser::internal::program::models_block;
use crate::parser::internal::grouping::reports;
use crate::parser::internal::program::models_cases;
use crate::parser::internal::program::models_else_ifs;
use crate::parser::internal::program::CaseShape;
use crate::parser::internal::program::statement_agrees;
use crate::parser::internal::program::ElseIfShape;
use crate::parser::internal::program::StatementShape;
use crate::parser::internal::structures;
use crate::parser::ast::Expression;
use crate::parser::internal::precedences::Precedence;
use crate::parser::internal::utils;
use crate::parser::state::State;
use crate::parser::Parser;
use vstd::prelude::*;

verus! {

/// Passes the comments before an `elseif` or `else` that follows them.
fn skip_to_else(state: &mut State)
    requires
        old(state).wf(),
    ensures
        final(state).follows(*old(state)),
        final(state).position == structures::before_else(
            old(state).tokens@,
            old(state).position as int,
        ),
{
    if matches!(state.past_comments().kind, TokenKind::ElseIf | TokenKind::Else) {
        state.skip_comments();
    }
}

impl Parser {
    /// Parses the statements of one branch of an `if` in its alternative
    /// form, up to `elseif`, `else` or `endif`.
    fn alternative_branch(&self, state: &mut State) -> (r: ParseResult<Vec<Statement>>)
        requires
            old(state).wf(),
        ensures
            block_outcome(*old(state), *final(state), r),
            block_agrees(
                structures::alternative(
                    old(state).tokens@,
                    old(state).position as int,
                    Seq::empty(),
                    old(state).scope(),
                ),
                old(state).tokens@,
                r,
                final(state).position as int,
            ),
        decreases old(state).remaining(), 10nat,
    {
        let ghost goal = structures::alternative(
            state.tokens@,
            state.position as int,
            Seq::empty(),
            state.scope(),
        );
        let mut block: Vec<Statement> = Vec::new();
        let ghost mut shapes: Seq<StatementShape> = Seq::empty();
        loop
            invariant_except_break
                structures::alternative(
                    state.tokens@,
                    state.position as int,
                    shapes,
                    state.scope(),
                ) == goal,
            invariant
                state.follows(*old(state)),
                goal == structures::alternative(
                    old(state).tokens@,
                    old(state).position as int,
                    Seq::empty(),
                    old(state).scope(),
                ),
                block_valid(block@, state.tokens@),
                models_block(block@, shapes, state.tokens@),
            ensures
                goal == Parsed::<Seq<StatementShape>>::Tree(
                    shapes,
                    state.position as int,
                ),
            decreases state.remaining(),
        {
            if matches!(
                state.current().kind,
                TokenKind::ElseIf | TokenKind::Else | TokenKind::EndIf
            ) {
                break ;
            }
            let ghost said = program::statement(state.tokens@, state.position as int, state.scope());
            let statement = self.statement(state)?;
            block.push(statement);
            proof {
                if said is Tree {
                    shapes = shapes.push(said->Tree_0);
                }
            }
        }
        Ok(block)
    }

    /// Parses `:` and the statements of a branch in the alternative form.
    fn after_colon(&self, state: &mut State) -> (r: ParseResult<Vec<Statement>>)
        requires
            old(state).wf(),
        ensures
            block_outcome(*old(state), *final(state), r),
            r is Ok ==> final(state).position > old(state).position,
            block_agrees(
                structures::after_colon(
                    old(state).tokens@,
                    old(state).position as int,
                    old(state).scope(),
                ),
                old(state).tokens@,
                r,
                final(state).position as int,
            ),
        decreases old(state).remaining(), 1nat,
    {
        utils::colon(state)?;
        self.alternative_branch(state)
    }

    /// Parses the `elseif` branches and the `else` branch of an `if` whose
    /// condition and first branch are there.
    fn else_branches(&self, state: &mut State, condition: Expression, then: Vec<Statement>) -> (r:
        ParseResult<Statement>)
        requires
            old(state).wf(),
            condition.valid(old(state).tokens@),
            block_valid(then@, old(state).tokens@),
        ensures
            final(state).follows(*old(state)),
            match r {
                Ok(s) => s.valid(old(state).tokens@) && s is If,
                Err(e) => e.valid(old(state).tokens@),
            },
            forall|c: Shape, t: Seq<StatementShape>|
                #![trigger models(condition, c, old(state).tokens@), models_block(then@, t, old(state).tokens@)]
                models(condition, c, old(state).tokens@) && models_block(
                    then@,
                    t,
                    old(state).tokens@,
                ) ==> statement_agrees(
                    structures::else_branches(
                        old(state).tokens@,
                        old(state).position as int,
                        c,
                        t,
                        Seq::empty(),
                        old(state).scope(),
                    ),
                    old(state).tokens@,
                    r,
                    final(state).position as int,
                ),
        decreases old(state).remaining(), 12nat,
    {
        let mut else_ifs: Vec<ElseIf> = Vec::new();
        let ghost mut shapes: Seq<ElseIfShape> = Seq::empty();
        loop
            invariant_except_break
                forall|c: Shape, t: Seq<StatementShape>|
                    #![trigger models(condition, c, old(state).tokens@), models_block(then@, t, old(state).tokens@)]
                    models(condition, c, old(state).tokens@) && models_block(
                        then@,
                        t,
                        old(state).tokens@,
                    ) ==> structures::else_branches(
                        state.tokens@,
                        state.position as int,
                        c,
                        t,
                        shapes,
                        state.scope(),
                    ) == structures::else_branches(
                        old(state).tokens@,
                        old(state).position as int,
                        c,
                        t,
                        Seq::empty(),
                        old(state).scope(),
                    ) && models_else_ifs(else_ifs@, shapes, state.tokens@),
            invariant
                state.follows(*old(state)),
                condition.valid(state.tokens@),
                block_valid(then@, state.tokens@),
                forall|i: int|
                    0 <= i < else_ifs@.len() ==> (#[trigger] else_ifs@[i]).valid(state.tokens@),
            ensures
                !(state.kind() is ElseIf),
                forall|c: Shape, t: Seq<StatementShape>|
                    #![trigger models(condition, c, old(state).tokens@), models_block(then@, t, old(state).tokens@)]
                    models(condition, c, old(state).tokens@) && models_block(
                        then@,
                        t,
                        old(state).tokens@,
                    ) ==> structures::else_branches(
                        state.tokens@,
                        state.position as int,
                        c,
                        t,
                        shapes,
                        state.scope(),
                    ) == structures::else_branches(
                        old(state).tokens@,
                        old(state).position as int,
                        c,
                        t,
                        Seq::empty(),
                        old(state).scope(),
                    ) && models_else_ifs(else_ifs@, shapes, state.tokens@),
            decreases state.remaining(),
        {
            if !matches!(state.current().kind, TokenKind::ElseIf) {
                break ;
            }
            state.next();
            let ghost test = structures::parenthesized(
                state.tokens@,
                state.position as int,
                state.scope(),
            );
            let condition = self.parenthesized(state)?;
            let ghost list = structures::branch(state.tokens@, state.position as int, state.scope());
            let body = self.branch(state)?;
            else_ifs.push(ElseIf { condition, body });
            skip_to_else(state);
            proof {
                if test is Tree && list is Tree {
                    shapes = shapes.push(
                        ElseIfShape { condition: test->Tree_0, body: list->Tree_0 },
                    );
                }
            }
        }
        let otherwise = if matches!(state.current().kind, TokenKind::Else) {
            state.next();
            Some(self.branch(state)?)
        } else {
            None
        };
        Ok(Statement::If { condition, then, else_ifs, otherwise })
    }

    /// Parses the `elseif` branches and the `else` branch of an `if` in its
    /// alternative form, with `endif` and the `;` behind it.
    fn alternative_branches(
        &self,
        state: &mut State,
        condition: Expression,
        then: Vec<Statement>,
    ) -> (r: ParseResult<Statement>)
        requires
            old(state).wf(),
            condition.valid(old(state).tokens@),
            block_valid(then@, old(state).tokens@),
        ensures
            final(state).follows(*old(state)),
            match r {
                Ok(s) => s.valid(old(state).tokens@) && s is If && final(state).position > old(state).position,
                Err(e) => e.valid(old(state).tokens@),
            },
            forall|c: Shape, t: Seq<StatementShape>|
                #![trigger models(condition, c, old(state).tokens@), models_block(then@, t, old(state).tokens@)]
                models(condition, c, old(state).tokens@) && models_block(
                    then@,
                    t,
                    old(state).tokens@,
                ) ==> statement_agrees(
                    structures::alternative_branches(
                        old(state).tokens@,
                        old(state).position as int,
                        c,
                        t,
                        Seq::empty(),
                        old(state).scope(),
                    ),
                    old(state).tokens@,
                    r,
                    final(state).position as int,
                ),
        decreases old(state).remaining(), 12nat,
    {
        let mut else_ifs: Vec<ElseIf> = Vec::new();
        let ghost mut shapes: Seq<ElseIfShape> = Seq::empty();
        loop
            invariant_except_break
                forall|c: Shape, t: Seq<StatementShape>|
                    #![trigger models(condition, c, old(state).tokens@), models_block(then@, t, old(state).tokens@)]
                    models(condition, c, old(state).tokens@) && models_block(
                        then@,
                        t,
                        old(state).tokens@,
                    ) ==> structures::alternative_branches(
                        state.tokens@,
                        state.position as int,
                        c,
                        t,
                        shapes,
                        state.scope(),
                    ) == structures::alternative_branches(
                        old(state).tokens@,
                        old(state).position as int,
                        c,
                        t,
                        Seq::empty(),
                        old(state).scope(),
                    ) && models_else_ifs(else_ifs@, shapes, state.tokens@),
            invariant
                state.follows(*old(state)),
                condition.valid(state.tokens@),
                block_valid(then@, state.tokens@),
                forall|i: int|
                    0 <= i < else_ifs@.len() ==> (#[trigger] else_ifs@[i]).valid(state.tokens@),
            ensures
                !(state.kind() is ElseIf),
                forall|c: Shape, t: Seq<StatementShape>|
                    #![trigger models(condition, c, old(state).tokens@), models_block(then@, t, old(state).tokens@)]
                    models(condition, c, old(state).tokens@) && models_block(
                        then@,
                        t,
                        old(state).tokens@,
                    ) ==> structures::alternative_branches(
                        state.tokens@,
                        state.position as int,
                        c,
                        t,
                        shapes,
                        state.scope(),
                    ) == structures::alternative_branches(
                        old(state).tokens@,
                        old(state).position as int,
                        c,
                        t,
                        Seq::empty(),
                        old(state).scope(),
                    ) && models_else_ifs(else_ifs@, shapes, state.tokens@),
            decreases state.remaining(),
        {
            if !matches!(state.current().kind, TokenKind::ElseIf) {
                break ;
            }
            state.next();
            let ghost test = structures::parenthesized(
                state.tokens@,
                state.position as int,
                state.scope(),
            );
            let condition = self.parenthesized(state)?;
            let ghost list = structures::after_colon(
                state.tokens@,
                state.position as int,
                state.scope(),
            );
            let body = self.after_colon(state)?;
            else_ifs.push(ElseIf { condition, body });
            proof {
                if test is Tree && list is Tree {
                    shapes = shapes.push(
                        ElseIfShape { condition: test->Tree_0, body: list->Tree_0 },
                    );
                }
            }
        }
        let otherwise = if matches!(state.current().kind, TokenKind::Else) {
            state.next();
            Some(self.after_colon(state)?)
        } else {
            None
        };
        let at = matches!(state.current().kind, TokenKind::EndIf);
        utils::skip_when(state, at, "`endif`")?;
        utils::skip_semicolon(state)?;
        Ok(Statement::If { condition, then, else_ifs, otherwise })
    }

    /// Parses an `if` with its `elseif` and `else` branches, the cursor
    /// being on `if`.
    pub(crate) fn if_statement(&self, state: &mut State) -> (r: ParseResult<Statement>)
        requires
            old(state).wf(),
            old(state).kind() is If,
        ensures
            statement_outcome(*old(state), *final(state), r),
            r is Ok ==> r->Ok_0 is If,
            statement_agrees(
                structures::if_statement(
                    old(state).tokens@,
                    old(state).position as int,
                    old(state).scope(),
                ),
                old(state).tokens@,
                r,
                final(state).position as int,
            ),
        decreases old(state).remaining(), 1nat,
    {
        state.next();
        let condition = self.parenthesized(state)?;
        if matches!(state.current().kind, TokenKind::Colon) {
            state.next();
            let then = self.alternative_branch(state)?;
            self.alternative_branches(state, condition, then)
        } else {
            let then = self.branch(state)?;
            skip_to_else(state);
            self.else_branches(state, condition, then)
        }
    }

    /// Parses the statements of one arm of a `switch`, up to the next arm
    /// or the end of the `switch`.
    fn case_body(&self, state: &mut State) -> (r: ParseResult<Vec<Statement>>)
        requires
            old(state).wf(),
        ensures
            block_outcome(*old(state), *final(state), r),
            block_agrees(
                structures::case_body(
                    old(state).tokens@,
                    old(state).position as int,
                    Seq::empty(),
                    old(state).scope(),
                ),
                old(state).tokens@,
                r,
                final(state).position as int,
            ),
        decreases old(state).remaining(), 10nat,
    {
        let ghost goal = structures::case_body(
            state.tokens@,
            state.position as int,
            Seq::empty(),
            state.scope(),
        );
        let mut block: Vec<Statement> = Vec::new();
        let ghost mut shapes: Seq<StatementShape> = Seq::empty();
        loop
            invariant_except_break
                structures::case_body(
                    state.tokens@,
                    state.position as int,
                    shapes,
                    state.scope(),
                ) == goal,
            invariant
                state.follows(*old(state)),
                goal == structures::case_body(
                    old(state).tokens@,
                    old(state).position as int,
                    Seq::empty(),
                    old(state).scope(),
                ),
                block_valid(block@, state.tokens@),
                models_block(block@, shapes, state.tokens@),
            ensures
                goal == Parsed::<Seq<StatementShape>>::Tree(
                    shapes,
                    state.position as int,
                ),
            decreases state.remaining(),
        {
            if matches!(
                state.current().kind,
                TokenKind::Case | TokenKind::Default | TokenKind::RightBrace | TokenKind::EndSwitch
            ) {
                break ;
            }
            let ghost said = program::statement(state.tokens@, state.position as int, state.scope());
            let statement = self.statement(state)?;
            block.push(statement);
            proof {
                if said is Tree {
                    shapes = shapes.push(said->Tree_0);
                }
            }
        }
        Ok(block)
    }

    /// Parses the arms of a `switch` up to the first token that begins no
    /// arm.
    fn cases(&self, state: &mut State) -> (r: ParseResult<Vec<Case>>)
        requires
            old(state).wf(),
        ensures
            final(state).follows(*old(state)),
            match r {
                Ok(list) => forall|i: int|
                    0 <= i < list@.len() ==> (#[trigger] list@[i]).valid(old(state).tokens@),
                Err(e) => e.valid(old(state).tokens@),
            },
            match structures::cases(
                old(state).tokens@,
                old(state).position as int,
                Seq::empty(),
                old(state).scope(),
            ) {
                Parsed::Tree(shapes, end) => r is Ok && models_cases(
                    r->Ok_0@,
                    shapes,
                    old(state).tokens@,
                ) && final(state).position == end,
                Parsed::Fails(fault) => r is Err && reports(r->Err_0, fault, old(state).tokens@),
                Parsed::Other => false,
            },
        decreases old(state).remaining(), 11nat,
    {
        let ghost goal = structures::cases(
            state.tokens@,
            state.position as int,
            Seq::empty(),
            state.scope(),
        );
        let mut cases: Vec<Case> = Vec::new();
        let ghost mut shapes: Seq<CaseShape> = Seq::empty();
        loop
            invariant_except_break
                structures::cases(
                    state.tokens@,
                    state.position as int,
                    shapes,
                    state.scope(),
                ) == goal,
            invariant
                state.follows(*old(state)),
                goal == structures::cases(
                    old(state).tokens@,
                    old(state).position as int,
                    Seq::empty(),
                    old(state).scope(),
                ),
                forall|i: int| 0 <= i < cases@.len() ==> (#[trigger] cases@[i]).valid(state.tokens@),
                models_cases(cases@, shapes, state.tokens@),
            ensures
                goal == Parsed::<Seq<CaseShape>>::Tree(
                    shapes,
                    state.position as int,
                ),
            decreases state.remaining(),
        {
            state.skip_comments();
            let ghost head = structures::case_head(
                state.tokens@,
                state.position as int,
                state.scope(),
            );
            let condition = match &state.current().kind {
                TokenKind::Case => {
                    state.next();
                    Some(self.expression(state, Precedence::Lowest)?)
                },
                TokenKind::Default => {
                    state.next();
                    None
                },
                _ => {
                    break ;
                },
            };
            if matches!(state.current().kind, TokenKind::SemiColon) {
                state.next();
            } else {
                utils::colon(state)?;
            }
            let ghost list = structures::case_body(
                state.tokens@,
                state.position as int,
                Seq::empty(),
                state.scope(),
            );
            let body = self.case_body(state)?;
            cases.push(Case { condition, body });
            proof {
                if head is Tree && list is Tree {
                    shapes = shapes.push(CaseShape { condition: head->Tree_0, body: list->Tree_0 });
                }
            }
        }
        Ok(cases)
    }

    /// Parses a `switch`, the cursor being on `switch`.
    pub(crate) fn switch_statement(&self, state: &mut State) -> (r: ParseResult<Statement>)
        requires
            old(state).wf(),
            old(state).kind() is Switch,
        ensures
            statement_outcome(*old(state), *final(state), r),
            r is Ok ==> r->Ok_0 is Switch,
            statement_agrees(
                structures::switch_statement(
                    old(state).tokens@,
                    old(state).position as int,
                    old(state).scope(),
                ),
                old(state).tokens@,
                r,
                final(state).position as int,
            ),
        decreases old(state).remaining(), 1nat,
    {
        state.next();
        let condition = self.parenthesized(state)?;
        let alternative = matches!(state.current().kind, TokenKind::Colon);
        if alternative {
            state.next();
        } else {
            utils::skip_left_brace(state)?;
        }
        let cases = self.cases(state)?;
        if alternative {
            let at = matches!(state.current().kind, TokenKind::EndSwitch);
            utils::skip_when(state, at, "`endswitch`")?;
            utils::skip_semicolon(state)?;
        } else {
            utils::skip_right_brace(state)?;
        }
        Ok(Statement::Switch { condition, cases })
    }
}

} // verus!
