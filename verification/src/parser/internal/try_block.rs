use crate::lexer::token::TokenKind;
use crate::parser::ast::identifiers::identifiers_valid;
use crate::parser::ast::identifiers::Identifier;
use crate::parser::ast::variables::Variable;
use crate::parser::ast::Catch;
use crate::parser::ast::Statement;
use crate::parser::error::ParseResult;
use crate::parser::internal::grouping::named_at;
use crate::parser::internal::grouping::reports;
use crate::parser::internal::grouping::Parsed;
use crate::parser::internal::identifiers;
use crate::parser::internal::outcome::block_valid;
use crate::parser::internal::outcome::statement_outcome;
use crate::parser::internal::program::models_block;
use crate::parser::internal::program::models_catch;
use crate::parser::internal::program::models_catches;
use crate::parser::internal::program::statement_agrees;
use crate::parser::internal::program::variable_at;
use crate::parser::internal::program::CatchShape;
use crate::parser::internal::program::StatementShape;
use crate::parser::internal::structures;
use crate::parser::internal::utils;
use crate::parser::state::State;
use crate::parser::Parser;
use vstd::prelude::*;

verus! {

/// Parses the head of a `catch`: the types between `|`, the variable
/// where one is written, and the parentheses.
fn catch_head(state: &mut State) -> (r: ParseResult<(Vec<Identifier>, Option<Variable>)>)
    requires
        old(state).wf(),
    ensures
        final(state).follows(*old(state)),
        match r {
            Ok(head) => {
                &&& head.0@.len() > 0
                &&& identifiers_valid(head.0@, old(state).tokens@)
                &&& match head.1 {
                    Some(v) => v.valid(old(state).tokens@),
                    None => true,
                }
                &&& final(state).position > old(state).position
            },
            Err(e) => e.valid(old(state).tokens@),
        },
        match structures::catch_head(old(state).tokens@, old(state).position as int) {
            Parsed::Tree(shape, end) => {
                &&& r is Ok
                &&& final(state).position == end
                &&& shape.0.len() > 0
                &&& r->Ok_0.0@.len() == shape.0.len()
                &&& forall|i: int|
                    0 <= i < shape.0.len() ==> named_at(
                        r->Ok_0.0@[i],
                        old(state).tokens@,
                        #[trigger] shape.0[i],
                    )
                &&& match shape.1 {
                    Some(at) => r->Ok_0.1 is Some && variable_at(
                        r->Ok_0.1->Some_0,
                        old(state).tokens@,
                        at,
                    ),
                    None => r->Ok_0.1 is None,
                }
            },
            Parsed::Fails(fault) => r is Err && reports(r->Err_0, fault, old(state).tokens@),
            Parsed::Other => false,
        },
{
    let ghost goal = structures::catch_head(state.tokens@, state.position as int);
    utils::skip_left_parenthesis(state)?;
    let ghost list = structures::catch_types(state.tokens@, state.position as int, Seq::empty());
    let mut types: Vec<Identifier> = Vec::new();
    let ghost mut shapes: Seq<int> = Seq::empty();
    loop
        invariant_except_break
            structures::catch_types(
                state.tokens@,
                state.position as int,
                shapes,
            ) == list,
        invariant
            state.follows(*old(state)),
            state.position > old(state).position,
            old(state).kind() is LeftParen,
            list == structures::catch_types(old(state).tokens@, old(state).position + 1, Seq::empty()),
            identifiers_valid(types@, state.tokens@),
            types@.len() == shapes.len() && forall|i: int|
                0 <= i < shapes.len() ==> named_at(types@[i], state.tokens@, #[trigger] shapes[i]),
        ensures
            types@.len() > 0,
            list == Parsed::<Seq<int>>::Tree(shapes, state.position as int)
                && shapes.len() > 0,
        decreases state.remaining(),
    {
        let ghost at = state.position as int;
        let next = identifiers::full_name(state)?;
        types.push(next);
        proof {
            shapes = shapes.push(at);
        }
        if matches!(state.current().kind, TokenKind::Pipe) {
            state.next();
        } else {
            break ;
        }
    }
    let var = if matches!(state.current().kind, TokenKind::RightParen) {
        None
    } else {
        Some(identifiers::var(state)?)
    };
    utils::skip_right_parenthesis(state)?;
    Ok((types, var))
}

impl Parser {
    /// Parses one `catch` clause, the cursor being on `catch`.
    fn catch_clause(&self, state: &mut State) -> (r: ParseResult<Catch>)
        requires
            old(state).wf(),
            old(state).kind() is Catch,
        ensures
            final(state).follows(*old(state)),
            match r {
                Ok(c) => c.valid(old(state).tokens@) && final(state).position > old(state).position,
                Err(e) => e.valid(old(state).tokens@),
            },
            match structures::catch_clause(
                old(state).tokens@,
                old(state).position as int,
                old(state).scope(),
            ) {
                Parsed::Tree(shape, end) => r is Ok && models_catch(
                    r->Ok_0,
                    shape,
                    old(state).tokens@,
                ) && final(state).position == end,
                Parsed::Fails(fault) => r is Err && reports(r->Err_0, fault, old(state).tokens@),
                Parsed::Other => false,
            },
        decreases old(state).remaining(), 2nat,
    {
        state.next();
        let (types, var) = catch_head(state)?;
        let body = self.braced(state)?;
        Ok(Catch { types, var, body })
    }

    /// Parses the `catch` clauses and the `finally` block of a `try` whose
    /// body is there.
    fn catches(&self, state: &mut State, body: Vec<Statement>) -> (r: ParseResult<Statement>)
        requires
            old(state).wf(),
            block_valid(body@, old(state).tokens@),
        ensures
            final(state).follows(*old(state)),
            match r {
                Ok(s) => s.valid(old(state).tokens@) && s is Try,
                Err(e) => e.valid(old(state).tokens@),
            },
            forall|shape: Seq<StatementShape>| #[trigger]
                models_block(body@, shape, old(state).tokens@) ==> statement_agrees(
                    structures::catches(
                        old(state).tokens@,
                        old(state).position as int,
                        shape,
                        Seq::empty(),
                        old(state).scope(),
                    ),
                    old(state).tokens@,
                    r,
                    final(state).position as int,
                ),
        decreases old(state).remaining(), 3nat,
    {
        let mut catches: Vec<Catch> = Vec::new();
        let ghost mut shapes: Seq<CatchShape> = Seq::empty();
        loop
            invariant_except_break
                forall|shape: Seq<StatementShape>| #[trigger]
                    models_block(body@, shape, old(state).tokens@) ==> structures::catches(
                        state.tokens@,
                        state.position as int,
                        shape,
                        shapes,
                        state.scope(),
                    ) == structures::catches(
                        old(state).tokens@,
                        old(state).position as int,
                        shape,
                        Seq::empty(),
                        old(state).scope(),
                    ) && models_catches(catches@, shapes, state.tokens@),
            invariant
                state.follows(*old(state)),
                block_valid(body@, state.tokens@),
                forall|i: int|
                    0 <= i < catches@.len() ==> (#[trigger] catches@[i]).valid(state.tokens@),
            ensures
                !(state.kind() is Catch),
                forall|shape: Seq<StatementShape>| #[trigger]
                    models_block(body@, shape, old(state).tokens@) ==> models_catches(catches@, shapes, state.tokens@)
                        && structures::catches(
                        old(state).tokens@,
                        old(state).position as int,
                        shape,
                        Seq::empty(),
                        old(state).scope(),
                    ) == (if state.kind() is Finally {
                        match structures::braced(
                            state.tokens@,
                            state.position + 1,
                            state.scope(),
                        ) {
                            Parsed::Tree(list, end) => Parsed::Tree(
                                StatementShape::Try(shape, shapes, Some(list)),
                                end,
                            ),
                            Parsed::Fails(fault) => Parsed::Fails(fault),
                            Parsed::Other => Parsed::Other,
                        }
                    } else {
                        Parsed::Tree(StatementShape::Try(shape, shapes, None), state.position as int)
                    }),
            decreases state.remaining(),
        {
            if matches!(state.past_comments().kind, TokenKind::Catch | TokenKind::Finally) {
                state.skip_comments();
            }
            if !matches!(state.current().kind, TokenKind::Catch) {
                break ;
            }
            let ghost said = structures::catch_clause(
                state.tokens@,
                state.position as int,
                state.scope(),
            );
            let clause = self.catch_clause(state)?;
            catches.push(clause);
            proof {
                if said is Tree {
                    shapes = shapes.push(said->Tree_0);
                }
            }
        }
        let finally = if matches!(state.current().kind, TokenKind::Finally) {
            state.next();
            Some(self.braced(state)?)
        } else {
            None
        };
        Ok(Statement::Try { body, catches, finally })
    }

    /// Parses a `try` with its `catch` clauses and its `finally`, the cursor
    /// being on `try`.
    pub(crate) fn try_block(&self, state: &mut State) -> (r: ParseResult<Statement>)
        requires
            old(state).wf(),
            old(state).kind() is Try,
        ensures
            statement_outcome(*old(state), *final(state), r),
            r is Ok ==> r->Ok_0 is Try,
            statement_agrees(
                structures::try_block(old(state).tokens@, old(state).position as int, old(state).scope()),
                old(state).tokens@,
                r,
                final(state).position as int,
            ),
        decreases old(state).remaining(), 1nat,
    {
        state.next();
        let body = self.braced(state)?;
        self.catches(state, body)
    }
}

} // verus!
