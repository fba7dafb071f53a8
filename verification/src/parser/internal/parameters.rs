use crate::lexer::token::TokenKind;
use crate::parser::ast::functions::ClosureUse;
use crate::parser::ast::functions::Param;
use crate::parser::error::ParseResult;
use crate::parser::internal::data_type;
use crate::parser::internal::declarations;
use crate::parser::internal::declarations::models_param;
use crate::parser::internal::declarations::models_params;
use crate::parser::internal::declarations::params_agree;
use crate::parser::internal::declarations::ParamShape;
use crate::parser::internal::functions::by_reference;
use crate::parser::internal::grouping;
use crate::parser::internal::grouping::reports;
use crate::parser::internal::grouping::Parsed;
use crate::parser::internal::identifiers;
use crate::parser::internal::modifiers;
use crate::parser::internal::precedences::Precedence;
use crate::parser::internal::utils;
use crate::parser::state::State;
use crate::parser::Parser;
use crate::parser::internal::closures;
use crate::parser::internal::closures::captures_agree;
use crate::parser::internal::closures::models_captures;
use crate::parser::internal::closures::CaptureShape;
use crate::parser::internal::grouping::finish;
use vstd::prelude::*;
use vstd::string::StringSliceAdditionalSpecFns;

verus! {

/// Whether every parameter of the list is valid.
pub open spec fn params_valid(list: Seq<Param>, tokens: Seq<crate::lexer::token::Token>) -> bool {
    forall|i: int| 0 <= i < list.len() ==> (#[trigger] list[i]).valid(tokens)
}

impl Parser {
    /// Parses one parameter: attributes, promotion modifiers, type, `&`,
    /// `...`, the variable and a default value, in that order.
    fn parameter(&self, state: &mut State) -> (r: ParseResult<Param>)
        requires
            old(state).wf(),
        ensures
            final(state).follows(*old(state)),
            match r {
                Ok(p) => p.valid(old(state).tokens@) && final(state).position > old(state).position,
                Err(e) => e.valid(old(state).tokens@),
            },
            match declarations::parameter(
                old(state).tokens@,
                old(state).position as int,
                old(state).scope(),
            ) {
                Parsed::Tree(shape, end) => r is Ok && models_param(
                    r->Ok_0,
                    shape,
                    old(state).tokens@,
                ) && final(state).position == end,
                Parsed::Fails(fault) => r is Err && reports(r->Err_0, fault, old(state).tokens@),
                Parsed::Other => false,
            },
        decreases old(state).remaining(), 3nat,
    {
        let start = state.current().span;
        let attributes = self.gather_attributes(state)?;
        let placed = modifiers::collect_allowed(state, modifiers::Target::PromotedProperty);
        let group = modifiers::promoted_property_group(&placed);
        let promoted = match group {
            Ok(list) => list,
            Err(e) => {
                return Err(e);
            },
        };
        let ty = data_type::optional_type(state)?;
        let by_ref = by_reference(state);
        let variadic = if matches!(state.current().kind, TokenKind::Ellipsis) {
            state.next();
            true
        } else {
            false
        };
        let name = identifiers::var(state)?;
        let default = if matches!(state.current().kind, TokenKind::Equals) {
            state.next();
            Some(self.expression(state, Precedence::Lowest)?)
        } else {
            None
        };
        let end = state.current().span;
        Ok(
            Param {
                start,
                end,
                name,
                attributes,
                ty,
                variadic,
                default,
                modifiers: promoted,
                by_ref,
            },
        )
    }

    /// Parses a parameter list with its parentheses. A comma may follow the
    /// last parameter.
    pub(crate) fn parameter_list(&self, state: &mut State) -> (r: ParseResult<Vec<Param>>)
        requires
            old(state).wf(),
        ensures
            final(state).follows(*old(state)),
            match r {
                Ok(list) => params_valid(list@, old(state).tokens@) && final(state).position > old(state).position,
                Err(e) => e.valid(old(state).tokens@),
            },
            params_agree(
                declarations::parameter_list(
                    old(state).tokens@,
                    old(state).position as int,
                    old(state).scope(),
                ),
                old(state).tokens@,
                r,
                final(state).position as int,
            ),
        decreases old(state).remaining(), 1nat,
    {
        utils::skip_left_parenthesis(state)?;
        let ghost goal = declarations::parameters(
            state.tokens@,
            state.position as int,
            Seq::empty(),
            state.scope(),
        );
        let mut list: Vec<Param> = Vec::new();
        let ghost mut shapes: Seq<ParamShape> = Seq::empty();
        loop
            invariant_except_break
                declarations::parameters(
                    state.tokens@,
                    state.position as int,
                    shapes,
                    state.scope(),
                ) == goal,
            invariant
                state.follows(*old(state)),
                state.position > old(state).position,
                old(state).kind() is LeftParen,
                goal == declarations::parameters(
                    old(state).tokens@,
                    old(state).position + 1,
                    Seq::empty(),
                    old(state).scope(),
                ),
                params_valid(list@, state.tokens@),
                models_params(list@, shapes, state.tokens@),
            ensures
                grouping::finish(
                    state.tokens@,
                    state.position as int,
                    |k: TokenKind| k is RightParen,
                    "`)`".spec_bytes(),
                    shapes,
                ) == goal,
            decreases state.remaining(),
        {
            state.skip_comments();
            if matches!(state.current().kind, TokenKind::RightParen) {
                break ;
            }
            let ghost said = declarations::parameter(
                state.tokens@,
                state.position as int,
                state.scope(),
            );
            let param = self.parameter(state)?;
            list.push(param);
            state.skip_comments();
            proof {
                if said is Tree {
                    shapes = shapes.push(said->Tree_0);
                }
            }
            if matches!(state.current().kind, TokenKind::Comma) {
                state.next();
            } else {
                break ;
            }
        }
        utils::skip_right_parenthesis(state)?;
        Ok(list)
    }

    /// Parses what a closure captures: `use` and the variables between
    /// parentheses, nothing where the cursor is not on `use`. A comma may
    /// follow the last variable.
    pub(crate) fn closure_uses(&self, state: &mut State) -> (r: ParseResult<Vec<ClosureUse>>)
        requires
            old(state).wf(),
        ensures
            final(state).follows(*old(state)),
            match r {
                Ok(list) => forall|i: int|
                    0 <= i < list@.len() ==> (#[trigger] list@[i]).valid(old(state).tokens@),
                Err(e) => e.valid(old(state).tokens@),
            },
            captures_agree(
                closures::captured(old(state).tokens@, old(state).position as int),
                old(state).tokens@,
                r,
                final(state).position as int,
            ),
    {
        let ghost goal = closures::captured(state.tokens@, state.position as int);
        if !matches!(state.current().kind, TokenKind::Use) {
            let none: Vec<ClosureUse> = Vec::new();
            assert(models_captures(none@, Seq::empty(), state.tokens@));
            return Ok(none);
        }
        state.next();
        utils::skip_left_parenthesis(state)?;
        let mut list: Vec<ClosureUse> = Vec::new();
        let ghost mut shapes: Seq<CaptureShape> = Seq::empty();
        loop
            invariant_except_break
                closures::captures(state.tokens@, state.position as int, shapes)
                    == goal,
            invariant
                state.follows(*old(state)),
                goal == closures::captured(old(state).tokens@, old(state).position as int),
                forall|i: int| 0 <= i < list@.len() ==> (#[trigger] list@[i]).valid(state.tokens@),
                models_captures(list@, shapes, state.tokens@),
            ensures
                goal == finish(
                    state.tokens@,
                    state.position as int,
                    |k: TokenKind| k is RightParen,
                    "`)`".spec_bytes(),
                    shapes,
                ),
            decreases state.remaining(),
        {
            if matches!(state.current().kind, TokenKind::RightParen) {
                break ;
            }
            let ghost at = state.position as int;
            let by_ref = if matches!(state.current().kind, TokenKind::Ampersand) {
                state.next();
                true
            } else {
                false
            };
            let ghost named = state.position as int;
            let var = identifiers::var(state)?;
            list.push(ClosureUse { var, by_ref });
            proof {
                shapes = shapes.push(CaptureShape { var: named, by_ref });
            }
            if matches!(state.current().kind, TokenKind::Comma) {
                state.next();
            } else {
                break ;
            }
        }
        utils::skip_right_parenthesis(state)?;
        Ok(list)
    }
}

} // verus!
