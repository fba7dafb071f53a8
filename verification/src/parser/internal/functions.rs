use crate::lexer::token::TokenKind;
use crate::parser::ast::attributes::AttributeGroup;
use crate::parser::ast::functions::ArrowFunction;
use crate::parser::ast::functions::Closure;
use crate::parser::ast::functions::Function;
use crate::parser::ast::functions::Method;
use crate::parser::ast::Expression;
use crate::parser::ast::Statement;
use crate::lexer::token::Span;
use crate::parser::internal::outcome::block_valid;
use crate::parser::internal::program::models_block;
use crate::parser::ast::Type;
use crate::parser::error::ParseError;
use crate::parser::error::ParseResult;
use crate::parser::internal::data_type;
use crate::parser::internal::classes;
use crate::parser::internal::closures;
use crate::parser::internal::grouping;
use crate::parser::internal::closures::models_arrow;
use crate::parser::internal::closures::models_closure;
use crate::parser::internal::grouping::agrees;
use crate::parser::internal::grouping::models;
use crate::parser::internal::classish_statements::stands_before;
use crate::parser::internal::declarations;
use crate::parser::internal::grouping::reports;
use crate::parser::internal::grouping::Parsed;
use crate::parser::internal::modifiers;
use crate::parser::internal::modifiers::Placed;
use crate::parser::internal::declarations::models_groups;
use crate::parser::internal::declarations::GroupShape;
use crate::parser::internal::program;
use crate::parser::internal::program::statement_agrees;
use crate::parser::internal::declarations::optional_type_agrees;
use crate::parser::internal::identifiers;
use crate::parser::internal::outcome::attributes_valid;
use crate::parser::internal::outcome::expression_outcome;
use crate::parser::internal::outcome::statement_outcome;
use crate::parser::internal::precedences::Precedence;
use crate::parser::internal::utils;
use crate::parser::state::State;
use crate::parser::Parser;
use vstd::prelude::*;

verus! {

/// Parses `: type` where the cursor is on `:`, and nothing elsewhere.
pub(crate) fn return_type(state: &mut State) -> (r: ParseResult<Option<Type>>)
    requires
        old(state).wf(),
    ensures
        final(state).follows(*old(state)),
        final(state).comments == old(state).comments,
        r is Err ==> r->Err_0.valid(old(state).tokens@),
        optional_type_agrees(
            declarations::return_type(old(state).tokens@, old(state).position as int),
            old(state).tokens@,
            r,
            final(state).position as int,
        ),
{
    if matches!(state.current().kind, TokenKind::Colon) {
        state.next();
        Ok(Some(data_type::type_string(state)?))
    } else {
        Ok(None)
    }
}

/// Takes `&` where the cursor is on it, and says whether it was there.
pub fn by_reference(state: &mut State) -> (b: bool)
    requires
        old(state).wf(),
    ensures
        final(state).follows(*old(state)),
        b == old(state).kind() is Ampersand,
        final(state).position == if b {
            old(state).position + 1
        } else {
            old(state).position as int
        },
{
    if matches!(state.current().kind, TokenKind::Ampersand) {
        state.next();
        true
    } else {
        false
    }
}

impl Parser {
    /// Parses a named function, the cursor being on `function`.
    #[verifier::spinoff_prover]
    pub(crate) fn function(&self, state: &mut State, attributes: Vec<AttributeGroup>) -> (r:
        ParseResult<Statement>)
        requires
            old(state).wf(),
            old(state).kind() is Function,
            attributes_valid(attributes@, old(state).tokens@),
        ensures
            statement_outcome(*old(state), *final(state), r),
            r is Ok ==> r->Ok_0 is Function,
            forall|groups: Seq<GroupShape>| #[trigger]
                models_groups(attributes@, groups, old(state).tokens@) ==> statement_agrees(
                    program::function(
                        old(state).tokens@,
                        old(state).position as int,
                        groups,
                        old(state).scope(),
                    ),
                    old(state).tokens@,
                    r,
                    final(state).position as int,
                ),
        decreases old(state).remaining(), 1nat,
    {
        let start = state.current().span;
        state.next();
        let by_ref = by_reference(state);
        let name = identifiers::ident_maybe_reserved(state)?;
        let params = self.parameter_list(state)?;
        let return_type = return_type(state)?;
        utils::skip_left_brace(state)?;
        let body = self.body(state, &TokenKind::RightBrace)?;
        let end = state.current().span;
        utils::skip_right_brace(state)?;
        let function = Function { start, end, name, attributes, params, return_type, by_ref, body };
        assert(function.valid(state.tokens@));
        Ok(Statement::Function(function))
    }

    /// Parses an anonymous function, the cursor being on `function` or on
    /// the `static` before it.
    #[verifier::spinoff_prover]
    pub(crate) fn anonymous_function(
        &self,
        state: &mut State,
        attributes: Vec<AttributeGroup>,
    ) -> (r: ParseResult<Expression>)
        requires
            old(state).wf(),
            attributes_valid(attributes@, old(state).tokens@),
        ensures
            expression_outcome(*old(state), *final(state), r),
            r is Ok ==> r->Ok_0 is AnonymousFunction,
            forall|groups: Seq<GroupShape>| #[trigger]
                models_groups(attributes@, groups, old(state).tokens@) ==> agrees(
                    closures::closure(
                        old(state).tokens@,
                        old(state).position as int,
                        groups,
                        old(state).scope(),
                    ),
                    old(state).tokens@,
                    r,
                    final(state).position as int,
                ),
        decreases old(state).remaining(), 1nat,
    {
        let start = state.current().span;
        let is_static = if matches!(state.current().kind, TokenKind::Static) {
            state.next();
            true
        } else {
            false
        };
        let at = matches!(state.current().kind, TokenKind::Function);
        utils::skip_when(state, at, "`function`")?;
        let by_ref = by_reference(state);
        let params = self.parameter_list(state)?;
        let uses = self.closure_uses(state)?;
        let return_type = return_type(state)?;
        utils::skip_left_brace(state)?;
        let body = self.body(state, &TokenKind::RightBrace)?;
        let end = state.current().span;
        utils::skip_right_brace(state)?;
        let closure = Closure {
            start,
            end,
            attributes,
            params,
            uses,
            return_type,
            by_ref,
            is_static,
            body,
        };
        assert(closure.valid(state.tokens@));
        proof {
            assert forall|groups: Seq<GroupShape>| #[trigger]
                models_groups(closure.attributes@, groups, state.tokens@) implies agrees(
                closures::closure(
                    old(state).tokens@,
                    old(state).position as int,
                    groups,
                    old(state).scope(),
                ),
                state.tokens@,
                Ok(Expression::AnonymousFunction(closure)),
                state.position as int,
            ) by {
                let said = closures::closure(
                    old(state).tokens@,
                    old(state).position as int,
                    groups,
                    old(state).scope(),
                );
                if said is Tree {
                    assert(said->Tree_0 is Closure);
                    assert(models_closure(closure, said->Tree_0->Closure_0, state.tokens@));
                    assert(models(
                        Expression::AnonymousFunction(closure),
                        said->Tree_0,
                        state.tokens@,
                    ));
                }
            }
        }
        assert(closure.attributes@ == attributes@);
        assert(state.tokens@ == old(state).tokens@);
        Ok(Expression::AnonymousFunction(closure))
    }

    /// Parses an arrow function, the cursor being on `fn` or on the `static`
    /// before it.
    #[verifier::spinoff_prover]
    pub(crate) fn arrow_function(&self, state: &mut State, attributes: Vec<AttributeGroup>) -> (r:
        ParseResult<Expression>)
        requires
            old(state).wf(),
            attributes_valid(attributes@, old(state).tokens@),
        ensures
            expression_outcome(*old(state), *final(state), r),
            r is Ok ==> r->Ok_0 is ArrowFunction,
            forall|groups: Seq<GroupShape>| #[trigger]
                models_groups(attributes@, groups, old(state).tokens@) ==> agrees(
                    closures::arrow(
                        old(state).tokens@,
                        old(state).position as int,
                        groups,
                        old(state).scope(),
                    ),
                    old(state).tokens@,
                    r,
                    final(state).position as int,
                ),
        decreases old(state).remaining(), 1nat,
    {
        reveal(grouping::grouping);
        let start = state.current().span;
        let is_static = if matches!(state.current().kind, TokenKind::Static) {
            state.next();
            true
        } else {
            false
        };
        let at = matches!(state.current().kind, TokenKind::Fn);
        utils::skip_when(state, at, "`fn`")?;
        let by_ref = by_reference(state);
        let params = self.parameter_list(state)?;
        let return_type = return_type(state)?;
        utils::skip_double_arrow(state)?;
        let expr = self.expression(state, Precedence::Lowest)?;
        let end = state.current().span;
        let arrow = ArrowFunction {
            start,
            end,
            attributes,
            params,
            return_type,
            by_ref,
            is_static,
            expr: Box::new(expr),
        };
        assert(arrow.valid(state.tokens@));
        proof {
            assert forall|groups: Seq<GroupShape>| #[trigger]
                models_groups(arrow.attributes@, groups, state.tokens@) implies agrees(
                closures::arrow(
                    old(state).tokens@,
                    old(state).position as int,
                    groups,
                    old(state).scope(),
                ),
                state.tokens@,
                Ok(Expression::ArrowFunction(arrow)),
                state.position as int,
            ) by {
                let said = closures::arrow(
                    old(state).tokens@,
                    old(state).position as int,
                    groups,
                    old(state).scope(),
                );
                if said is Tree {
                    assert(said->Tree_0 is Arrow);
                    assert(models_arrow(arrow, *said->Tree_0->Arrow_0, state.tokens@));
                    assert(models(Expression::ArrowFunction(arrow), said->Tree_0, state.tokens@));
                }
            }
        }
        assert(arrow.attributes@ == attributes@);
        assert(state.tokens@ == old(state).tokens@);
        Ok(Expression::ArrowFunction(arrow))
    }

    /// Parses a method, the cursor being on `function`, after its
    /// modifiers. A method ends in a body, or in `;` where it is abstract or
    /// declared by an interface.
    #[verifier::spinoff_prover]
    pub(crate) fn method(
        &self,
        state: &mut State,
        attributes: Vec<AttributeGroup>,
        placed: &Vec<Placed>,
    ) -> (r: ParseResult<Method>)
        requires
            old(state).wf(),
            old(state).kind() is Function,
            attributes_valid(attributes@, old(state).tokens@),
            modifiers::placed_in(placed@, *old(state)),
            stands_before(placed@, *old(state)),
        ensures
            final(state).follows(*old(state)),
            match r {
                Ok(m) => m.valid(old(state).tokens@) && final(state).position > old(state).position,
                Err(e) => e.valid(old(state).tokens@),
            },
            forall|groups: Seq<GroupShape>| #[trigger]
                models_groups(attributes@, groups, old(state).tokens@) ==> match classes::method(
                    old(state).tokens@,
                    old(state).position - placed@.len(),
                    old(state).position as int,
                    groups,
                    old(state).scope(),
                ) {
                    Parsed::Tree(shape, end) => r is Ok && classes::models_method(
                        r->Ok_0,
                        shape,
                        old(state).tokens@,
                    ) && final(state).position == end,
                    Parsed::Fails(fault) => r is Err && reports(
                        r->Err_0,
                        fault,
                        old(state).tokens@,
                    ),
                    Parsed::Other => false,
                },
        decreases old(state).remaining(), 1nat,
    {
        reveal(classes::method);
        let modifiers = match modifiers::method_group(placed) {
            Ok(list) => list,
            Err(e) => {
                return Err(e);
            },
        };
        let start = state.current().span;
        state.next();
        let by_ref = by_reference(state);
        let name = identifiers::ident_maybe_reserved(state)?;
        let params = self.parameter_list(state)?;
        let return_type = return_type(state)?;
        let (body, end) = self.method_end(state)?;
        let method = Method {
            start,
            end,
            name,
            attributes,
            modifiers,
            params,
            return_type,
            by_ref,
            body,
        };
        assert(method.valid(state.tokens@));
        Ok(method)
    }

    /// Parses the end of a method: its body between braces, or `;`. With
    /// the body, if there is one, comes the position of the token at which
    /// the method ends.
    fn method_end(&self, state: &mut State) -> (r: ParseResult<(Option<Vec<Statement>>, Span)>)
        requires
            old(state).wf(),
        ensures
            final(state).follows(*old(state)),
            match r {
                Ok(end) => (exists|j: int|
                    old(state).position <= j < old(state).tokens@.len() && (#[trigger] old(state).tokens@[j]).span == end.1) && match end.0 {
                    Some(body) => block_valid(body@, old(state).tokens@),
                    None => true,
                },
                Err(e) => e.valid(old(state).tokens@),
            },
            match classes::method_end(
                old(state).tokens@,
                old(state).position as int,
                old(state).scope(),
            ) {
                Parsed::Tree(end, after) => r is Ok && final(state).position == after && old(state).position <= end.1 < old(state).tokens@.len() && r->Ok_0.1 == old(state).tokens@[end.1].span && match end.0 {
                    Some(list) => r->Ok_0.0 is Some && models_block(
                        r->Ok_0.0->Some_0@,
                        list,
                        old(state).tokens@,
                    ),
                    None => r->Ok_0.0 is None,
                },
                Parsed::Fails(fault) => r is Err && reports(r->Err_0, fault, old(state).tokens@),
                Parsed::Other => false,
            },
        decreases old(state).remaining(), 11nat,
    {
        reveal(classes::method_end);
        if matches!(state.current().kind, TokenKind::LeftBrace) {
            state.next();
            let body = self.body(state, &TokenKind::RightBrace)?;
            let end = state.current().span;
            utils::skip_right_brace(state)?;
            Ok((Some(body), end))
        } else {
            let end = state.current().span;
            utils::skip_semicolon(state)?;
            Ok((None, end))
        }
    }
}

} // verus!
