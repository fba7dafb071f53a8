use crate::lexer::token::TokenKind;
use crate::parser::ast::variables::Variable;
use crate::parser::ast::Constant;
use crate::parser::ast::Statement;
use crate::parser::ast::StaticVar;
use crate::parser::ast::Use;
use crate::parser::ast::UseKind;
use crate::parser::error::ParseResult;
use crate::parser::internal::grouping::grouping;
use crate::parser::internal::grouping::models;
use crate::parser::internal::grouping::reports;
use crate::parser::internal::grouping::tree_of;
use crate::parser::internal::grouping::Parsed;
use crate::parser::internal::grouping::Shape;
use crate::parser::internal::identifiers;
use crate::parser::internal::outcome::statement_outcome;
use crate::parser::internal::precedences::Precedence;
use crate::parser::internal::program;
use crate::parser::internal::program::models_optional;
use crate::parser::internal::program::models_use;
use crate::parser::internal::program::models_uses;
use crate::parser::internal::program::statement_agrees;
use crate::parser::internal::program::variable_at;
use crate::parser::internal::program::StaticShape;
use crate::parser::internal::program::UseShape;
use crate::parser::internal::utils;
use crate::parser::state::State;
use crate::parser::Parser;
use vstd::prelude::*;

verus! {

/// Parses one imported name with its alias, where `as` follows.
fn use_item(state: &mut State) -> (r: ParseResult<Use>)
    requires
        old(state).wf(),
    ensures
        final(state).follows(*old(state)),
        match r {
            Ok(u) => u.valid(old(state).tokens@) && final(state).position > old(state).position,
            Err(e) => e.valid(old(state).tokens@),
        },
        match program::use_item(old(state).tokens@, old(state).position as int) {
            Parsed::Tree(shape, end) => r is Ok && models_use(r->Ok_0, shape, old(state).tokens@)
                && final(state).position == end,
            Parsed::Fails(fault) => r is Err && reports(r->Err_0, fault, old(state).tokens@),
            Parsed::Other => false,
        },
{
    let name = identifiers::full_name(state)?;
    let alias = if matches!(state.current().kind, TokenKind::As) {
        state.next();
        Some(identifiers::ident(state)?)
    } else {
        None
    };
    Ok(Use { name, alias })
}

/// Parses a `use` statement, the cursor being on `use`.
///
/// After `function` or `const`, where written, a name followed by `{` is
/// the prefix of a group, whose braces hold at least one name and may end
/// in a comma. Else the names are separated by commas and end in `;`; a
/// comma before the `;` is refused.
pub fn use_statement(state: &mut State) -> (r: ParseResult<Statement>)
    requires
        old(state).wf(),
        old(state).kind() is Use,
    ensures
        statement_outcome(*old(state), *final(state), r),
        statement_agrees(
            program::use_statement(old(state).tokens@, old(state).position as int),
            old(state).tokens@,
            r,
            final(state).position as int,
        ),
{
    let ghost goal = program::use_statement(state.tokens@, state.position as int);
    let ghost at = state.position as int;
    state.next();
    let kind = match &state.current().kind {
        TokenKind::Function => {
            state.next();
            UseKind::Function
        },
        TokenKind::Const => {
            state.next();
            UseKind::Const
        },
        _ => UseKind::Normal,
    };
    let mut uses: Vec<Use> = Vec::new();
    let ghost mut shapes: Seq<UseShape> = Seq::empty();
    if matches!(state.peek().kind, TokenKind::LeftBrace) {
        let ghost start = state.position as int;
        let prefix = identifiers::full_name(state)?;
        utils::skip_left_brace(state)?;
        let ghost list = program::group(state.tokens@, state.position as int, Seq::empty());
        loop
            invariant_except_break
                program::group(state.tokens@, state.position as int, shapes)
                    == list,
            invariant
                state.follows(*old(state)),
                state.position > old(state).position,
                at == old(state).position,
                start == program::use_start(state.tokens@, at),
                state.tokens@[start + 1].kind is LeftBrace,
                !(state.tokens@[start].kind is Eof),
                identifiers::fully_qualified_name(state.tokens@[start].kind) is Some,
                list == program::group(state.tokens@, start + 2, Seq::empty()),
                prefix.valid(state.tokens@),
                forall|i: int| 0 <= i < uses@.len() ==> (#[trigger] uses@[i]).valid(state.tokens@),
                models_uses(uses@, shapes, state.tokens@),
            ensures
                uses@.len() > 0,
                list == Parsed::<Seq<UseShape>>::Tree(
                    shapes,
                    state.position as int,
                ) && shapes.len() > 0,
            decreases state.remaining(),
        {
            let ghost said = program::use_item(state.tokens@, state.position as int);
            let item = match use_item(state) {
                Ok(item) => item,
                Err(e) => {
                    return Err(e);
                },
            };
            uses.push(item);
            proof {
                shapes = shapes.push(tree_of(said));
            }
            if matches!(state.current().kind, TokenKind::Comma) {
                state.next();
                if matches!(state.current().kind, TokenKind::RightBrace) {
                    break ;
                }
            } else {
                break ;
            }
        }
        utils::skip_right_brace(state)?;
        utils::skip_semicolon(state)?;
        Ok(Statement::GroupUse { prefix, kind, uses })
    } else {
        let ghost list = program::uses(state.tokens@, state.position as int, Seq::empty());
        loop
            invariant_except_break
                program::uses(state.tokens@, state.position as int, shapes)
                    == list,
            invariant
                state.follows(*old(state)),
                state.position > old(state).position,
                at == old(state).position,
                !(state.tokens@[program::use_start(state.tokens@, at) + 1].kind is LeftBrace
                    && !(state.tokens@[program::use_start(state.tokens@, at)].kind is Eof)),
                list == program::uses(
                    state.tokens@,
                    program::use_start(state.tokens@, at),
                    Seq::empty(),
                ),
                forall|i: int| 0 <= i < uses@.len() ==> (#[trigger] uses@[i]).valid(state.tokens@),
                models_uses(uses@, shapes, state.tokens@),
            ensures
                uses@.len() > 0,
                list == Parsed::<Seq<UseShape>>::Tree(
                    shapes,
                    state.position as int,
                ) && shapes.len() > 0,
            decreases state.remaining(),
        {
            let ghost said = program::use_item(state.tokens@, state.position as int);
            let item = match use_item(state) {
                Ok(item) => item,
                Err(e) => {
                    return Err(e);
                },
            };
            uses.push(item);
            proof {
                shapes = shapes.push(tree_of(said));
            }
            if matches!(state.current().kind, TokenKind::Comma) {
                state.next();
            } else {
                break ;
            }
        }
        utils::skip_semicolon(state)?;
        Ok(Statement::Use { uses, kind })
    }
}

/// Parses `global $a, $b;`, the cursor being on `global`.
pub fn global_statement(state: &mut State) -> (r: ParseResult<Statement>)
    requires
        old(state).wf(),
        old(state).kind() is Global,
    ensures
        statement_outcome(*old(state), *final(state), r),
        r is Ok ==> r->Ok_0 is Global,
        statement_agrees(
            program::global(old(state).tokens@, old(state).position as int),
            old(state).tokens@,
            r,
            final(state).position as int,
        ),
{
    state.next();
    let mut vars: Vec<Variable> = Vec::new();
    let ghost list = program::variables(state.tokens@, state.position as int, Seq::empty());
    let ghost mut shapes: Seq<int> = Seq::empty();
    loop
        invariant_except_break
            program::variables(state.tokens@, state.position as int, shapes)
                == list,
        invariant
            state.follows(*old(state)),
            state.position > old(state).position,
            list == program::variables(old(state).tokens@, old(state).position + 1, Seq::empty()),
            forall|i: int| 0 <= i < vars@.len() ==> (#[trigger] vars@[i]).valid(state.tokens@),
            vars@.len() == shapes.len() && forall|i: int|
                0 <= i < shapes.len() ==> variable_at(vars@[i], state.tokens@, #[trigger] shapes[i]),
        ensures
            vars@.len() > 0,
            list == Parsed::<Seq<int>>::Tree(shapes, state.position as int)
                && shapes.len() > 0,
        decreases state.remaining(),
    {
        let ghost at = state.position as int;
        let var = identifiers::var(state)?;
        vars.push(var);
        proof {
            shapes = shapes.push(at);
        }
        if matches!(state.current().kind, TokenKind::Comma) {
            state.next();
        } else {
            break ;
        }
    }
    utils::skip_semicolon(state)?;
    Ok(Statement::Global { vars })
}

impl Parser {
    /// Parses `static $a = 1, $b;`, the cursor being on `static`.
    pub(crate) fn static_statement(&self, state: &mut State) -> (r: ParseResult<Statement>)
        requires
            old(state).wf(),
            old(state).kind() is Static,
        ensures
            statement_outcome(*old(state), *final(state), r),
            r is Ok ==> r->Ok_0 is Static,
            statement_agrees(
                program::static_statement(
                    old(state).tokens@,
                    old(state).position as int,
                    old(state).scope(),
                ),
                old(state).tokens@,
                r,
                final(state).position as int,
            ),
        decreases old(state).remaining(), 1nat,
    {
        state.next();
        let mut vars: Vec<StaticVar> = Vec::new();
        let ghost list = program::static_variables(
            state.tokens@,
            state.position as int,
            Seq::empty(),
            state.scope(),
        );
        let ghost mut shapes: Seq<StaticShape> = Seq::empty();
        loop
            invariant_except_break
                program::static_variables(
                    state.tokens@,
                    state.position as int,
                    shapes,
                    state.scope(),
                ) == list,
            invariant
                state.follows(*old(state)),
                state.position > old(state).position,
                list == program::static_variables(
                    old(state).tokens@,
                    old(state).position + 1,
                    Seq::empty(),
                    old(state).scope(),
                ),
                forall|i: int| 0 <= i < vars@.len() ==> (#[trigger] vars@[i]).valid(state.tokens@),
                vars@.len() == shapes.len() && forall|i: int|
                    0 <= i < shapes.len() ==> variable_at(
                        vars@[i].var,
                        state.tokens@,
                        (#[trigger] shapes[i]).var,
                    ) && models_optional(vars@[i].default, shapes[i].default, state.tokens@),
            ensures
                vars@.len() > 0,
                list == Parsed::<Seq<StaticShape>>::Tree(
                    shapes,
                    state.position as int,
                ) && shapes.len() > 0,
            decreases state.remaining(),
        {
            let ghost said = program::static_variable(
                state.tokens@,
                state.position as int,
                state.scope(),
            );
            let var = identifiers::var(state)?;
            let default = if matches!(state.current().kind, TokenKind::Equals) {
                state.next();
                Some(self.expression(state, Precedence::Lowest)?)
            } else {
                None
            };
            vars.push(StaticVar { var, default });
            proof {
                shapes = shapes.push(tree_of(said));
            }
            if matches!(state.current().kind, TokenKind::Comma) {
                state.next();
            } else {
                break ;
            }
        }
        utils::skip_semicolon(state)?;
        Ok(Statement::Static { vars })
    }

    /// Parses `const name = value, ...;`, the cursor being on `const`.
    pub(crate) fn const_statement(&self, state: &mut State) -> (r: ParseResult<Statement>)
        requires
            old(state).wf(),
            old(state).kind() is Const,
        ensures
            statement_outcome(*old(state), *final(state), r),
            r is Ok ==> r->Ok_0 is Constant,
            statement_agrees(
                program::constant(old(state).tokens@, old(state).position as int, old(state).scope()),
                old(state).tokens@,
                r,
                final(state).position as int,
            ),
        decreases old(state).remaining(), 1nat,
    {
        state.next();
        let mut constants: Vec<Constant> = Vec::new();
        let ghost list = program::constants(
            state.tokens@,
            state.position as int,
            Seq::empty(),
            state.scope(),
        );
        let ghost mut shapes: Seq<(int, Shape)> = Seq::empty();
        loop
            invariant_except_break
                program::constants(
                    state.tokens@,
                    state.position as int,
                    shapes,
                    state.scope(),
                ) == list,
            invariant
                state.follows(*old(state)),
                state.position > old(state).position,
                list == program::constants(
                    old(state).tokens@,
                    old(state).position + 1,
                    Seq::empty(),
                    old(state).scope(),
                ),
                forall|i: int|
                    0 <= i < constants@.len() ==> (#[trigger] constants@[i]).valid(state.tokens@),
                constants@.len() == shapes.len() && forall|i: int|
                    0 <= i < shapes.len() ==> crate::parser::internal::grouping::named_at(
                        constants@[i].name,
                        state.tokens@,
                        (#[trigger] shapes[i]).0,
                    ) && models(constants@[i].value, shapes[i].1, state.tokens@),
            ensures
                constants@.len() > 0,
                list == Parsed::<Seq<(int, Shape)>>::Tree(
                    shapes,
                    state.position as int,
                ) && shapes.len() > 0,
            decreases state.remaining(),
        {
            let ghost said = program::one_constant(
                state.tokens@,
                state.position as int,
                state.scope(),
            );
            let name = identifiers::ident(state)?;
            utils::skip_equals(state)?;
            let value = self.expression(state, Precedence::Lowest)?;
            constants.push(Constant { name, value });
            proof {
                shapes = shapes.push(tree_of(said));
            }
            if matches!(state.current().kind, TokenKind::Comma) {
                state.next();
            } else {
                break ;
            }
        }
        utils::skip_semicolon(state)?;
        Ok(Statement::Constant { constants })
    }
}

} // verus!
