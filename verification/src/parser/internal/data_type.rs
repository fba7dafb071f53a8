use crate::lexer::token::ByteString;
use crate::lexer::token::TokenKind;
use crate::parser::ast::Type;
use crate::parser::error::ParseResult;
use crate::parser::internal::declarations;
use crate::parser::internal::declarations::optional_type_agrees;
use crate::parser::internal::declarations::spelled_at;
use crate::parser::internal::declarations::type_agrees;
use crate::parser::internal::grouping::reports;
use crate::parser::internal::grouping::Parsed;
use crate::parser::internal::identifiers;
use crate::parser::state::State;
use vstd::prelude::*;

verus! {

fn at_intersection(state: &State) -> (b: bool)
    requires
        state.wf(),
    ensures
        b == declarations::joins(state.tokens@, state.position as int),
{
    matches!(state.current().kind, TokenKind::Ampersand) && !matches!(
        state.peek().kind,
        TokenKind::Variable(_) | TokenKind::Ellipsis | TokenKind::Ampersand
    )
}

/// Parses the names of a union or an intersection after its first name.
fn more_types(state: &mut State, union: bool, first: ByteString, Ghost(at): Ghost<int>) -> (r:
    ParseResult<Vec<ByteString>>)
    requires
        old(state).wf(),
        spelled_at(first@, old(state).tokens@, at),
        (union && old(state).kind() is Pipe) || (!union && declarations::joins(
            old(state).tokens@,
            old(state).position as int,
        )),
    ensures
        final(state).follows(*old(state)),
        final(state).comments == old(state).comments,
        r is Err ==> r->Err_0.valid(old(state).tokens@),
        match declarations::more_types(
            old(state).tokens@,
            old(state).position as int,
            union,
            seq![at],
        ) {
            Parsed::Tree(names, end) => r is Ok && final(state).position == end && names.len() >= 2
                && r->Ok_0@.len() == names.len() && forall|i: int|
                0 <= i < names.len() ==> spelled_at(
                    r->Ok_0@[i]@,
                    old(state).tokens@,
                    #[trigger] names[i],
                ),
            Parsed::Fails(fault) => r is Err && reports(r->Err_0, fault, old(state).tokens@),
            Parsed::Other => false,
        },
{
    let ghost goal = declarations::more_types(state.tokens@, state.position as int, union, seq![at]);
    let mut types: Vec<ByteString> = Vec::new();
    types.push(first);
    let ghost mut names: Seq<int> = seq![at];
    loop
        invariant_except_break
            declarations::more_types(
                state.tokens@,
                state.position as int,
                union,
                names,
            ) == goal,
        invariant
            state.follows(*old(state)),
            state.comments == old(state).comments,
            goal == declarations::more_types(
                old(state).tokens@,
                old(state).position as int,
                union,
                seq![at],
            ),
            types@.len() == names.len(),
            types@.len() >= 1,
            types@.len() == 1 ==> state.position == old(state).position,
            (union && old(state).kind() is Pipe) || (!union && declarations::joins(
                old(state).tokens@,
                old(state).position as int,
            )),
            forall|i: int|
                0 <= i < names.len() ==> spelled_at(types@[i]@, state.tokens@, #[trigger] names[i]),
        ensures
            types@.len() >= 2,
            goal == Parsed::<Seq<int>>::Tree(names, state.position as int),
        decreases state.remaining(),
    {
        let more = if union {
            matches!(state.current().kind, TokenKind::Pipe)
        } else {
            at_intersection(state)
        };
        if !more {
            break ;
        }
        state.next();
        let ghost here = state.position as int;
        let id = identifiers::type_with_static(state)?;
        types.push(id.name);
        proof {
            names = names.push(here);
        }
    }
    Ok(types)
}

/// Parses a type: a name, `?name`, a union `a|b` or an intersection `a&b`.
pub(crate) fn type_string(state: &mut State) -> (r: ParseResult<Type>)
    requires
        old(state).wf(),
    ensures
        final(state).follows(*old(state)),
        final(state).comments == old(state).comments,
        match r {
            Ok(t) => final(state).position > old(state).position,
            Err(e) => e.valid(old(state).tokens@),
        },
        type_agrees(
            declarations::type_string(old(state).tokens@, old(state).position as int),
            old(state).tokens@,
            r,
            final(state).position as int,
        ),
{
    if matches!(state.current().kind, TokenKind::Question) {
        state.next();
        let id = identifiers::type_with_static(state)?;
        return Ok(Type::Nullable(id.name));
    }
    let ghost at = state.position as int;
    let id = identifiers::type_with_static(state)?;
    if matches!(state.current().kind, TokenKind::Pipe) {
        let types = more_types(state, true, id.name, Ghost(at))?;
        return Ok(Type::Union(types));
    }
    if at_intersection(state) {
        let types = more_types(state, false, id.name, Ghost(at))?;
        return Ok(Type::Intersection(types));
    }
    Ok(Type::Plain(id.name))
}

/// Parses a type where one is written: none where the cursor is on a
/// variable, on `...` or on `&`.
pub(crate) fn optional_type(state: &mut State) -> (r: ParseResult<Option<Type>>)
    requires
        old(state).wf(),
    ensures
        final(state).follows(*old(state)),
        final(state).comments == old(state).comments,
        r is Err ==> r->Err_0.valid(old(state).tokens@),
        optional_type_agrees(
            declarations::optional_type(old(state).tokens@, old(state).position as int),
            old(state).tokens@,
            r,
            final(state).position as int,
        ),
{
    if matches!(
        state.current().kind,
        TokenKind::Variable(_) | TokenKind::Ellipsis | TokenKind::Ampersand
    ) {
        Ok(None)
    } else {
        Ok(Some(type_string(state)?))
    }
}

} // verus!
