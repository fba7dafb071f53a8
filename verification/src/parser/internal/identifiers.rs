use crate::lexer::token::ByteString;
use crate::lexer::token::TokenKind;
use crate::parser::ast::identifiers::Identifier;
use crate::parser::ast::variables::Variable;
use crate::parser::error::ParseResult;
use crate::parser::internal::utils;
use crate::parser::state::State;
use vstd::prelude::*;
use vstd::string::StringSliceAdditionalSpecFns;

verus! {

/// The keywords that are accepted as names where only a name can stand:
/// after `::`, `->` and `?->`, and for members of a class.
pub open spec fn is_reserved_ident_spec(kind: TokenKind) -> bool {
    kind is Static || kind is Abstract || kind is Final || kind is For || kind is Private
        || kind is Protected || kind is Public || kind is Require || kind is RequireOnce
        || kind is New || kind is Clone || kind is If || kind is Else || kind is ElseIf
        || kind is Default || kind is Enum || kind is Match || kind is Catch || kind is Finally
        || kind is Namespace
}

/// The name that a bare identifier token gives.
pub open spec fn bare_name(kind: TokenKind) -> Option<Seq<u8>> {
    match kind {
        TokenKind::Identifier(n) => Some(n@),
        _ => None,
    }
}

/// The name that a bare or qualified identifier token gives.
pub open spec fn qualified_name(kind: TokenKind) -> Option<Seq<u8>> {
    match kind {
        TokenKind::Identifier(n) => Some(n@),
        TokenKind::QualifiedIdentifier(n) => Some(n@),
        _ => None,
    }
}

/// The name that a bare, qualified or fully qualified identifier token
/// gives.
pub open spec fn fully_qualified_name(kind: TokenKind) -> Option<Seq<u8>> {
    match kind {
        TokenKind::Identifier(n) => Some(n@),
        TokenKind::QualifiedIdentifier(n) => Some(n@),
        TokenKind::FullyQualifiedIdentifier(n) => Some(n@),
        _ => None,
    }
}

/// As `bare_name`, and a reserved keyword gives its own text.
pub open spec fn reserved_name(kind: TokenKind) -> Option<Seq<u8>> {
    if is_reserved_ident_spec(kind) {
        Some(kind.text_spec())
    } else {
        bare_name(kind)
    }
}

/// As `fully_qualified_name`, and `array` and `callable` give their own
/// text.
pub open spec fn type_keyword_name(kind: TokenKind) -> Option<Seq<u8>> {
    if kind is Array || kind is Callable {
        Some(kind.text_spec())
    } else {
        fully_qualified_name(kind)
    }
}

/// As `type_keyword_name`, and `static` gives its own text.
pub open spec fn static_type_name(kind: TokenKind) -> Option<Seq<u8>> {
    if kind is Static {
        Some(kind.text_spec())
    } else {
        type_keyword_name(kind)
    }
}

/// The name that a variable token gives.
pub open spec fn variable_name(kind: TokenKind) -> Option<Seq<u8>> {
    match kind {
        TokenKind::Variable(n) => Some(n@),
        _ => None,
    }
}

/// What recognizing a name does. Where the current token gives a name, the
/// result is that name from the token's position to the next token's, and
/// the cursor moves by one; else the cursor stays and the error asks for
/// `message`.
pub open spec fn recognized(
    before: State,
    after: State,
    r: ParseResult<Identifier>,
    name: Option<Seq<u8>>,
    message: Seq<u8>,
) -> bool {
    &&& after.follows(before)
    &&& after.comments == before.comments
    &&& match name {
        Some(n) => {
            &&& r is Ok
            &&& r->Ok_0.start == before.span()
            &&& r->Ok_0.name@ == n
            &&& r->Ok_0.end == after.span()
            &&& r->Ok_0.valid(before.tokens@)
            &&& after.position == before.position + 1
        },
        None => {
            &&& r is Err
            &&& r->Err_0.is_expected(seq![message], before.tokens@[before.position as int])
            &&& r->Err_0.valid(before.tokens@)
            &&& after.position == before.position
        },
    }
}

/// As `recognized`, for a variable.
pub open spec fn recognized_variable(
    before: State,
    after: State,
    r: ParseResult<Variable>,
    name: Option<Seq<u8>>,
) -> bool {
    &&& after.follows(before)
    &&& after.comments == before.comments
    &&& match name {
        Some(n) => {
            &&& r is Ok
            &&& r->Ok_0.start == before.span()
            &&& r->Ok_0.name@ == n
            &&& r->Ok_0.end == after.span()
            &&& r->Ok_0.valid(before.tokens@)
            &&& after.position == before.position + 1
        },
        None => {
            &&& r is Err
            &&& r->Err_0.is_expected(
                seq!["a variable".spec_bytes()],
                before.tokens@[before.position as int],
            )
            &&& r->Err_0.valid(before.tokens@)
            &&& after.position == before.position
        },
    }
}

/// Whether `kind` is one of the reserved keywords that may stand as a name.
pub fn is_reserved_ident(kind: &TokenKind) -> (b: bool)
    ensures
        b == is_reserved_ident_spec(*kind),
{
    matches!(
        kind,
        TokenKind::Static
            | TokenKind::Abstract
            | TokenKind::Final
            | TokenKind::For
            | TokenKind::Private
            | TokenKind::Protected
            | TokenKind::Public
            | TokenKind::Require
            | TokenKind::RequireOnce
            | TokenKind::New
            | TokenKind::Clone
            | TokenKind::If
            | TokenKind::Else
            | TokenKind::ElseIf
            | TokenKind::Default
            | TokenKind::Enum
            | TokenKind::Match
            | TokenKind::Catch
            | TokenKind::Finally
            | TokenKind::Namespace
    )
}

/// Makes the current token, which is not the final one, into a name and
/// moves past it.
fn take(state: &mut State, name: ByteString) -> (id: Identifier)
    requires
        old(state).wf(),
        !(old(state).kind() is Eof),
    ensures
        recognized(*old(state), *final(state), Ok(id), Some(name@), Seq::empty()),
{
    let start = state.current().span;
    state.next();
    let end = state.current().span;
    Identifier { start, name, end }
}

/// Expects a bare identifier such as `Foo`.
pub fn ident(state: &mut State) -> (r: ParseResult<Identifier>)
    requires
        old(state).wf(),
    ensures
        recognized(
            *old(state),
            *final(state),
            r,
            bare_name(old(state).kind()),
            "an identifier".spec_bytes(),
        ),
{
    let found = match &state.current().kind {
        TokenKind::Identifier(n) => Some(n.clone()),
        _ => None,
    };
    match found {
        Some(name) => Ok(take(state, name)),
        None => Err(utils::expected(state, utils::one("an identifier"))),
    }
}

/// Expects a bare or qualified identifier such as `Foo` or `Foo\Bar`.
pub fn name(state: &mut State) -> (r: ParseResult<Identifier>)
    requires
        old(state).wf(),
    ensures
        recognized(
            *old(state),
            *final(state),
            r,
            qualified_name(old(state).kind()),
            "an identifier".spec_bytes(),
        ),
{
    let found = match &state.current().kind {
        TokenKind::Identifier(n) => Some(n.clone()),
        TokenKind::QualifiedIdentifier(n) => Some(n.clone()),
        _ => None,
    };
    match found {
        Some(name) => Ok(take(state, name)),
        None => Err(utils::expected(state, utils::one("an identifier"))),
    }
}

/// Expects a bare, qualified or fully qualified identifier such as `Foo`,
/// `Foo\Bar` or `\Foo\Bar`.
pub fn full_name(state: &mut State) -> (r: ParseResult<Identifier>)
    requires
        old(state).wf(),
    ensures
        recognized(
            *old(state),
            *final(state),
            r,
            fully_qualified_name(old(state).kind()),
            "an identifier".spec_bytes(),
        ),
{
    let found = match &state.current().kind {
        TokenKind::Identifier(n) => Some(n.clone()),
        TokenKind::QualifiedIdentifier(n) => Some(n.clone()),
        TokenKind::FullyQualifiedIdentifier(n) => Some(n.clone()),
        _ => None,
    };
    match found {
        Some(name) => Ok(take(state, name)),
        None => Err(utils::expected(state, utils::one("an identifier"))),
    }
}

/// Expects a variable such as `$foo`.
pub fn var(state: &mut State) -> (r: ParseResult<Variable>)
    requires
        old(state).wf(),
    ensures
        recognized_variable(*old(state), *final(state), r, variable_name(old(state).kind())),
{
    let found = match &state.current().kind {
        TokenKind::Variable(n) => Some(n.clone()),
        _ => None,
    };
    match found {
        Some(name) => {
            let start = state.current().span;
            state.next();
            let end = state.current().span;
            Ok(Variable { start, name, end })
        },
        None => Err(utils::expected(state, utils::one("a variable"))),
    }
}

/// As `full_name`, and accepts `array` and `callable` as they are written.
pub fn full_name_maybe_type_keyword(state: &mut State) -> (r: ParseResult<Identifier>)
    requires
        old(state).wf(),
    ensures
        recognized(
            *old(state),
            *final(state),
            r,
            type_keyword_name(old(state).kind()),
            "an identifier".spec_bytes(),
        ),
{
    if matches!(state.current().kind, TokenKind::Array | TokenKind::Callable) {
        let name = state.current().kind.text();
        Ok(take(state, name))
    } else {
        full_name(state)
    }
}

/// As `full_name_maybe_type_keyword`, and accepts `static` as it is written.
pub fn type_with_static(state: &mut State) -> (r: ParseResult<Identifier>)
    requires
        old(state).wf(),
    ensures
        recognized(
            *old(state),
            *final(state),
            r,
            static_type_name(old(state).kind()),
            "an identifier".spec_bytes(),
        ),
{
    if matches!(state.current().kind, TokenKind::Static) {
        let name = state.current().kind.text();
        Ok(take(state, name))
    } else {
        full_name_maybe_type_keyword(state)
    }
}

/// As `ident`, and accepts a reserved keyword as it is written.
pub fn ident_maybe_reserved(state: &mut State) -> (r: ParseResult<Identifier>)
    requires
        old(state).wf(),
    ensures
        recognized(
            *old(state),
            *final(state),
            r,
            reserved_name(old(state).kind()),
            "an identifier".spec_bytes(),
        ),
{
    if is_reserved_ident(&state.current().kind) {
        let name = state.current().kind.text();
        Ok(take(state, name))
    } else {
        ident(state)
    }
}

} // verus!
