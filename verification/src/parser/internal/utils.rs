use crate::lexer::token::bytes;
use crate::lexer::token::ByteString;
use crate::lexer::token::TokenKind;
use crate::parser::error::texts;
use crate::parser::error::ParseError;
use crate::parser::error::ParseResult;
use crate::parser::state::State;
use vstd::prelude::*;
use vstd::string::StringSliceAdditionalSpecFns;

verus! {

/// Whether `name` is spelled as `text`.
pub fn spells(name: &ByteString, text: &str) -> (b: bool)
    ensures
        b == (name@ == text.spec_bytes()),
{
    let other = bytes(text);
    if name.len() != other.len() {
        return false;
    }
    let mut i: usize = 0;
    while i < name.len()
        invariant
            i <= name@.len(),
            name@.len() == other@.len(),
            other@ == text.spec_bytes(),
            forall|k: int| 0 <= k < i ==> name@[k] == other@[k],
        decreases name@.len() - i,
    {
        if name[i] != other[i] {
            return false;
        }
        i = i + 1;
    }
    assert(name@ =~= other@);
    true
}

/// A list of one message.
pub fn one(a: &str) -> (list: Vec<ByteString>)
    ensures
        texts(list@) == seq![a.spec_bytes()],
{
    let mut list: Vec<ByteString> = Vec::new();
    list.push(bytes(a));
    assert(texts(list@) =~= seq![a.spec_bytes()]);
    list
}

/// A list of two messages.
pub fn two(a: &str, b: &str) -> (list: Vec<ByteString>)
    ensures
        texts(list@) == seq![a.spec_bytes(), b.spec_bytes()],
{
    let mut list: Vec<ByteString> = Vec::new();
    list.push(bytes(a));
    list.push(bytes(b));
    assert(texts(list@) =~= seq![a.spec_bytes(), b.spec_bytes()]);
    list
}

/// A list of three messages.
pub fn three(a: &str, b: &str, c: &str) -> (list: Vec<ByteString>)
    ensures
        texts(list@) == seq![a.spec_bytes(), b.spec_bytes(), c.spec_bytes()],
{
    let mut list: Vec<ByteString> = Vec::new();
    list.push(bytes(a));
    list.push(bytes(b));
    list.push(bytes(c));
    assert(texts(list@) =~= seq![a.spec_bytes(), b.spec_bytes(), c.spec_bytes()]);
    list
}

/// A list of four messages.
pub fn four(a: &str, b: &str, c: &str, d: &str) -> (list: Vec<ByteString>)
    ensures
        texts(list@) == seq![a.spec_bytes(), b.spec_bytes(), c.spec_bytes(), d.spec_bytes()],
{
    let mut list: Vec<ByteString> = Vec::new();
    list.push(bytes(a));
    list.push(bytes(b));
    list.push(bytes(c));
    list.push(bytes(d));
    assert(texts(list@) =~= seq![a.spec_bytes(), b.spec_bytes(), c.spec_bytes(), d.spec_bytes()]);
    list
}

/// The error for a current token that is none of `expected`. At the end of
/// the input the error names no token.
pub fn expected(state: &State, messages: Vec<ByteString>) -> (e: ParseError)
    requires
        state.wf(),
    ensures
        e.is_expected(texts(messages@), state.tokens@[state.position as int]),
        e.valid(state.tokens@),
{
    let token = state.current();
    let got = if matches!(token.kind, TokenKind::Eof) {
        None
    } else {
        Some(token.kind.text())
    };
    ParseError::ExpectedToken(messages, got, token.span)
}

/// The error for a current token that fits no alternative.
pub fn unexpected(state: &State) -> (e: ParseError)
    requires
        state.wf(),
    ensures
        e.is_unexpected(state.tokens@[state.position as int]),
        e.valid(state.tokens@),
{
    let token = state.current();
    ParseError::UnexpectedToken(token.kind.text(), token.span)
}

/// What skipping one required token does: where the token is there
/// (`at`), the cursor moves past it; else the cursor stays and the error
/// asks for `message`.
pub open spec fn skipped(
    before: State,
    after: State,
    r: ParseResult<()>,
    at: bool,
    message: Seq<u8>,
) -> bool {
    &&& after.follows(before)
    &&& after.comments == before.comments
    &&& if at {
        r is Ok && after.position == before.position + 1
    } else {
        &&& r is Err
        &&& r->Err_0.is_expected(seq![message], before.tokens@[before.position as int])
        &&& r->Err_0.valid(before.tokens@)
        &&& after.position == before.position
    }
}

/// Moves past the current token where `at` holds, and fails with `message`
/// where it does not.
pub fn skip_when(state: &mut State, at: bool, message: &str) -> (r: ParseResult<()>)
    requires
        old(state).wf(),
        at ==> !(old(state).kind() is Eof),
    ensures
        skipped(*old(state), *final(state), r, at, message.spec_bytes()),
{
    if at {
        state.next();
        Ok(())
    } else {
        Err(expected(state, one(message)))
    }
}

/// Requires `;`. A closing tag stands for one and is left in place.
pub fn skip_semicolon(state: &mut State) -> (r: ParseResult<()>)
    requires
        old(state).wf(),
    ensures
        final(state).follows(*old(state)),
        final(state).comments == old(state).comments,
        old(state).kind() is CloseTag ==> r is Ok && final(state).position == old(state).position,
        !(old(state).kind() is CloseTag) ==> skipped(
            *old(state),
            *final(state),
            r,
            old(state).kind() is SemiColon,
            "`;`".spec_bytes(),
        ),
        r is Err ==> r->Err_0.valid(old(state).tokens@),
{
    if matches!(state.current().kind, TokenKind::CloseTag) {
        Ok(())
    } else {
        let at = matches!(state.current().kind, TokenKind::SemiColon);
        skip_when(state, at, "`;`")
    }
}

/// Requires `{`.
pub fn skip_left_brace(state: &mut State) -> (r: ParseResult<()>)
    requires
        old(state).wf(),
    ensures
        skipped(*old(state), *final(state), r, old(state).kind() is LeftBrace, "`{`".spec_bytes()),
{
    let at = matches!(state.current().kind, TokenKind::LeftBrace);
    skip_when(state, at, "`{`")
}

/// Requires `}`.
pub fn skip_right_brace(state: &mut State) -> (r: ParseResult<()>)
    requires
        old(state).wf(),
    ensures
        skipped(*old(state), *final(state), r, old(state).kind() is RightBrace, "`}`".spec_bytes()),
{
    let at = matches!(state.current().kind, TokenKind::RightBrace);
    skip_when(state, at, "`}`")
}

/// Requires `(`.
pub fn skip_left_parenthesis(state: &mut State) -> (r: ParseResult<()>)
    requires
        old(state).wf(),
    ensures
        skipped(*old(state), *final(state), r, old(state).kind() is LeftParen, "`(`".spec_bytes()),
{
    let at = matches!(state.current().kind, TokenKind::LeftParen);
    skip_when(state, at, "`(`")
}

/// Requires `)`.
pub fn skip_right_parenthesis(state: &mut State) -> (r: ParseResult<()>)
    requires
        old(state).wf(),
    ensures
        skipped(*old(state), *final(state), r, old(state).kind() is RightParen, "`)`".spec_bytes()),
{
    let at = matches!(state.current().kind, TokenKind::RightParen);
    skip_when(state, at, "`)`")
}

/// Requires `[`.
pub fn skip_left_bracket(state: &mut State) -> (r: ParseResult<()>)
    requires
        old(state).wf(),
    ensures
        skipped(*old(state), *final(state), r, old(state).kind() is LeftBracket, "`[`".spec_bytes()),
{
    let at = matches!(state.current().kind, TokenKind::LeftBracket);
    skip_when(state, at, "`[`")
}

/// Requires `]`.
pub fn skip_right_bracket(state: &mut State) -> (r: ParseResult<()>)
    requires
        old(state).wf(),
    ensures
        skipped(*old(state), *final(state), r, old(state).kind() is RightBracket, "`]`".spec_bytes()),
{
    let at = matches!(state.current().kind, TokenKind::RightBracket);
    skip_when(state, at, "`]`")
}

/// Requires `=>`.
pub fn skip_double_arrow(state: &mut State) -> (r: ParseResult<()>)
    requires
        old(state).wf(),
    ensures
        skipped(*old(state), *final(state), r, old(state).kind() is DoubleArrow, "`=>`".spec_bytes()),
{
    let at = matches!(state.current().kind, TokenKind::DoubleArrow);
    skip_when(state, at, "`=>`")
}

/// Requires `::`.
pub fn skip_double_colon(state: &mut State) -> (r: ParseResult<()>)
    requires
        old(state).wf(),
    ensures
        skipped(*old(state), *final(state), r, old(state).kind() is DoubleColon, "`::`".spec_bytes()),
{
    let at = matches!(state.current().kind, TokenKind::DoubleColon);
    skip_when(state, at, "`::`")
}

/// Requires `:`.
pub fn colon(state: &mut State) -> (r: ParseResult<()>)
    requires
        old(state).wf(),
    ensures
        skipped(*old(state), *final(state), r, old(state).kind() is Colon, "`:`".spec_bytes()),
{
    let at = matches!(state.current().kind, TokenKind::Colon);
    skip_when(state, at, "`:`")
}

/// Requires `=`.
pub fn skip_equals(state: &mut State) -> (r: ParseResult<()>)
    requires
        old(state).wf(),
    ensures
        skipped(*old(state), *final(state), r, old(state).kind() is Equals, "`=`".spec_bytes()),
{
    let at = matches!(state.current().kind, TokenKind::Equals);
    skip_when(state, at, "`=`")
}

} // verus!
