use crate::lexer::token::ByteString;
use crate::lexer::token::Span;
use crate::lexer::token::Token;
use vstd::prelude::*;

verus! {

/// Whether `start` and `end` are the positions of two tokens of `tokens`, the
/// first of them not later in the sequence than the second.
pub open spec fn spanned(tokens: Seq<Token>, start: Span, end: Span) -> bool {
    exists|i: int, j: int|
        #![trigger tokens[i], tokens[j]]
        0 <= i <= j < tokens.len() && tokens[i].span == start && tokens[j].span == end
}

/// Whether the tokens are in source order: no token starts before an
/// earlier one.
pub open spec fn in_source_order(tokens: Seq<Token>) -> bool {
    forall|i: int, j: int|
        #![trigger tokens[i], tokens[j]]
        0 <= i <= j < tokens.len() ==> tokens[i].span.position <= tokens[j].span.position
}

/// In tokens that are in source order, a node's start is not after its end,
/// and both lie between the first token and the last.
pub proof fn lemma_spanned_within_input(tokens: Seq<Token>, start: Span, end: Span)
    requires
        in_source_order(tokens),
        spanned(tokens, start, end),
    ensures
        tokens.len() > 0,
        tokens.first().span.position <= start.position,
        start.position <= end.position,
        end.position <= tokens.last().span.position,
{
    let (i, j) = choose|i: int, j: int|
        #![trigger tokens[i], tokens[j]]
        0 <= i <= j < tokens.len() && tokens[i].span == start && tokens[j].span == end;
    assert(tokens[0].span.position <= tokens[i].span.position);
    assert(tokens[i].span.position <= tokens[j].span.position);
    assert(tokens[j].span.position <= tokens[tokens.len() - 1].span.position);
}

/// A name: bare, qualified or fully qualified, as its raw bytes.
#[derive(Debug, Clone, PartialEq, Eq)]
pub struct Identifier {
    pub start: Span,
    pub name: ByteString,
    pub end: Span,
}

impl Identifier {
    pub open spec fn valid(self, tokens: Seq<Token>) -> bool {
        spanned(tokens, self.start, self.end)
    }
}

/// Whether every identifier of the list is valid.
pub open spec fn identifiers_valid(list: Seq<Identifier>, tokens: Seq<Token>) -> bool {
    forall|i: int| 0 <= i < list.len() ==> (#[trigger] list[i]).valid(tokens)
}

} // verus!
