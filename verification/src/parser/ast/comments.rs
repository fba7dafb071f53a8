use crate::lexer::token::ByteString;
use crate::lexer::token::Span;
use crate::lexer::token::Token;
use crate::parser::ast::identifiers::spanned;
use vstd::prelude::*;

verus! {

/// The four ways in which a comment is written.
#[derive(Debug, Clone, Copy, PartialEq, Eq, Structural)]
pub enum CommentFormat {
    SingleLine,
    MultiLine,
    HashMark,
    Document,
}

/// A comment, with its delimiters as the lexer left them.
#[derive(Debug, Clone, PartialEq, Eq)]
pub struct Comment {
    pub start: Span,
    pub end: Span,
    pub format: CommentFormat,
    pub content: ByteString,
}

impl Comment {
    pub open spec fn valid(self, tokens: Seq<Token>) -> bool {
        spanned(tokens, self.start, self.end)
    }
}

} // verus!
