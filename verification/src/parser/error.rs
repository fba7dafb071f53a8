use crate::lexer::token::ByteString;
use crate::lexer::token::Span;
use crate::lexer::token::Token;
use vstd::prelude::*;

verus! {

/// Whether `span` is the position of one of `tokens`.
pub open spec fn located(tokens: Seq<Token>, span: Span) -> bool {
    exists|i: int| 0 <= i < tokens.len() && (#[trigger] tokens[i]).span == span
}

/// The byte sequences that a list of byte strings holds.
pub open spec fn texts(list: Seq<ByteString>) -> Seq<Seq<u8>> {
    Seq::new(list.len(), |i: int| list[i]@)
}

/// Why a token sequence is not a program. Each variant but the first carries
/// the position of the offending token.
#[derive(Debug, Clone, PartialEq, Eq)]
pub enum ParseError {
    /// The input ended in the middle of a construct.
    UnexpectedEndOfFile,
    /// The token, given by its text, fits no alternative.
    UnexpectedToken(ByteString, Span),
    /// One of the listed things was required; the second field is the text
    /// of the token found instead, absent at the end of the input.
    ExpectedToken(Vec<ByteString>, Option<ByteString>, Span),
    /// Attributes were followed by something that takes none.
    ExpectedItemDefinitionAfterAttributes(Span),
    /// `self`, `static` or `parent` outside the scope that defines it.
    CannotFindTypeInCurrentScope(ByteString, Span),
    /// A `match` with a second `default` arm.
    MatchExpressionWithMultipleDefaultArms(Span),
    /// The same modifier twice.
    MultipleModifiers(ByteString, Span),
    /// Two modifiers that exclude one another.
    ConflictingModifiers(ByteString, ByteString, Span),
    /// A modifier that the declared item does not take.
    UnexpectedModifier(ByteString, Span),
    /// A property that is both `static` and `readonly`; the fields name the
    /// property.
    StaticPropertyUsingReadonlyModifier(ByteString, Span),
    /// A `readonly` property with a default value.
    ReadonlyPropertyHasDefaultValue(ByteString, Span),
    /// A `readonly` property without a type.
    MissingTypeForReadonlyProperty(ByteString, Span),
}

impl ParseError {
    /// The position that the error reports, where it has one.
    pub open spec fn span_spec(self) -> Option<Span> {
        match self {
            ParseError::UnexpectedEndOfFile => None,
            ParseError::UnexpectedToken(_, s) => Some(s),
            ParseError::ExpectedToken(_, _, s) => Some(s),
            ParseError::ExpectedItemDefinitionAfterAttributes(s) => Some(s),
            ParseError::CannotFindTypeInCurrentScope(_, s) => Some(s),
            ParseError::MatchExpressionWithMultipleDefaultArms(s) => Some(s),
            ParseError::MultipleModifiers(_, s) => Some(s),
            ParseError::ConflictingModifiers(_, _, s) => Some(s),
            ParseError::UnexpectedModifier(_, s) => Some(s),
            ParseError::StaticPropertyUsingReadonlyModifier(_, s) => Some(s),
            ParseError::ReadonlyPropertyHasDefaultValue(_, s) => Some(s),
            ParseError::MissingTypeForReadonlyProperty(_, s) => Some(s),
        }
    }

    /// Whether the reported position, if there is one, is that of an input
    /// token.
    pub open spec fn valid(self, tokens: Seq<Token>) -> bool {
        match self.span_spec() {
            Some(s) => located(tokens, s),
            None => true,
        }
    }

    /// Whether the error says that one of `expected` was required where
    /// `token` stands.
    pub open spec fn is_expected(self, expected: Seq<Seq<u8>>, token: Token) -> bool {
        match self {
            ParseError::ExpectedToken(list, got, span) => {
                &&& texts(list@) == expected
                &&& span == token.span
                &&& match got {
                    Some(text) => !(token.kind is Eof) && text@ == token.kind.text_spec(),
                    None => token.kind is Eof,
                }
            },
            _ => false,
        }
    }

    /// Whether the error says that `token` fits no alternative.
    pub open spec fn is_unexpected(self, token: Token) -> bool {
        match self {
            ParseError::UnexpectedToken(text, span) => text@ == token.kind.text_spec() && span
                == token.span,
            _ => false,
        }
    }

    /// The position that the error reports, where it has one.
    pub fn span(&self) -> (r: Option<Span>)
        ensures
            r == self.span_spec(),
    {
        match self {
            ParseError::UnexpectedEndOfFile => None,
            ParseError::UnexpectedToken(_, s) => Some(*s),
            ParseError::ExpectedToken(_, _, s) => Some(*s),
            ParseError::ExpectedItemDefinitionAfterAttributes(s) => Some(*s),
            ParseError::CannotFindTypeInCurrentScope(_, s) => Some(*s),
            ParseError::MatchExpressionWithMultipleDefaultArms(s) => Some(*s),
            ParseError::MultipleModifiers(_, s) => Some(*s),
            ParseError::ConflictingModifiers(_, _, s) => Some(*s),
            ParseError::UnexpectedModifier(_, s) => Some(*s),
            ParseError::StaticPropertyUsingReadonlyModifier(_, s) => Some(*s),
            ParseError::ReadonlyPropertyHasDefaultValue(_, s) => Some(*s),
            ParseError::MissingTypeForReadonlyProperty(_, s) => Some(*s),
        }
    }
}

pub type ParseResult<T> = Result<T, ParseError>;

} // verus!
