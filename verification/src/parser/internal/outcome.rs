use crate::lexer::token::Token;
use crate::parser::ast::Expression;
use crate::parser::ast::Statement;
use crate::parser::ast::attributes::AttributeGroup;
use crate::parser::error::ParseResult;
use crate::parser::state::State;
use vstd::prelude::*;

verus! {

/// Whether every statement of the list is valid.
pub open spec fn block_valid(body: Seq<Statement>, tokens: Seq<Token>) -> bool {
    forall|i: int| 0 <= i < body.len() ==> (#[trigger] body[i]).valid(tokens)
}

/// Whether every expression of the list is valid.
pub open spec fn expressions_valid(list: Seq<Expression>, tokens: Seq<Token>) -> bool {
    forall|i: int| 0 <= i < list.len() ==> (#[trigger] list[i]).valid(tokens)
}

/// Whether every attribute group of the list is valid.
pub open spec fn attributes_valid(list: Seq<AttributeGroup>, tokens: Seq<Token>) -> bool {
    forall|i: int| 0 <= i < list.len() ==> (#[trigger] list[i]).valid(tokens)
}

/// What holds after an expression was asked for: the state follows the one
/// before; a result is a valid tree for which at least one token was taken;
/// an error points into the input.
pub open spec fn expression_outcome(
    before: State,
    after: State,
    r: ParseResult<Expression>,
) -> bool {
    &&& after.follows(before)
    &&& match r {
        Ok(e) => e.valid(before.tokens@) && after.position > before.position,
        Err(e) => e.valid(before.tokens@),
    }
}

/// As `expression_outcome`, for a statement.
pub open spec fn statement_outcome(before: State, after: State, r: ParseResult<Statement>) -> bool {
    &&& after.follows(before)
    &&& match r {
        Ok(s) => s.valid(before.tokens@) && after.position > before.position,
        Err(e) => e.valid(before.tokens@),
    }
}

/// As `statement_outcome`, for a list of statements, which may be empty and
/// take no token.
pub open spec fn block_outcome(
    before: State,
    after: State,
    r: ParseResult<Vec<Statement>>,
) -> bool {
    &&& after.follows(before)
    &&& match r {
        Ok(body) => block_valid(body@, before.tokens@),
        Err(e) => e.valid(before.tokens@),
    }
}

} // verus!
