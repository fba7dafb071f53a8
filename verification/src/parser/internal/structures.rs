use crate::lexer::token::Token;
use crate::lexer::token::TokenKind;
use crate::parser::internal::grouping::closed;
use crate::parser::internal::grouping::grouping;
use crate::parser::internal::grouping::missing;
use crate::parser::internal::grouping::tree_of;
use crate::parser::internal::grouping::Grouping;
use crate::parser::internal::grouping::Parsed;
use crate::parser::internal::grouping::Scope;
use crate::parser::internal::grouping::Shape;
use crate::parser::internal::precedences::Precedence;
use crate::parser::internal::program::ended;
use crate::parser::internal::program::statement;
use crate::parser::internal::identifiers::fully_qualified_name;
use crate::parser::internal::identifiers::qualified_name;
use crate::parser::internal::program::top_level;
use crate::parser::internal::program::CaseShape;
use crate::parser::internal::program::CatchShape;
use crate::parser::internal::program::ElseIfShape;
use crate::parser::internal::program::ForeachShape;
use crate::parser::internal::program::StatementShape;
use crate::parser::state::comments_end;
use vstd::prelude::*;
use vstd::string::StringSliceAdditionalSpecFns;

verus! {

/// An expression between parentheses, the opening one at `pos`.
pub open spec fn parenthesized(tokens: Seq<Token>, pos: int, scope: Scope) -> Grouping
    decreases tokens.len() - pos, 10nat,
{
    if !(0 <= pos && pos + 1 < tokens.len()) || !(tokens[pos].kind is LeftParen) {
        if 0 <= pos < tokens.len() {
            Parsed::Fails(missing(pos, "`(`".spec_bytes()))
        } else {
            Parsed::Other
        }
    } else {
        let inner = grouping(tokens, pos + 1, Precedence::Lowest, scope);
        closed(tokens, inner, |k: TokenKind| k is RightParen, "`)`".spec_bytes(), tree_of(inner))
    }
}

/// The statements from `pos` on, after the statements `before`, up to the
/// token `until`, which is not taken.
pub open spec fn body(
    tokens: Seq<Token>,
    pos: int,
    until: TokenKind,
    before: Seq<StatementShape>,
    scope: Scope,
) -> Parsed<Seq<StatementShape>>
    decreases tokens.len() - pos, 17nat,
{
    if !(0 <= pos < tokens.len()) {
        Parsed::Other
    } else if tokens[pos].kind == until {
        Parsed::Tree(before, pos)
    } else {
        match statement(tokens, pos, scope) {
            Parsed::Tree(one, end) => if pos < end < tokens.len() {
                body(tokens, end, until, before.push(one), scope)
            } else {
                Parsed::Other
            },
            Parsed::Fails(fault) => Parsed::Fails(fault),
            Parsed::Other => Parsed::Other,
        }
    }
}

/// The statements between `{` at `pos` and the `}` that closes it.
pub open spec fn braced(tokens: Seq<Token>, pos: int, scope: Scope) -> Parsed<Seq<StatementShape>>
    decreases tokens.len() - pos, 11nat,
{
    if !(0 <= pos && pos + 1 < tokens.len()) || !(tokens[pos].kind is LeftBrace) {
        if 0 <= pos < tokens.len() {
            Parsed::Fails(missing(pos, "`{`".spec_bytes()))
        } else {
            Parsed::Other
        }
    } else {
        match body(tokens, pos + 1, TokenKind::RightBrace, Seq::empty(), scope) {
            Parsed::Tree(list, end) => if 0 <= end && end + 1 < tokens.len() {
                Parsed::Tree(list, end + 1)
            } else {
                Parsed::Other
            },
            Parsed::Fails(fault) => Parsed::Fails(fault),
            Parsed::Other => Parsed::Other,
        }
    }
}

/// A block at `pos`.
pub open spec fn block(tokens: Seq<Token>, pos: int, scope: Scope) -> Parsed<StatementShape>
    decreases tokens.len() - pos, 12nat,
{
    if !(0 <= pos < tokens.len()) {
        Parsed::Other
    } else {
        match braced(tokens, pos, scope) {
            Parsed::Tree(list, end) => Parsed::Tree(StatementShape::Block(list), end),
            Parsed::Fails(fault) => Parsed::Fails(fault),
            Parsed::Other => Parsed::Other,
        }
    }
}

/// What a control structure governs at `pos`: the statements of a braced
/// block, or one statement.
pub open spec fn branch(tokens: Seq<Token>, pos: int, scope: Scope) -> Parsed<Seq<StatementShape>>
    decreases tokens.len() - pos, 17nat,
{
    if !(0 <= pos < tokens.len()) {
        Parsed::Other
    } else if tokens[pos].kind is LeftBrace {
        braced(tokens, pos, scope)
    } else {
        match statement(tokens, pos, scope) {
            Parsed::Tree(one, end) => Parsed::Tree(seq![one], end),
            Parsed::Fails(fault) => Parsed::Fails(fault),
            Parsed::Other => Parsed::Other,
        }
    }
}

/// What a control structure governs at `pos`: after `:`, the statements
/// up to `until` and the `;` behind it; else as `branch`.
pub open spec fn governed(tokens: Seq<Token>, pos: int, until: TokenKind, scope: Scope) -> Parsed<
    Seq<StatementShape>,
>
    decreases tokens.len() - pos, 18nat,
{
    if !(0 <= pos < tokens.len()) {
        Parsed::Other
    } else if tokens[pos].kind is Colon {
        match body(tokens, pos + 1, until, Seq::empty(), scope) {
            Parsed::Tree(list, end) => if 0 <= end && end + 1 < tokens.len() {
                ended(tokens, end + 1, list)
            } else {
                Parsed::Other
            },
            Parsed::Fails(fault) => Parsed::Fails(fault),
            Parsed::Other => Parsed::Other,
        }
    } else {
        branch(tokens, pos, scope)
    }
}

/// What a loop governs at `pos`: nothing where `;` stands there, else as
/// `governed`.
pub open spec fn loop_body(tokens: Seq<Token>, pos: int, until: TokenKind, scope: Scope) -> Parsed<
    Seq<StatementShape>,
>
    decreases tokens.len() - pos, 19nat,
{
    if !(0 <= pos < tokens.len()) {
        Parsed::Other
    } else if tokens[pos].kind is SemiColon {
        Parsed::Tree(Seq::empty(), pos + 1)
    } else {
        governed(tokens, pos, until, scope)
    }
}

/// A `while` loop at `pos`.
pub open spec fn while_loop(tokens: Seq<Token>, pos: int, scope: Scope) -> Parsed<StatementShape>
    decreases tokens.len() - pos, 11nat,
{
    if !(0 <= pos && pos + 1 < tokens.len()) {
        Parsed::Other
    } else {
        match parenthesized(tokens, pos + 1, scope) {
            Parsed::Tree(condition, end) => if pos < end < tokens.len() {
                match loop_body(tokens, end, TokenKind::EndWhile, scope) {
                    Parsed::Tree(list, after) => Parsed::Tree(
                        StatementShape::While(condition, list),
                        after,
                    ),
                    Parsed::Fails(fault) => Parsed::Fails(fault),
                    Parsed::Other => Parsed::Other,
                }
            } else {
                Parsed::Other
            },
            Parsed::Fails(fault) => Parsed::Fails(fault),
            Parsed::Other => Parsed::Other,
        }
    }
}

/// A `do` loop at `pos`. Comments before its `while` are passed over.
pub open spec fn do_loop(tokens: Seq<Token>, pos: int, scope: Scope) -> Parsed<StatementShape>
    decreases tokens.len() - pos, 11nat,
{
    if !(0 <= pos && pos + 1 < tokens.len()) {
        Parsed::Other
    } else {
        match branch(tokens, pos + 1, scope) {
            Parsed::Tree(list, end) => {
                let at = comments_end(tokens, end);
                if !(pos < end <= at && at + 1 < tokens.len()) {
                    if pos < end <= at < tokens.len() {
                        Parsed::Fails(missing(at, "`while`".spec_bytes()))
                    } else {
                        Parsed::Other
                    }
                } else if !(tokens[at].kind is While) {
                    Parsed::Fails(missing(at, "`while`".spec_bytes()))
                } else {
                    match parenthesized(tokens, at + 1, scope) {
                        Parsed::Tree(condition, after) => ended(
                            tokens,
                            after,
                            StatementShape::DoWhile(list, condition),
                        ),
                        Parsed::Fails(fault) => Parsed::Fails(fault),
                        Parsed::Other => Parsed::Other,
                    }
                }
            },
            Parsed::Fails(fault) => Parsed::Fails(fault),
            Parsed::Other => Parsed::Other,
        }
    }
}

/// Where the cursor is before an `elseif` or `else` that follows `pos`:
/// past the comments before it, or at `pos` where none follows.
pub open spec fn before_else(tokens: Seq<Token>, pos: int) -> int {
    let at = comments_end(tokens, pos);
    if 0 <= at < tokens.len() && (tokens[at].kind is ElseIf || tokens[at].kind is Else) {
        at
    } else {
        pos
    }
}

/// The `elseif` branches and the `else` branch of an `if` from `pos` on,
/// after the branches `before`.
pub open spec fn else_branches(
    tokens: Seq<Token>,
    pos: int,
    condition: Shape,
    then: Seq<StatementShape>,
    before: Seq<ElseIfShape>,
    scope: Scope,
) -> Parsed<StatementShape>
    decreases tokens.len() - pos, 19nat,
{
    if !(0 <= pos && pos + 1 < tokens.len()) {
        if 0 <= pos < tokens.len() {
            Parsed::Tree(StatementShape::If(condition, then, before, None), pos)
        } else {
            Parsed::Other
        }
    } else if tokens[pos].kind is ElseIf {
        match parenthesized(tokens, pos + 1, scope) {
            Parsed::Tree(test, end) => if pos < end < tokens.len() {
                match branch(tokens, end, scope) {
                    Parsed::Tree(list, after) => if end < after <= before_else(tokens, after)
                        < tokens.len() {
                        else_branches(
                            tokens,
                            before_else(tokens, after),
                            condition,
                            then,
                            before.push(ElseIfShape { condition: test, body: list }),
                            scope,
                        )
                    } else {
                        Parsed::Other
                    },
                    Parsed::Fails(fault) => Parsed::Fails(fault),
                    Parsed::Other => Parsed::Other,
                }
            } else {
                Parsed::Other
            },
            Parsed::Fails(fault) => Parsed::Fails(fault),
            Parsed::Other => Parsed::Other,
        }
    } else if tokens[pos].kind is Else {
        match branch(tokens, pos + 1, scope) {
            Parsed::Tree(list, end) => Parsed::Tree(
                StatementShape::If(condition, then, before, Some(list)),
                end,
            ),
            Parsed::Fails(fault) => Parsed::Fails(fault),
            Parsed::Other => Parsed::Other,
        }
    } else {
        Parsed::Tree(StatementShape::If(condition, then, before, None), pos)
    }
}

/// The statements of one branch of an `if` in its alternative form, from
/// `pos` on, up to `elseif`, `else` or `endif`.
pub open spec fn alternative(
    tokens: Seq<Token>,
    pos: int,
    before: Seq<StatementShape>,
    scope: Scope,
) -> Parsed<Seq<StatementShape>>
    decreases tokens.len() - pos, 17nat,
{
    if !(0 <= pos < tokens.len()) {
        Parsed::Other
    } else if tokens[pos].kind is ElseIf || tokens[pos].kind is Else || tokens[pos].kind is EndIf {
        Parsed::Tree(before, pos)
    } else {
        match statement(tokens, pos, scope) {
            Parsed::Tree(one, end) => if pos < end < tokens.len() {
                alternative(tokens, end, before.push(one), scope)
            } else {
                Parsed::Other
            },
            Parsed::Fails(fault) => Parsed::Fails(fault),
            Parsed::Other => Parsed::Other,
        }
    }
}

/// `:` at `pos` and the statements of a branch in the alternative form.
pub open spec fn after_colon(tokens: Seq<Token>, pos: int, scope: Scope) -> Parsed<
    Seq<StatementShape>,
>
    decreases tokens.len() - pos, 18nat,
{
    if !(0 <= pos && pos + 1 < tokens.len()) || !(tokens[pos].kind is Colon) {
        if 0 <= pos < tokens.len() {
            Parsed::Fails(missing(pos, "`:`".spec_bytes()))
        } else {
            Parsed::Other
        }
    } else {
        alternative(tokens, pos + 1, Seq::empty(), scope)
    }
}

/// The `elseif` branches and the `else` branch of an `if` in its
/// alternative form from `pos` on, after the branches `before`, with
/// `endif` and the `;` behind it.
pub open spec fn alternative_branches(
    tokens: Seq<Token>,
    pos: int,
    condition: Shape,
    then: Seq<StatementShape>,
    before: Seq<ElseIfShape>,
    scope: Scope,
) -> Parsed<StatementShape>
    decreases tokens.len() - pos, 19nat,
{
    if !(0 <= pos && pos + 1 < tokens.len()) {
        if 0 <= pos < tokens.len() {
            Parsed::Fails(missing(pos, "`endif`".spec_bytes()))
        } else {
            Parsed::Other
        }
    } else if tokens[pos].kind is ElseIf {
        match parenthesized(tokens, pos + 1, scope) {
            Parsed::Tree(test, end) => if pos < end < tokens.len() {
                match after_colon(tokens, end, scope) {
                    Parsed::Tree(list, after) => if end < after < tokens.len() {
                        alternative_branches(
                            tokens,
                            after,
                            condition,
                            then,
                            before.push(ElseIfShape { condition: test, body: list }),
                            scope,
                        )
                    } else {
                        Parsed::Other
                    },
                    Parsed::Fails(fault) => Parsed::Fails(fault),
                    Parsed::Other => Parsed::Other,
                }
            } else {
                Parsed::Other
            },
            Parsed::Fails(fault) => Parsed::Fails(fault),
            Parsed::Other => Parsed::Other,
        }
    } else if tokens[pos].kind is Else {
        match after_colon(tokens, pos + 1, scope) {
            Parsed::Tree(list, end) => if 0 <= end && end + 1 < tokens.len()
                && tokens[end].kind is EndIf {
                ended(tokens, end + 1, StatementShape::If(condition, then, before, Some(list)))
            } else {
                Parsed::Fails(missing(end, "`endif`".spec_bytes()))
            },
            Parsed::Fails(fault) => Parsed::Fails(fault),
            Parsed::Other => Parsed::Other,
        }
    } else if tokens[pos].kind is EndIf {
        ended(tokens, pos + 1, StatementShape::If(condition, then, before, None))
    } else {
        Parsed::Fails(missing(pos, "`endif`".spec_bytes()))
    }
}

/// An `if` at `pos`, in the form with braces or single statements, or,
/// where `:` follows the condition, in the alternative form.
pub open spec fn if_statement(tokens: Seq<Token>, pos: int, scope: Scope) -> Parsed<StatementShape>
    decreases tokens.len() - pos, 11nat,
{
    if !(0 <= pos && pos + 1 < tokens.len()) {
        Parsed::Other
    } else {
        match parenthesized(tokens, pos + 1, scope) {
            Parsed::Tree(condition, end) => if !(pos < end < tokens.len()) {
                Parsed::Other
            } else if tokens[end].kind is Colon {
                match alternative(tokens, end + 1, Seq::empty(), scope) {
                    Parsed::Tree(then, after) => if end < after < tokens.len() {
                        alternative_branches(tokens, after, condition, then, Seq::empty(), scope)
                    } else {
                        Parsed::Other
                    },
                    Parsed::Fails(fault) => Parsed::Fails(fault),
                    Parsed::Other => Parsed::Other,
                }
            } else {
                match branch(tokens, end, scope) {
                    Parsed::Tree(then, after) => if end < after <= before_else(tokens, after)
                        < tokens.len() {
                        else_branches(
                            tokens,
                            before_else(tokens, after),
                            condition,
                            then,
                            Seq::empty(),
                            scope,
                        )
                    } else {
                        Parsed::Other
                    },
                    Parsed::Fails(fault) => Parsed::Fails(fault),
                    Parsed::Other => Parsed::Other,
                }
            },
            Parsed::Fails(fault) => Parsed::Fails(fault),
            Parsed::Other => Parsed::Other,
        }
    }
}

/// The expressions of one section of a `for` header from `pos` on, after
/// the expressions `before`, up to the token that ends the section: `)`
/// for the last section, `;` for the others.
pub open spec fn section(
    tokens: Seq<Token>,
    pos: int,
    last: bool,
    before: Seq<Shape>,
    scope: Scope,
) -> Parsed<Seq<Shape>>
    decreases tokens.len() - pos, 10nat,
{
    if !(0 <= pos < tokens.len()) {
        Parsed::Other
    } else if (last && tokens[pos].kind is RightParen) || (!last && tokens[pos].kind is SemiColon) {
        Parsed::Tree(before, pos)
    } else {
        match grouping(tokens, pos, Precedence::Lowest, scope) {
            Parsed::Tree(one, end) => if !(pos < end && end + 1 < tokens.len()) {
                if pos < end < tokens.len() {
                    Parsed::Tree(before.push(one), end)
                } else {
                    Parsed::Other
                }
            } else if tokens[end].kind is Comma {
                section(tokens, end + 1, last, before.push(one), scope)
            } else {
                Parsed::Tree(before.push(one), end)
            },
            Parsed::Fails(fault) => Parsed::Fails(fault),
            Parsed::Other => Parsed::Other,
        }
    }
}

/// The position `next`, which lies after `pos` and within the tokens; the
/// last position where it does not.
pub open spec fn within(tokens: Seq<Token>, pos: int, next: int) -> int {
    if pos < next < tokens.len() {
        next
    } else {
        tokens.len() - 1
    }
}

/// A section of a `for` header and the `;` that ends it.
pub open spec fn section_ended(tokens: Seq<Token>, pos: int, scope: Scope) -> Parsed<Seq<Shape>>
    decreases tokens.len() - pos, 11nat,
{
    if !(0 <= pos < tokens.len()) {
        Parsed::Other
    } else {
        match section(tokens, pos, false, Seq::empty(), scope) {
            Parsed::Tree(list, end) => if 0 <= end && end + 1 < tokens.len()
                && tokens[end].kind is SemiColon {
                Parsed::Tree(list, end + 1)
            } else {
                Parsed::Fails(missing(end, "`;`".spec_bytes()))
            },
            Parsed::Fails(fault) => Parsed::Fails(fault),
            Parsed::Other => Parsed::Other,
        }
    }
}

/// The header of a `for` whose `(` is at `pos`: three sections.
pub open spec fn for_header(tokens: Seq<Token>, pos: int, scope: Scope) -> Parsed<
    (Seq<Shape>, Seq<Shape>, Seq<Shape>),
>
    decreases tokens.len() - pos, 10nat,
{
    if !(0 <= pos && pos + 1 < tokens.len()) || !(tokens[pos].kind is LeftParen) {
        if 0 <= pos < tokens.len() {
            Parsed::Fails(missing(pos, "`(`".spec_bytes()))
        } else {
            Parsed::Other
        }
    } else {
        match section_ended(tokens, pos + 1, scope) {
            Parsed::Tree(init, first) => match section_ended(tokens, within(tokens, pos, first), scope) {
                Parsed::Tree(condition, second) => match section(
                    tokens,
                    within(tokens, pos, second),
                    true,
                    Seq::empty(),
                    scope,
                ) {
                    Parsed::Tree(step, end) => if 0 <= end && end + 1 < tokens.len()
                        && tokens[end].kind is RightParen {
                        Parsed::Tree((init, condition, step), end + 1)
                    } else {
                        Parsed::Fails(missing(end, "`)`".spec_bytes()))
                    },
                    Parsed::Fails(fault) => Parsed::Fails(fault),
                    Parsed::Other => Parsed::Other,
                },
                Parsed::Fails(fault) => Parsed::Fails(fault),
                Parsed::Other => Parsed::Other,
            },
            Parsed::Fails(fault) => Parsed::Fails(fault),
            Parsed::Other => Parsed::Other,
        }
    }
}

/// A `for` loop at `pos`.
pub open spec fn for_loop(tokens: Seq<Token>, pos: int, scope: Scope) -> Parsed<StatementShape>
    decreases tokens.len() - pos, 11nat,
{
    if !(0 <= pos && pos + 1 < tokens.len()) {
        Parsed::Other
    } else {
        match for_header(tokens, pos + 1, scope) {
            Parsed::Tree(header, end) => if pos < end < tokens.len() {
                match loop_body(tokens, end, TokenKind::EndFor, scope) {
                    Parsed::Tree(list, after) => Parsed::Tree(
                        StatementShape::For(header.0, header.1, header.2, list),
                        after,
                    ),
                    Parsed::Fails(fault) => Parsed::Fails(fault),
                    Parsed::Other => Parsed::Other,
                }
            } else {
                Parsed::Other
            },
            Parsed::Fails(fault) => Parsed::Fails(fault),
            Parsed::Other => Parsed::Other,
        }
    }
}

/// Where an expression starts that `&` at `pos` may stand before.
pub open spec fn after_reference(tokens: Seq<Token>, pos: int) -> int {
    if 0 <= pos && pos + 1 < tokens.len() && tokens[pos].kind is Ampersand {
        pos + 1
    } else {
        pos
    }
}

/// What follows `as` in the header of a `foreach`, from `pos` on: a value,
/// or a key, `=>` and a value, each value with `&` before it or not, and
/// the `)`.
pub open spec fn foreach_target(tokens: Seq<Token>, pos: int, subject: Shape, scope: Scope) -> Parsed<
    ForeachShape,
>
    decreases tokens.len() - pos, 10nat,
{
    if !(0 <= pos < tokens.len()) {
        Parsed::Other
    } else {
        match grouping(tokens, after_reference(tokens, pos), Precedence::Lowest, scope) {
            Parsed::Tree(first, arrow) => if !(0 <= pos < arrow && arrow + 1 < tokens.len()) {
                if 0 <= pos < arrow < tokens.len() {
                    Parsed::Fails(missing(arrow, "`)`".spec_bytes()))
                } else {
                    Parsed::Other
                }
            } else if tokens[arrow].kind is DoubleArrow {
                match grouping(tokens, after_reference(tokens, arrow + 1), Precedence::Lowest, scope) {
                    Parsed::Tree(value, end) => if 0 <= end && end + 1 < tokens.len()
                        && tokens[end].kind is RightParen {
                        Parsed::Tree(
                            ForeachShape {
                                subject,
                                by_ref: after_reference(tokens, arrow + 1) != arrow + 1,
                                key: Some(first),
                                value,
                            },
                            end + 1,
                        )
                    } else {
                        Parsed::Fails(missing(end, "`)`".spec_bytes()))
                    },
                    Parsed::Fails(fault) => Parsed::Fails(fault),
                    Parsed::Other => Parsed::Other,
                }
            } else if tokens[arrow].kind is RightParen {
                Parsed::Tree(
                    ForeachShape {
                        subject,
                        by_ref: after_reference(tokens, pos) != pos,
                        key: None,
                        value: first,
                    },
                    arrow + 1,
                )
            } else {
                Parsed::Fails(missing(arrow, "`)`".spec_bytes()))
            },
            Parsed::Fails(fault) => Parsed::Fails(fault),
            Parsed::Other => Parsed::Other,
        }
    }
}

/// The header of a `foreach` whose `(` is at `pos`.
pub open spec fn foreach_header(tokens: Seq<Token>, pos: int, scope: Scope) -> Parsed<ForeachShape>
    decreases tokens.len() - pos, 10nat,
{
    if !(0 <= pos && pos + 1 < tokens.len()) || !(tokens[pos].kind is LeftParen) {
        if 0 <= pos < tokens.len() {
            Parsed::Fails(missing(pos, "`(`".spec_bytes()))
        } else {
            Parsed::Other
        }
    } else {
        match grouping(tokens, pos + 1, Precedence::Lowest, scope) {
            Parsed::Tree(subject, end) => if !(pos < end < tokens.len()) {
                Parsed::Other
            } else if end + 1 < tokens.len() && tokens[end].kind is As {
                foreach_target(tokens, end + 1, subject, scope)
            } else {
                Parsed::Fails(missing(end, "`as`".spec_bytes()))
            },
            Parsed::Fails(fault) => Parsed::Fails(fault),
            Parsed::Other => Parsed::Other,
        }
    }
}

/// A `foreach` loop at `pos`.
pub open spec fn foreach_loop(tokens: Seq<Token>, pos: int, scope: Scope) -> Parsed<StatementShape>
    decreases tokens.len() - pos, 11nat,
{
    if !(0 <= pos && pos + 1 < tokens.len()) {
        Parsed::Other
    } else {
        match foreach_header(tokens, pos + 1, scope) {
            Parsed::Tree(header, end) => if pos < end < tokens.len() {
                match loop_body(tokens, end, TokenKind::EndForeach, scope) {
                    Parsed::Tree(list, after) => Parsed::Tree(
                        StatementShape::Foreach(header, list),
                        after,
                    ),
                    Parsed::Fails(fault) => Parsed::Fails(fault),
                    Parsed::Other => Parsed::Other,
                }
            } else {
                Parsed::Other
            },
            Parsed::Fails(fault) => Parsed::Fails(fault),
            Parsed::Other => Parsed::Other,
        }
    }
}

/// The statements of one arm of a `switch` from `pos` on, up to the next
/// arm or the end of the `switch`.
pub open spec fn case_body(
    tokens: Seq<Token>,
    pos: int,
    before: Seq<StatementShape>,
    scope: Scope,
) -> Parsed<Seq<StatementShape>>
    decreases tokens.len() - pos, 17nat,
{
    if !(0 <= pos < tokens.len()) {
        Parsed::Other
    } else if tokens[pos].kind is Case || tokens[pos].kind is Default || tokens[pos].kind
        is RightBrace || tokens[pos].kind is EndSwitch {
        Parsed::Tree(before, pos)
    } else {
        match statement(tokens, pos, scope) {
            Parsed::Tree(one, end) => if pos < end < tokens.len() {
                case_body(tokens, end, before.push(one), scope)
            } else {
                Parsed::Other
            },
            Parsed::Fails(fault) => Parsed::Fails(fault),
            Parsed::Other => Parsed::Other,
        }
    }
}

/// The head of one arm of a `switch` at `pos`: `case` and a condition, or
/// `default`, and the `:` or `;` after it.
pub open spec fn case_head(tokens: Seq<Token>, pos: int, scope: Scope) -> Parsed<Option<Shape>>
    decreases tokens.len() - pos, 10nat,
{
    if !(0 <= pos < tokens.len()) {
        Parsed::Other
    } else {
        let condition: Parsed<Option<Shape>> = if tokens[pos].kind is Case {
            match grouping(tokens, pos + 1, Precedence::Lowest, scope) {
                Parsed::Tree(shape, end) => Parsed::Tree(Some(shape), end),
                Parsed::Fails(fault) => Parsed::Fails(fault),
                Parsed::Other => Parsed::Other,
            }
        } else {
            Parsed::Tree(None, pos + 1)
        };
        match condition {
            Parsed::Tree(shape, end) => if 0 <= end && end + 1 < tokens.len() && (tokens[end].kind
                is SemiColon || tokens[end].kind is Colon) {
                Parsed::Tree(shape, end + 1)
            } else {
                Parsed::Fails(missing(end, "`:`".spec_bytes()))
            },
            other => other,
        }
    }
}

/// The arms of a `switch` from `pos` on, after the arms `before`, up to the
/// first token that begins no arm, which is not taken. Comments before an
/// arm are passed over.
pub open spec fn cases(
    tokens: Seq<Token>,
    pos: int,
    before: Seq<CaseShape>,
    scope: Scope,
) -> Parsed<Seq<CaseShape>>
    decreases tokens.len() - pos, 18nat,
{
    let start = comments_end(tokens, pos);
    if !(0 <= pos <= start && start + 1 < tokens.len()) {
        if 0 <= pos <= start < tokens.len() {
            Parsed::Tree(before, start)
        } else {
            Parsed::Other
        }
    } else if !(tokens[start].kind is Case) && !(tokens[start].kind is Default) {
        Parsed::Tree(before, start)
    } else {
        match case_head(tokens, start, scope) {
            Parsed::Tree(condition, at) => if start < at < tokens.len() {
                match case_body(tokens, at, Seq::empty(), scope) {
                    Parsed::Tree(list, end) => if at <= end < tokens.len() {
                        cases(tokens, end, before.push(CaseShape { condition, body: list }), scope)
                    } else {
                        Parsed::Other
                    },
                    Parsed::Fails(fault) => Parsed::Fails(fault),
                    Parsed::Other => Parsed::Other,
                }
            } else {
                Parsed::Other
            },
            Parsed::Fails(fault) => Parsed::Fails(fault),
            Parsed::Other => Parsed::Other,
        }
    }

}

/// A `switch` at `pos`, with braces or, after `:`, with `endswitch;`.
pub open spec fn switch_statement(tokens: Seq<Token>, pos: int, scope: Scope) -> Parsed<
    StatementShape,
>
    decreases tokens.len() - pos, 11nat,
{
    if !(0 <= pos && pos + 1 < tokens.len()) {
        Parsed::Other
    } else {
        match parenthesized(tokens, pos + 1, scope) {
            Parsed::Tree(condition, end) => if !(pos < end && end + 1 < tokens.len()) {
                if pos < end < tokens.len() {
                    Parsed::Fails(missing(end, "`{`".spec_bytes()))
                } else {
                    Parsed::Other
                }
            } else if !(tokens[end].kind is Colon) && !(tokens[end].kind is LeftBrace) {
                Parsed::Fails(missing(end, "`{`".spec_bytes()))
            } else {
                match cases(tokens, end + 1, Seq::empty(), scope) {
                    Parsed::Tree(list, close) => if tokens[end].kind is Colon {
                        if 0 <= close && close + 1 < tokens.len() && tokens[close].kind
                            is EndSwitch {
                            ended(tokens, close + 1, StatementShape::Switch(condition, list))
                        } else {
                            Parsed::Fails(missing(close, "`endswitch`".spec_bytes()))
                        }
                    } else if 0 <= close && close + 1 < tokens.len() && tokens[close].kind
                        is RightBrace {
                        Parsed::Tree(StatementShape::Switch(condition, list), close + 1)
                    } else {
                        Parsed::Fails(missing(close, "`}`".spec_bytes()))
                    },
                    Parsed::Fails(fault) => Parsed::Fails(fault),
                    Parsed::Other => Parsed::Other,
                }
            },
            Parsed::Fails(fault) => Parsed::Fails(fault),
            Parsed::Other => Parsed::Other,
        }
    }
}

/// The types of a `catch` from `pos` on, after the types `before`: names
/// separated by `|`.
pub open spec fn catch_types(tokens: Seq<Token>, pos: int, before: Seq<int>) -> Parsed<Seq<int>>
    decreases tokens.len() - pos, 10nat,
{
    if !(0 <= pos && pos + 2 < tokens.len()) || fully_qualified_name(tokens[pos].kind) is None {
        if 0 <= pos < tokens.len() && fully_qualified_name(tokens[pos].kind) is None {
            Parsed::Fails(missing(pos, "an identifier".spec_bytes()))
        } else if 0 <= pos && pos + 1 < tokens.len() && !(tokens[pos + 1].kind is Pipe) {
            Parsed::Tree(before.push(pos), pos + 1)
        } else {
            Parsed::Other
        }
    } else if tokens[pos + 1].kind is Pipe {
        catch_types(tokens, pos + 2, before.push(pos))
    } else {
        Parsed::Tree(before.push(pos), pos + 1)
    }
}

/// The head of a `catch` whose `(` is at `pos`: the types, the variable
/// where one is written, and the `)`.
pub open spec fn catch_head(tokens: Seq<Token>, pos: int) -> Parsed<(Seq<int>, Option<int>)> {
    if !(0 <= pos && pos + 1 < tokens.len()) || !(tokens[pos].kind is LeftParen) {
        if 0 <= pos < tokens.len() {
            Parsed::Fails(missing(pos, "`(`".spec_bytes()))
        } else {
            Parsed::Other
        }
    } else {
        match catch_types(tokens, pos + 1, Seq::empty()) {
            Parsed::Tree(types, end) => if !(0 <= end && end + 1 < tokens.len()) {
                if 0 <= end < tokens.len() {
                    Parsed::Fails(missing(end, "a variable".spec_bytes()))
                } else {
                    Parsed::Other
                }
            } else if tokens[end].kind is RightParen {
                Parsed::Tree((types, None), end + 1)
            } else if !(tokens[end].kind is Variable) {
                Parsed::Fails(missing(end, "a variable".spec_bytes()))
            } else if end + 2 < tokens.len() && tokens[end + 1].kind is RightParen {
                Parsed::Tree((types, Some(end)), end + 2)
            } else {
                Parsed::Fails(missing(end + 1, "`)`".spec_bytes()))
            },
            Parsed::Fails(fault) => Parsed::Fails(fault),
            Parsed::Other => Parsed::Other,
        }
    }
}

/// A `catch` clause at `pos`.
pub open spec fn catch_clause(tokens: Seq<Token>, pos: int, scope: Scope) -> Parsed<CatchShape>
    decreases tokens.len() - pos, 12nat,
{
    if !(0 <= pos && pos + 1 < tokens.len()) {
        Parsed::Other
    } else {
        match catch_head(tokens, pos + 1) {
            Parsed::Tree(head, end) => if pos < end < tokens.len() {
                match braced(tokens, end, scope) {
                    Parsed::Tree(list, after) => Parsed::Tree(
                        CatchShape { types: head.0, var: head.1, body: list },
                        after,
                    ),
                    Parsed::Fails(fault) => Parsed::Fails(fault),
                    Parsed::Other => Parsed::Other,
                }
            } else {
                Parsed::Other
            },
            Parsed::Fails(fault) => Parsed::Fails(fault),
            Parsed::Other => Parsed::Other,
        }
    }
}

/// Where the cursor is before a `catch` or `finally` that follows `pos`:
/// past the comments before it, or at `pos` where none follows.
pub open spec fn before_catch(tokens: Seq<Token>, pos: int) -> int {
    let at = comments_end(tokens, pos);
    if 0 <= at < tokens.len() && (tokens[at].kind is Catch || tokens[at].kind is Finally) {
        at
    } else {
        pos
    }
}

/// The `catch` clauses and the `finally` block of a `try` from `pos` on,
/// after the clauses `before`.
pub open spec fn catches(
    tokens: Seq<Token>,
    pos: int,
    body: Seq<StatementShape>,
    before: Seq<CatchShape>,
    scope: Scope,
) -> Parsed<StatementShape>
    decreases tokens.len() - pos, 13nat,
{
    let start = before_catch(tokens, pos);
    if !(0 <= pos <= start && start + 1 < tokens.len()) {
        if 0 <= pos <= start < tokens.len() {
            Parsed::Tree(StatementShape::Try(body, before, None), start)
        } else {
            Parsed::Other
        }
    } else if tokens[start].kind is Catch {
        match catch_clause(tokens, start, scope) {
            Parsed::Tree(one, end) => if start < end < tokens.len() {
                catches(tokens, end, body, before.push(one), scope)
            } else {
                Parsed::Other
            },
            Parsed::Fails(fault) => Parsed::Fails(fault),
            Parsed::Other => Parsed::Other,
        }
    } else if tokens[start].kind is Finally {
        match braced(tokens, start + 1, scope) {
            Parsed::Tree(list, end) => Parsed::Tree(
                StatementShape::Try(body, before, Some(list)),
                end,
            ),
            Parsed::Fails(fault) => Parsed::Fails(fault),
            Parsed::Other => Parsed::Other,
        }
    } else {
        Parsed::Tree(StatementShape::Try(body, before, None), start)
    }

}

/// A `try` at `pos`.
pub open spec fn try_block(tokens: Seq<Token>, pos: int, scope: Scope) -> Parsed<StatementShape>
    decreases tokens.len() - pos, 11nat,
{
    if !(0 <= pos && pos + 1 < tokens.len()) {
        Parsed::Other
    } else {
        match braced(tokens, pos + 1, scope) {
            Parsed::Tree(list, end) => if pos < end < tokens.len() {
                catches(tokens, end, list, Seq::empty(), scope)
            } else {
                Parsed::Other
            },
            Parsed::Fails(fault) => Parsed::Fails(fault),
            Parsed::Other => Parsed::Other,
        }
    }
}

/// Whether the token is a literal.
pub open spec fn is_literal(kind: TokenKind) -> bool {
    kind is LiteralInteger || kind is LiteralFloat || kind is LiteralString
}

/// The directives of a `declare` from `pos` on, after the directives
/// `before`: `key = literal`, separated by commas.
pub open spec fn directives(tokens: Seq<Token>, pos: int, before: Seq<(int, int)>) -> Parsed<
    Seq<(int, int)>,
>
    decreases tokens.len() - pos, 10nat,
{
    if !(0 <= pos && pos + 4 < tokens.len()) || !(tokens[pos].kind is Identifier) || !(tokens[pos
        + 1].kind is Equals) || !is_literal(tokens[pos + 2].kind) {
        if !(0 <= pos < tokens.len()) {
            Parsed::Other
        } else if !(tokens[pos].kind is Identifier) {
            Parsed::Fails(missing(pos, "an identifier".spec_bytes()))
        } else if pos + 1 < tokens.len() && !(tokens[pos + 1].kind is Equals) {
            Parsed::Fails(missing(pos + 1, "`=`".spec_bytes()))
        } else if pos + 2 < tokens.len() && !is_literal(tokens[pos + 2].kind) {
            Parsed::Fails(missing(pos + 2, "a literal".spec_bytes()))
        } else if pos + 3 < tokens.len() && !(tokens[pos + 3].kind is Comma) {
            Parsed::Tree(before.push((pos, pos + 2)), pos + 3)
        } else {
            Parsed::Other
        }
    } else if tokens[pos + 3].kind is Comma {
        directives(tokens, pos + 4, before.push((pos, pos + 2)))
    } else {
        Parsed::Tree(before.push((pos, pos + 2)), pos + 3)
    }
}

/// A `declare` at `pos`: the directives between parentheses, then a
/// braced body, a body between `:` and `enddeclare;`, or `;` alone.
pub open spec fn declare(tokens: Seq<Token>, pos: int, scope: Scope) -> Parsed<StatementShape>
    decreases tokens.len() - pos, 11nat,
{
    if !(0 <= pos && pos + 1 < tokens.len()) {
        Parsed::Other
    } else if !(tokens[pos + 1].kind is LeftParen) {
        Parsed::Fails(missing(pos + 1, "`(`".spec_bytes()))
    } else {
        match directives(tokens, pos + 2, Seq::empty()) {
            Parsed::Tree(items, close) => if !(pos < close && close + 2 < tokens.len()) {
                if pos < close < tokens.len() && !(tokens[close].kind is RightParen) {
                    Parsed::Fails(missing(close, "`)`".spec_bytes()))
                } else if pos < close && close + 1 < tokens.len() {
                    ended(tokens, close + 1, StatementShape::Declare(items, Seq::empty()))
                } else {
                    Parsed::Other
                }
            } else if !(tokens[close].kind is RightParen) {
                Parsed::Fails(missing(close, "`)`".spec_bytes()))
            } else {
                let list = if tokens[close + 1].kind is LeftBrace {
                    braced(tokens, close + 1, scope)
                } else if tokens[close + 1].kind is Colon {
                    governed(tokens, close + 1, TokenKind::EndDeclare, scope)
                } else {
                    ended(tokens, close + 1, Seq::empty())
                };
                match list {
                    Parsed::Tree(body, end) => Parsed::Tree(
                        StatementShape::Declare(items, body),
                        end,
                    ),
                    Parsed::Fails(fault) => Parsed::Fails(fault),
                    Parsed::Other => Parsed::Other,
                }
            },
            Parsed::Fails(fault) => Parsed::Fails(fault),
            Parsed::Other => Parsed::Other,
        }
    }
}

/// The statements of a namespace from `pos` on, after the statements
/// `before`. Tags are passed over and each comment is a statement. A
/// namespace with braces ends before `}`, one without before the next
/// `namespace`; both end at the end of the input.
pub open spec fn members(
    tokens: Seq<Token>,
    pos: int,
    in_braces: bool,
    before: Seq<StatementShape>,
    scope: Scope,
) -> Parsed<Seq<StatementShape>>
    decreases tokens.len() - pos, 21nat,
{
    if !(0 <= pos < tokens.len()) {
        Parsed::Other
    } else {
        let kind = tokens[pos].kind;
        if kind is Eof || (in_braces && kind is RightBrace) || (!in_braces && kind is Namespace) {
            Parsed::Tree(before, pos)
        } else if kind.is_comment() && pos + 1 < tokens.len() {
            members(tokens, pos + 1, in_braces, before.push(StatementShape::Comment(pos)), scope)
        } else if (kind is OpenTag || kind is CloseTag) && pos + 1 < tokens.len() {
            members(tokens, pos + 1, in_braces, before, scope)
        } else {
            match top_level(tokens, pos, scope) {
                Parsed::Tree(one, end) => if pos < end < tokens.len() {
                    members(tokens, end, in_braces, before.push(one), scope)
                } else {
                    Parsed::Other
                },
                Parsed::Fails(fault) => Parsed::Fails(fault),
                Parsed::Other => Parsed::Other,
            }
        }
    }
}

/// The braces of a namespace, the opening one at `pos`, and what stands
/// between them.
pub open spec fn braced_namespace(
    tokens: Seq<Token>,
    pos: int,
    name: Option<int>,
    scope: Scope,
) -> Parsed<StatementShape>
    decreases tokens.len() - pos, 11nat,
{
    if !(0 <= pos && pos + 1 < tokens.len()) {
        Parsed::Other
    } else {
        match members(tokens, pos + 1, true, Seq::empty(), scope) {
            Parsed::Tree(list, end) => if 0 <= end && end + 1 < tokens.len() && tokens[end].kind
                is RightBrace {
                Parsed::Tree(StatementShape::BracedNamespace(name, list), end + 1)
            } else {
                Parsed::Fails(missing(end, "`}`".spec_bytes()))
            },
            Parsed::Fails(fault) => Parsed::Fails(fault),
            Parsed::Other => Parsed::Other,
        }
    }
}

/// A namespace at `pos`.
///
/// With braces the namespace holds what stands between them, and may have
/// no name. Without, it has a name and holds the statements up to the next
/// `namespace` or the end of the input.
pub open spec fn namespace(tokens: Seq<Token>, pos: int, scope: Scope) -> Parsed<StatementShape>
    decreases tokens.len() - pos, 12nat,
{
    if !(0 <= pos && pos + 1 < tokens.len()) {
        Parsed::Other
    } else if tokens[pos + 1].kind is LeftBrace {
        braced_namespace(tokens, pos + 1, None, scope)
    } else if qualified_name(tokens[pos + 1].kind) is None {
        Parsed::Fails(missing(pos + 1, "an identifier".spec_bytes()))
    } else if pos + 2 < tokens.len() && tokens[pos + 2].kind is LeftBrace {
        braced_namespace(tokens, pos + 2, Some(pos + 1), scope)
    } else {
        match ended(tokens, pos + 2, ()) {
            Parsed::Tree(_, start) => if pos < start < tokens.len() {
                match members(tokens, start, false, Seq::empty(), scope) {
                    Parsed::Tree(list, end) => Parsed::Tree(
                        StatementShape::Namespace(pos + 1, list),
                        end,
                    ),
                    Parsed::Fails(fault) => Parsed::Fails(fault),
                    Parsed::Other => Parsed::Other,
                }
            } else {
                Parsed::Other
            },
            Parsed::Fails(fault) => Parsed::Fails(fault),
            Parsed::Other => Parsed::Other,
        }
    }
}

} // verus!
