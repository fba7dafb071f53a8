use crate::lexer::token::TokenKind;
use crate::parser::ast::ArrayItem;
use crate::parser::ast::Expression;
use crate::parser::error::ParseError;
use crate::parser::error::ParseResult;
use crate::parser::internal::grouping;
use crate::parser::internal::grouping::agrees;
use crate::parser::internal::grouping::models_item;
use crate::parser::internal::grouping::models_items;
use crate::parser::internal::grouping::tree_of;
use crate::parser::internal::grouping::ItemShape;
use crate::parser::internal::grouping::Parsed;
use crate::parser::internal::outcome::expression_outcome;
use crate::parser::internal::precedences::Precedence;
use crate::parser::internal::utils;
use crate::parser::state::State;
use crate::parser::Parser;
use vstd::prelude::*;
use vstd::string::StringSliceAdditionalSpecFns;

verus! {

impl Parser {
    /// Parses one item of an array literal: `...` and `&` where written,
    /// the value, and after `=>` the value that the first expression is the
    /// key of.
    ///
    /// `&` before a key is refused, with the position of that `&`.
    fn array_item(&self, state: &mut State) -> (r: ParseResult<ArrayItem>)
        requires
            old(state).wf(),
        ensures
            final(state).follows(*old(state)),
            match r {
                Ok(item) => {
                    &&& item.valid(old(state).tokens@)
                    &&& final(state).position > old(state).position
                    &&& item.unpack == old(state).kind() is Ellipsis
                },
                Err(e) => e.valid(old(state).tokens@),
            },
            match grouping::item(old(state).tokens@, old(state).position as int, old(state).scope()) {
                Parsed::Tree(shape, end) => r is Ok && models_item(
                    r->Ok_0,
                    shape,
                    old(state).tokens@,
                ) && final(state).position == end,
                Parsed::Fails(fault) => r is Err && grouping::reports(
                    r->Err_0,
                    fault,
                    old(state).tokens@,
                ),
                Parsed::Other => false,
            },
        decreases old(state).remaining(), 7nat,
    {
        reveal(grouping::item);
        reveal(grouping::grouping);
        let unpack = if matches!(state.current().kind, TokenKind::Ellipsis) {
            state.next();
            true
        } else {
            false
        };
        let amper_span = state.current().span;
        let mut by_ref = if matches!(state.current().kind, TokenKind::Ampersand) {
            state.next();
            true
        } else {
            false
        };
        let first = self.expression(state, Precedence::Lowest)?;
        if matches!(state.current().kind, TokenKind::DoubleArrow) {
            state.next();
            if by_ref {
                return Err(ParseError::UnexpectedToken(TokenKind::Ampersand.text(), amper_span));
            }
            by_ref = if matches!(state.current().kind, TokenKind::Ampersand) {
                state.next();
                true
            } else {
                false
            };
            let value = self.expression(state, Precedence::Lowest)?;
            Ok(ArrayItem { key: Some(first), value, unpack, by_ref })
        } else {
            Ok(ArrayItem { key: None, value: first, unpack, by_ref })
        }
    }

    /// Parses the items of an array literal up to the closing token, which
    /// is left under the cursor. A comma may follow the last item.
    fn array_items(&self, state: &mut State, bracket: bool) -> (r: ParseResult<Vec<ArrayItem>>)
        requires
            old(state).wf(),
        ensures
            final(state).follows(*old(state)),
            match r {
                Ok(items) => forall|i: int|
                    0 <= i < items@.len() ==> (#[trigger] items@[i]).valid(old(state).tokens@),
                Err(e) => e.valid(old(state).tokens@),
            },
            match grouping::items(
                old(state).tokens@,
                old(state).position as int,
                bracket,
                Seq::empty(),
                old(state).scope(),
            ) {
                Parsed::Tree(shapes, end) => r is Ok && models_items(
                    r->Ok_0@,
                    shapes,
                    old(state).tokens@,
                ) && final(state).position == end,
                Parsed::Fails(fault) => r is Err && grouping::reports(
                    r->Err_0,
                    fault,
                    old(state).tokens@,
                ),
                Parsed::Other => false,
            },
        decreases old(state).remaining(), 8nat,
    {
        reveal(grouping::items);
        reveal(grouping::item);
        let ghost goal = grouping::items(
            state.tokens@,
            state.position as int,
            bracket,
            Seq::empty(),
            state.scope(),
        );
        let mut items: Vec<ArrayItem> = Vec::new();
        let ghost mut shapes: Seq<ItemShape> = Seq::empty();
        loop
            invariant_except_break
                grouping::items(
                    state.tokens@,
                    state.position as int,
                    bracket,
                    shapes,
                    state.scope(),
                ) == goal,
            invariant
                state.follows(*old(state)),
                goal == grouping::items(
                    state.tokens@,
                    old(state).position as int,
                    bracket,
                    Seq::empty(),
                    old(state).scope(),
                ),
                forall|i: int| 0 <= i < items@.len() ==> (#[trigger] items@[i]).valid(state.tokens@),
                models_items(items@, shapes, state.tokens@),
            ensures
                goal == Parsed::<Seq<ItemShape>>::Tree(
                    shapes,
                    state.position as int,
                ),
            decreases state.remaining(),
        {
            reveal(grouping::items);
            reveal(grouping::item);
            state.skip_comments();
            let closed = if bracket {
                matches!(state.current().kind, TokenKind::RightBracket)
            } else {
                matches!(state.current().kind, TokenKind::RightParen)
            };
            if closed {
                break ;
            }
            let ghost said = grouping::item(state.tokens@, state.position as int, state.scope());
            let item = self.array_item(state)?;
            items.push(item);
            proof {
                shapes = shapes.push(tree_of(said));
            }
            if matches!(state.current().kind, TokenKind::Comma) {
                state.next();
            } else {
                break ;
            }
        }
        Ok(items)
    }

    /// Parses `[ items ]`, the cursor being on `[`.
    pub(crate) fn array_expression(&self, state: &mut State) -> (r: ParseResult<Expression>)
        requires
            old(state).wf(),
            old(state).kind() is LeftBracket,
        ensures
            expression_outcome(*old(state), *final(state), r),
            r is Ok ==> r->Ok_0 is Array,
            agrees(
                grouping::short_array(
                    old(state).tokens@,
                    old(state).position as int,
                    old(state).scope(),
                ),
                old(state).tokens@,
                r,
                final(state).position as int,
            ),
        decreases old(state).remaining(), 1nat,
    {
        reveal(grouping::short_array);
        reveal(grouping::items);
        utils::skip_left_bracket(state)?;
        let items = self.array_items(state, true)?;
        utils::skip_right_bracket(state)?;
        Ok(Expression::Array { items })
    }

    /// Parses `array( items )`, the cursor being on `array`.
    pub(crate) fn legacy_array_expression(&self, state: &mut State) -> (r: ParseResult<Expression>)
        requires
            old(state).wf(),
            old(state).kind() is Array,
        ensures
            expression_outcome(*old(state), *final(state), r),
            r is Ok ==> r->Ok_0 is Array,
            agrees(
                grouping::long_array(
                    old(state).tokens@,
                    old(state).position as int,
                    old(state).scope(),
                ),
                old(state).tokens@,
                r,
                final(state).position as int,
            ),
        decreases old(state).remaining(), 1nat,
    {
        reveal(grouping::long_array);
        reveal(grouping::items);
        state.next();
        utils::skip_left_parenthesis(state)?;
        let items = self.array_items(state, false)?;
        utils::skip_right_parenthesis(state)?;
        Ok(Expression::Array { items })
    }

    /// Parses `list( items )`, the cursor being on `list`. Between two
    /// commas an item may be left out.
    pub(crate) fn list_expression(&self, state: &mut State) -> (r: ParseResult<Expression>)
        requires
            old(state).wf(),
            old(state).kind() is List,
        ensures
            expression_outcome(*old(state), *final(state), r),
            r is Ok ==> r->Ok_0 is List,
            (old(state).peek_kind() is LeftParen ==> agrees(
                grouping::list_items(
                    old(state).tokens@,
                    old(state).position + 2,
                    Seq::empty(),
                    old(state).scope(),
                ),
                old(state).tokens@,
                r,
                final(state).position as int,
            )),
            !(old(state).peek_kind() is LeftParen) ==> r is Err && grouping::reports(
                r->Err_0,
                grouping::missing(old(state).position + 1, "`(`".spec_bytes()),
                old(state).tokens@,
            ),
        decreases old(state).remaining(), 1nat,
    {
        reveal(grouping::list_items);
        reveal(grouping::item);
        state.next();
        utils::skip_left_parenthesis(state)?;
        let ghost goal = grouping::list_items(
            state.tokens@,
            state.position as int,
            Seq::empty(),
            state.scope(),
        );
        let mut items: Vec<Option<ArrayItem>> = Vec::new();
        let ghost mut shapes: Seq<Option<ItemShape>> = Seq::empty();
        loop
            invariant_except_break
                grouping::list_items(
                    state.tokens@,
                    state.position as int,
                    shapes,
                    state.scope(),
                ) == goal,
            invariant
                state.follows(*old(state)),
                state.position > old(state).position,
                old(state).peek_kind() is LeftParen,
                goal == grouping::list_items(
                    state.tokens@,
                    old(state).position + 2,
                    Seq::empty(),
                    old(state).scope(),
                ),
                forall|i: int|
                    0 <= i < items@.len() ==> match #[trigger] items@[i] {
                        Some(x) => x.valid(state.tokens@),
                        None => true,
                    },
                items@.len() == shapes.len(),
                forall|i: int|
                    0 <= i < shapes.len() ==> match #[trigger] shapes[i] {
                        Some(shape) => items@[i] is Some && models_item(
                            items@[i]->Some_0,
                            shape,
                            state.tokens@,
                        ),
                        None => items@[i] is None,
                    },
            ensures
                grouping::finish(
                    state.tokens@,
                    state.position as int,
                    |k: TokenKind| k is RightParen,
                    "`)`".spec_bytes(),
                    grouping::Shape::List(shapes),
                ) == goal,
            decreases state.remaining(),
        {
            reveal(grouping::list_items);
            reveal(grouping::item);
            state.skip_comments();
            if matches!(state.current().kind, TokenKind::RightParen) {
                break ;
            }
            if matches!(state.current().kind, TokenKind::Comma) {
                state.next();
                items.push(None);
                proof {
                    shapes = shapes.push(None);
                }
                continue ;
            }
            let ghost said = grouping::item(state.tokens@, state.position as int, state.scope());
            let item = self.array_item(state)?;
            items.push(Some(item));
            proof {
                shapes = shapes.push(Some(tree_of(said)));
            }
            if matches!(state.current().kind, TokenKind::Comma) {
                state.next();
            } else {
                break ;
            }
        }
        utils::skip_right_parenthesis(state)?;
        Ok(Expression::List { items })
    }
}

} // verus!
