use crate::lexer::token::Token;
use crate::parser::ast::Expression;
use crate::parser::ast::Statement;
use crate::parser::internal::grouping;
use crate::parser::internal::grouping::models;
use crate::parser::internal::grouping::ArmShape;
use crate::parser::internal::grouping::Fault;
use crate::parser::internal::grouping::Grouping;
use crate::parser::internal::grouping::Parsed;
use crate::parser::internal::grouping::Scope;
use crate::parser::internal::grouping::Shape;
use crate::parser::internal::program::program;
use crate::parser::internal::program::top_level;
use crate::parser::internal::program::StatementShape;
use crate::parser::internal::precedences::infix_class;
use crate::parser::internal::precedences::postfix_class;
use crate::parser::internal::precedences::Associativity;
use crate::parser::internal::precedences::Precedence;
use vstd::prelude::*;

verus! {

/// A valid `use`, group `use`, `global` or `static` statement lists at
/// least one item.
pub proof fn lemma_listing_statements_hold_items(s: Statement, tokens: Seq<Token>)
    requires
        s.valid(tokens),
    ensures
        match s {
            Statement::Use { uses, .. } => uses@.len() > 0,
            Statement::GroupUse { uses, .. } => uses@.len() > 0,
            Statement::Global { vars } => vars@.len() > 0,
            Statement::Static { vars } => vars@.len() > 0,
            _ => true,
        },
{
}

/// Where a `match` already has a default arm, a second one at `pos` is
/// refused: the arm is a fault at `pos`, whatever follows.
pub proof fn lemma_second_default_is_refused(
    tokens: Seq<Token>,
    pos: int,
    before: Seq<ArmShape>,
    default: Option<Box<Shape>>,
    scope: Scope,
)
    requires
        0 <= pos,
        pos + 1 < tokens.len(),
        tokens[pos].kind is Default,
        default is Some,
    ensures
        grouping::arm(tokens, pos, before, default, scope) == Parsed::<
            (Seq<ArmShape>, Option<Box<Shape>>),
        >::Fails(Fault::SecondDefault(pos)),
{
    reveal(grouping::arm);
}

/// A tree that groups as a `match` does has a default arm where the shape
/// has one, and none where it has none.
pub proof fn lemma_match_default(
    e: Expression,
    condition: Shape,
    arms: Seq<ArmShape>,
    default: Option<Box<Shape>>,
    tokens: Seq<Token>,
)
    requires
        models(e, Shape::Match(Box::new(condition), arms, default), tokens),
    ensures
        match e {
            Expression::Match { default: d, .. } => d is Some <==> default is Some,
            _ => false,
        },
{
}

/// What `?` or `?:` at `pos` makes of the operand before it is a ternary,
/// with a middle operand for `?` and without one for `?:`.
pub proof fn lemma_ternary_middle(
    tokens: Seq<Token>,
    pos: int,
    class: Precedence,
    left: Shape,
    scope: Scope,
    e: Expression,
)
    requires
        0 <= pos < tokens.len(),
        tokens[pos].kind is Question || tokens[pos].kind is QuestionColon,
        grouping::infix_shape(tokens, pos, class, left, scope) is Tree,
        models(e, grouping::infix_shape(tokens, pos, class, left, scope)->Tree_0, tokens),
    ensures
        match e {
            Expression::Ternary { then, .. } => then is Some <==> tokens[pos].kind is Question,
            _ => false,
        },
{
    reveal(grouping::infix_shape);
}

/// What `climb` gives where the infix operator at `pos` applies: the
/// operator joins the operand before it with what follows, and the
/// expression goes on after that.
pub open spec fn joined(
    tokens: Seq<Token>,
    pos: int,
    min: Precedence,
    class: Precedence,
    left: Shape,
    scope: Scope,
) -> Grouping {
    match grouping::infix_shape(tokens, pos, class, left, scope) {
        Parsed::Tree(joined, next) => if pos < next < tokens.len() {
            grouping::climb(tokens, next, min, joined, scope)
        } else {
            Parsed::Other
        },
        Parsed::Fails(fault) => Parsed::Fails(fault),
        Parsed::Other => Parsed::Other,
    }
}

/// An infix operator that binds more loosely than the expression allows
/// ends the expression: the operand before it stays as it is, and the
/// operator is left for an enclosing expression.
pub proof fn lemma_looser_operator_ends_expression(
    tokens: Seq<Token>,
    pos: int,
    min: Precedence,
    left: Shape,
    scope: Scope,
)
    requires
        0 <= pos < tokens.len(),
        !tokens[pos].kind.is_comment(),
        postfix_class(tokens[pos].kind) is None,
        infix_class(tokens[pos].kind) is Some,
        infix_class(tokens[pos].kind)->Some_0.level_spec() < min.level_spec(),
    ensures
        grouping::climb(tokens, pos, min, left, scope) == Parsed::<Shape>::Tree(left, pos),
{
    reveal(grouping::climb);
}

/// An infix operator that binds more tightly than the expression requires
/// applies to the operand before it.
pub proof fn lemma_tighter_operator_applies(
    tokens: Seq<Token>,
    pos: int,
    min: Precedence,
    left: Shape,
    scope: Scope,
)
    requires
        0 <= pos < tokens.len(),
        !tokens[pos].kind.is_comment(),
        postfix_class(tokens[pos].kind) is None,
        infix_class(tokens[pos].kind) is Some,
        infix_class(tokens[pos].kind)->Some_0.level_spec() > min.level_spec(),
    ensures
        grouping::climb(tokens, pos, min, left, scope) == joined(
            tokens,
            pos,
            min,
            infix_class(tokens[pos].kind)->Some_0,
            left,
            scope,
        ),
{
    reveal(grouping::climb);
    reveal(grouping::infix_shape);
}

/// An infix operator of the very class at which the expression is parsed
/// follows the associativity of that class: where the class groups to the
/// left, the expression ends before the operator; where it does not
/// associate, the operator is refused; otherwise the operator applies.
pub proof fn lemma_equal_class_follows_associativity(
    tokens: Seq<Token>,
    pos: int,
    min: Precedence,
    left: Shape,
    scope: Scope,
)
    requires
        0 <= pos < tokens.len(),
        !tokens[pos].kind.is_comment(),
        postfix_class(tokens[pos].kind) is None,
        infix_class(tokens[pos].kind) == Some(min),
    ensures
        grouping::climb(tokens, pos, min, left, scope) == match min.associativity_spec() {
            Some(Associativity::Left) => Parsed::<Shape>::Tree(left, pos),
            Some(Associativity::Non) => Parsed::<Shape>::Fails(Fault::Unexpected(pos)),
            _ => joined(tokens, pos, min, min, left, scope),
        },
{
    reveal(grouping::climb);
    reveal(grouping::infix_shape);
}

/// A program takes the input up to its end and keeps what came before in
/// its place: the statements `before` stand first in the result, in their
/// order, each later statement is added after them, and the program ends
/// at an `Eof` and nowhere else.
pub proof fn lemma_program_covers_input_in_order(
    tokens: Seq<Token>,
    pos: int,
    before: Seq<StatementShape>,
)
    ensures
        match program(tokens, pos, before) {
            Parsed::Tree(all, end) => {
                &&& before.len() <= all.len()
                &&& all.subrange(0, before.len() as int) == before
                &&& pos <= end < tokens.len()
                &&& tokens[end].kind is Eof
            },
            _ => true,
        },
    decreases tokens.len() - pos,
{
    if 0 <= pos < tokens.len() {
        let kind = tokens[pos].kind;
        if kind is Eof {
            assert(before.subrange(0, before.len() as int) =~= before);
        } else if kind is OpenTag || kind is CloseTag || kind.is_comment() {
            if pos + 1 < tokens.len() {
                let next = if kind.is_comment() {
                    before.push(StatementShape::Comment(pos))
                } else {
                    before
                };
                lemma_program_covers_input_in_order(tokens, pos + 1, next);
                match program(tokens, pos + 1, next) {
                    Parsed::Tree(all, end) => {
                        assert(all.subrange(0, before.len() as int) =~= all.subrange(
                            0,
                            next.len() as int,
                        ).subrange(0, before.len() as int));
                        assert(next.subrange(0, before.len() as int) =~= before);
                    },
                    _ => {},
                }
            }
        } else {
            match top_level(tokens, pos, (Scope { class: false, parent: false })) {
                Parsed::Tree(shape, after) => {
                    if pos < after < tokens.len() {
                        let next = before.push(shape);
                        lemma_program_covers_input_in_order(tokens, after, next);
                        match program(tokens, after, next) {
                            Parsed::Tree(all, end) => {
                                assert(all.subrange(0, before.len() as int) =~= all.subrange(
                                    0,
                                    next.len() as int,
                                ).subrange(0, before.len() as int));
                                assert(next.subrange(0, before.len() as int) =~= before);
                            },
                            _ => {},
                        }
                    }
                },
                _ => {},
            }
        }
    }
}

} // verus!
