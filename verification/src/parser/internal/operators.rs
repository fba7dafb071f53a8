use crate::lexer::token::TokenKind;
use crate::parser::ast::CastKind;
use crate::parser::ast::Expression;
use crate::parser::ast::InfixOp;
use crate::parser::internal::precedences::infix_class;
use crate::parser::internal::precedences::postfix_class;
use crate::parser::internal::precedences::Associativity;
use crate::parser::internal::precedences::Precedence;
use vstd::prelude::*;

verus! {

/// The cast that a cast token stands for; `None` for every other token.
pub open spec fn cast_kind(kind: TokenKind) -> Option<CastKind> {
    match kind {
        TokenKind::StringCast | TokenKind::BinaryCast => Some(CastKind::String),
        TokenKind::ObjectCast => Some(CastKind::Object),
        TokenKind::BoolCast | TokenKind::BooleanCast => Some(CastKind::Bool),
        TokenKind::IntCast | TokenKind::IntegerCast => Some(CastKind::Int),
        TokenKind::FloatCast | TokenKind::DoubleCast | TokenKind::RealCast => Some(CastKind::Float),
        TokenKind::UnsetCast => Some(CastKind::Unset),
        TokenKind::ArrayCast => Some(CastKind::Array),
        _ => None,
    }
}

/// The node that the prefix operator `op` makes of its operand; `None`
/// where `op` is no prefix operator.
pub open spec fn prefix_node(op: TokenKind, rhs: Expression) -> Option<Expression> {
    match op {
        TokenKind::Print => Some(Expression::Print { value: Box::new(rhs) }),
        TokenKind::Bang => Some(Expression::BooleanNot { value: Box::new(rhs) }),
        TokenKind::Minus => Some(Expression::Negate { value: Box::new(rhs) }),
        TokenKind::Plus => Some(Expression::UnaryPlus { value: Box::new(rhs) }),
        TokenKind::BitwiseNot => Some(Expression::BitwiseNot { value: Box::new(rhs) }),
        TokenKind::Decrement => Some(Expression::PreDecrement { value: Box::new(rhs) }),
        TokenKind::Increment => Some(Expression::PreIncrement { value: Box::new(rhs) }),
        TokenKind::At => Some(Expression::ErrorSuppress { expr: Box::new(rhs) }),
        _ => match cast_kind(op) {
            Some(kind) => Some(Expression::Cast { kind, value: Box::new(rhs) }),
            None => None,
        },
    }
}

/// Whether `op` is a prefix operator.
pub open spec fn is_prefix_spec(op: TokenKind) -> bool {
    op is Print || op is Bang || op is Minus || op is Plus || op is BitwiseNot || op is Decrement
        || op is Increment || op is At || cast_kind(op) is Some
}

/// The binary operator that a token stands for; `None` for every other
/// token, the two ternary operators among them.
pub open spec fn infix_op(kind: TokenKind) -> Option<InfixOp> {
    match kind {
        TokenKind::Plus => Some(InfixOp::Add),
        TokenKind::Minus => Some(InfixOp::Sub),
        TokenKind::Asterisk => Some(InfixOp::Mul),
        TokenKind::Slash => Some(InfixOp::Div),
        TokenKind::Percent => Some(InfixOp::Mod),
        TokenKind::Dot => Some(InfixOp::Concat),
        TokenKind::LeftShift => Some(InfixOp::LeftShift),
        TokenKind::RightShift => Some(InfixOp::RightShift),
        TokenKind::Ampersand => Some(InfixOp::BitwiseAnd),
        TokenKind::Pipe => Some(InfixOp::BitwiseOr),
        TokenKind::Caret => Some(InfixOp::BitwiseXor),
        TokenKind::LessThan => Some(InfixOp::LessThan),
        TokenKind::LessThanEquals => Some(InfixOp::LessThanEquals),
        TokenKind::GreaterThan => Some(InfixOp::GreaterThan),
        TokenKind::GreaterThanEquals => Some(InfixOp::GreaterThanEquals),
        TokenKind::DoubleEquals => Some(InfixOp::Equals),
        TokenKind::TripleEquals => Some(InfixOp::Identical),
        TokenKind::BangEquals => Some(InfixOp::NotEquals),
        TokenKind::BangDoubleEquals => Some(InfixOp::NotIdentical),
        TokenKind::AngledLeftRight => Some(InfixOp::AngledNotEquals),
        TokenKind::Spaceship => Some(InfixOp::Spaceship),
        TokenKind::BooleanAnd => Some(InfixOp::And),
        TokenKind::BooleanOr => Some(InfixOp::Or),
        TokenKind::LogicalAnd => Some(InfixOp::LogicalAnd),
        TokenKind::LogicalOr => Some(InfixOp::LogicalOr),
        TokenKind::LogicalXor => Some(InfixOp::LogicalXor),
        TokenKind::Pow => Some(InfixOp::Pow),
        TokenKind::Instanceof => Some(InfixOp::Instanceof),
        TokenKind::Equals => Some(InfixOp::Assign),
        TokenKind::PlusEquals => Some(InfixOp::AddAssign),
        TokenKind::MinusEquals => Some(InfixOp::SubAssign),
        TokenKind::AsteriskEqual => Some(InfixOp::MulAssign),
        TokenKind::SlashEquals => Some(InfixOp::DivAssign),
        TokenKind::PercentEquals => Some(InfixOp::ModAssign),
        TokenKind::PowEquals => Some(InfixOp::PowAssign),
        TokenKind::DotEquals => Some(InfixOp::ConcatAssign),
        TokenKind::AmpersandEquals => Some(InfixOp::BitwiseAndAssign),
        TokenKind::PipeEquals => Some(InfixOp::BitwiseOrAssign),
        TokenKind::CaretEquals => Some(InfixOp::BitwiseXorAssign),
        TokenKind::LeftShiftEquals => Some(InfixOp::LeftShiftAssign),
        TokenKind::RightShiftEquals => Some(InfixOp::RightShiftAssign),
        TokenKind::CoalesceEqual => Some(InfixOp::CoalesceAssign),
        _ => None,
    }
}

/// The node for `lhs op rhs`; with `by_ref`, `=` becomes an assignment by
/// reference. `None` where `op` is no binary operator.
pub open spec fn infix_node(lhs: Expression, op: TokenKind, rhs: Expression, by_ref: bool) -> Option<
    Expression,
> {
    match infix_op(op) {
        Some(o) => Some(
            Expression::Infix {
                lhs: Box::new(lhs),
                op: if op is Equals && by_ref {
                    InfixOp::AssignRef
                } else {
                    o
                },
                rhs: Box::new(rhs),
            },
        ),
        None => None,
    }
}

/// Whether an expression that is being parsed at class `at` goes on over
/// the operator `kind`: a postfix operator of a class not below `at`, or an
/// infix operator of a class above `at`, or of `at` itself where that class
/// does not group to the left.
pub open spec fn continues(kind: TokenKind, at: Precedence) -> bool {
    match postfix_class(kind) {
        Some(class) => class.level_spec() >= at.level_spec(),
        None => match infix_class(kind) {
            Some(class) => class.level_spec() > at.level_spec() || (class == at
                && class.associativity_spec() != Some(Associativity::Left)),
            None => false,
        },
    }
}

/// An operator token as a value of its own, apart from the token sequence;
/// `None` for a token that is neither an infix nor a postfix operator.
pub fn operator(kind: &TokenKind) -> (r: Option<TokenKind>)
    ensures
        r == if infix_class(*kind) is Some || postfix_class(*kind) is Some {
            Some(*kind)
        } else {
            None
        },
{
    match kind {
        TokenKind::Pow => Some(TokenKind::Pow),
        TokenKind::Instanceof => Some(TokenKind::Instanceof),
        TokenKind::Asterisk => Some(TokenKind::Asterisk),
        TokenKind::Slash => Some(TokenKind::Slash),
        TokenKind::Percent => Some(TokenKind::Percent),
        TokenKind::Plus => Some(TokenKind::Plus),
        TokenKind::Minus => Some(TokenKind::Minus),
        TokenKind::LeftShift => Some(TokenKind::LeftShift),
        TokenKind::RightShift => Some(TokenKind::RightShift),
        TokenKind::Dot => Some(TokenKind::Dot),
        TokenKind::LessThan => Some(TokenKind::LessThan),
        TokenKind::LessThanEquals => Some(TokenKind::LessThanEquals),
        TokenKind::GreaterThan => Some(TokenKind::GreaterThan),
        TokenKind::GreaterThanEquals => Some(TokenKind::GreaterThanEquals),
        TokenKind::DoubleEquals => Some(TokenKind::DoubleEquals),
        TokenKind::BangEquals => Some(TokenKind::BangEquals),
        TokenKind::TripleEquals => Some(TokenKind::TripleEquals),
        TokenKind::BangDoubleEquals => Some(TokenKind::BangDoubleEquals),
        TokenKind::AngledLeftRight => Some(TokenKind::AngledLeftRight),
        TokenKind::Spaceship => Some(TokenKind::Spaceship),
        TokenKind::Ampersand => Some(TokenKind::Ampersand),
        TokenKind::Caret => Some(TokenKind::Caret),
        TokenKind::Pipe => Some(TokenKind::Pipe),
        TokenKind::BooleanAnd => Some(TokenKind::BooleanAnd),
        TokenKind::BooleanOr => Some(TokenKind::BooleanOr),
        TokenKind::Question => Some(TokenKind::Question),
        TokenKind::QuestionColon => Some(TokenKind::QuestionColon),
        TokenKind::Equals => Some(TokenKind::Equals),
        TokenKind::PlusEquals => Some(TokenKind::PlusEquals),
        TokenKind::MinusEquals => Some(TokenKind::MinusEquals),
        TokenKind::AsteriskEqual => Some(TokenKind::AsteriskEqual),
        TokenKind::SlashEquals => Some(TokenKind::SlashEquals),
        TokenKind::PercentEquals => Some(TokenKind::PercentEquals),
        TokenKind::PowEquals => Some(TokenKind::PowEquals),
        TokenKind::DotEquals => Some(TokenKind::DotEquals),
        TokenKind::AmpersandEquals => Some(TokenKind::AmpersandEquals),
        TokenKind::PipeEquals => Some(TokenKind::PipeEquals),
        TokenKind::CaretEquals => Some(TokenKind::CaretEquals),
        TokenKind::LeftShiftEquals => Some(TokenKind::LeftShiftEquals),
        TokenKind::RightShiftEquals => Some(TokenKind::RightShiftEquals),
        TokenKind::CoalesceEqual => Some(TokenKind::CoalesceEqual),
        TokenKind::LogicalAnd => Some(TokenKind::LogicalAnd),
        TokenKind::LogicalXor => Some(TokenKind::LogicalXor),
        TokenKind::LogicalOr => Some(TokenKind::LogicalOr),
        TokenKind::Coalesce => Some(TokenKind::Coalesce),
        TokenKind::Increment => Some(TokenKind::Increment),
        TokenKind::Decrement => Some(TokenKind::Decrement),
        TokenKind::LeftParen => Some(TokenKind::LeftParen),
        TokenKind::LeftBracket => Some(TokenKind::LeftBracket),
        TokenKind::Arrow => Some(TokenKind::Arrow),
        TokenKind::NullsafeArrow => Some(TokenKind::NullsafeArrow),
        TokenKind::DoubleColon => Some(TokenKind::DoubleColon),
        _ => None,
    }
}

/// A prefix operator token as a value of its own; `None` for any other
/// token.
pub fn prefix_operator(kind: &TokenKind) -> (r: Option<TokenKind>)
    ensures
        r == if is_prefix_spec(*kind) {
            Some(*kind)
        } else {
            None
        },
{
    match kind {
        TokenKind::Bang => Some(TokenKind::Bang),
        TokenKind::Print => Some(TokenKind::Print),
        TokenKind::BitwiseNot => Some(TokenKind::BitwiseNot),
        TokenKind::Decrement => Some(TokenKind::Decrement),
        TokenKind::Increment => Some(TokenKind::Increment),
        TokenKind::Minus => Some(TokenKind::Minus),
        TokenKind::Plus => Some(TokenKind::Plus),
        TokenKind::StringCast => Some(TokenKind::StringCast),
        TokenKind::BinaryCast => Some(TokenKind::BinaryCast),
        TokenKind::ObjectCast => Some(TokenKind::ObjectCast),
        TokenKind::BoolCast => Some(TokenKind::BoolCast),
        TokenKind::BooleanCast => Some(TokenKind::BooleanCast),
        TokenKind::IntCast => Some(TokenKind::IntCast),
        TokenKind::IntegerCast => Some(TokenKind::IntegerCast),
        TokenKind::FloatCast => Some(TokenKind::FloatCast),
        TokenKind::DoubleCast => Some(TokenKind::DoubleCast),
        TokenKind::RealCast => Some(TokenKind::RealCast),
        TokenKind::UnsetCast => Some(TokenKind::UnsetCast),
        TokenKind::ArrayCast => Some(TokenKind::ArrayCast),
        TokenKind::At => Some(TokenKind::At),
        _ => None,
    }
}

} // verus!
