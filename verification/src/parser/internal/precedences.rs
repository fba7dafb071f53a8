use crate::lexer::token::TokenKind;
use vstd::prelude::*;

verus! {

/// How operators of one precedence class group when they follow one another
/// without parentheses.
#[derive(Debug, Clone, Copy, PartialEq, Eq, Structural)]
pub enum Associativity {
    Non,
    Left,
    Right,
}

/// The precedence classes, from the loosest binding to the tightest.
///
/// The operator classes follow the language's documented table. The call and
/// index class sits just below `CloneOrNew`, so that the argument list after
/// `new C` is left to `new` itself.
#[derive(Debug, Clone, Copy, PartialEq, Eq, PartialOrd, Ord, Structural)]
pub enum Precedence {
    Lowest,
    KeyOr,
    KeyXor,
    KeyAnd,
    Print,
    Yield,
    YieldFrom,
    Assignment,
    Ternary,
    NullCoalesce,
    Or,
    And,
    BitwiseOr,
    BitwiseXor,
    BitwiseAnd,
    Equality,
    LtGt,
    Concat,
    BitShift,
    AddSub,
    MulDivMod,
    Bang,
    Instanceof,
    Prefix,
    Pow,
    CallDim,
    CloneOrNew,
    ObjectAccess,
    IncDec,
}

/// The class at which the operand of a prefix operator is parsed.
pub open spec fn prefix_class(kind: TokenKind) -> Precedence {
    match kind {
        TokenKind::Bang => Precedence::Bang,
        TokenKind::Clone | TokenKind::New => Precedence::CloneOrNew,
        _ => Precedence::Prefix,
    }
}

/// The class of a binary or ternary operator; `None` for every other token.
pub open spec fn infix_class(kind: TokenKind) -> Option<Precedence> {
    match kind {
        TokenKind::Pow => Some(Precedence::Pow),
        TokenKind::Instanceof => Some(Precedence::Instanceof),
        TokenKind::Asterisk | TokenKind::Slash | TokenKind::Percent => Some(Precedence::MulDivMod),
        TokenKind::Plus | TokenKind::Minus => Some(Precedence::AddSub),
        TokenKind::LeftShift | TokenKind::RightShift => Some(Precedence::BitShift),
        TokenKind::Dot => Some(Precedence::Concat),
        TokenKind::LessThan
        | TokenKind::LessThanEquals
        | TokenKind::GreaterThan
        | TokenKind::GreaterThanEquals => Some(Precedence::LtGt),
        TokenKind::DoubleEquals
        | TokenKind::BangEquals
        | TokenKind::TripleEquals
        | TokenKind::BangDoubleEquals
        | TokenKind::AngledLeftRight
        | TokenKind::Spaceship => Some(Precedence::Equality),
        TokenKind::Ampersand => Some(Precedence::BitwiseAnd),
        TokenKind::Caret => Some(Precedence::BitwiseXor),
        TokenKind::Pipe => Some(Precedence::BitwiseOr),
        TokenKind::BooleanAnd => Some(Precedence::And),
        TokenKind::BooleanOr => Some(Precedence::Or),
        TokenKind::Question | TokenKind::QuestionColon => Some(Precedence::Ternary),
        TokenKind::Equals
        | TokenKind::PlusEquals
        | TokenKind::MinusEquals
        | TokenKind::AsteriskEqual
        | TokenKind::SlashEquals
        | TokenKind::PercentEquals
        | TokenKind::PowEquals
        | TokenKind::DotEquals
        | TokenKind::AmpersandEquals
        | TokenKind::PipeEquals
        | TokenKind::CaretEquals
        | TokenKind::LeftShiftEquals
        | TokenKind::RightShiftEquals
        | TokenKind::CoalesceEqual => Some(Precedence::Assignment),
        TokenKind::LogicalAnd => Some(Precedence::KeyAnd),
        TokenKind::LogicalXor => Some(Precedence::KeyXor),
        TokenKind::LogicalOr => Some(Precedence::KeyOr),
        _ => None,
    }
}

/// The class of a postfix operator; `None` for every other token.
pub open spec fn postfix_class(kind: TokenKind) -> Option<Precedence> {
    match kind {
        TokenKind::Coalesce => Some(Precedence::NullCoalesce),
        TokenKind::Increment | TokenKind::Decrement => Some(Precedence::IncDec),
        TokenKind::LeftParen | TokenKind::LeftBracket => Some(Precedence::CallDim),
        TokenKind::Arrow | TokenKind::NullsafeArrow | TokenKind::DoubleColon => Some(
            Precedence::ObjectAccess,
        ),
        _ => None,
    }
}

impl Precedence {
    /// The rank of the class: a higher rank binds tighter.
    pub open spec fn level_spec(self) -> nat {
        match self {
            Precedence::Lowest => 0,
            Precedence::KeyOr => 1,
            Precedence::KeyXor => 2,
            Precedence::KeyAnd => 3,
            Precedence::Print => 4,
            Precedence::Yield => 5,
            Precedence::YieldFrom => 6,
            Precedence::Assignment => 7,
            Precedence::Ternary => 8,
            Precedence::NullCoalesce => 9,
            Precedence::Or => 10,
            Precedence::And => 11,
            Precedence::BitwiseOr => 12,
            Precedence::BitwiseXor => 13,
            Precedence::BitwiseAnd => 14,
            Precedence::Equality => 15,
            Precedence::LtGt => 16,
            Precedence::Concat => 17,
            Precedence::BitShift => 18,
            Precedence::AddSub => 19,
            Precedence::MulDivMod => 20,
            Precedence::Bang => 21,
            Precedence::Instanceof => 22,
            Precedence::Prefix => 23,
            Precedence::Pow => 24,
            Precedence::CallDim => 25,
            Precedence::CloneOrNew => 26,
            Precedence::ObjectAccess => 27,
            Precedence::IncDec => 28,
        }
    }

    /// The associativity of the class; `None` where chaining does not arise.
    pub open spec fn associativity_spec(self) -> Option<Associativity> {
        match self {
            Precedence::Instanceof
            | Precedence::MulDivMod
            | Precedence::AddSub
            | Precedence::BitShift
            | Precedence::Concat
            | Precedence::BitwiseAnd
            | Precedence::BitwiseOr
            | Precedence::BitwiseXor
            | Precedence::And
            | Precedence::Or
            | Precedence::KeyAnd
            | Precedence::KeyOr
            | Precedence::KeyXor => Some(Associativity::Left),
            Precedence::Pow | Precedence::NullCoalesce | Precedence::Assignment => Some(
                Associativity::Right,
            ),
            Precedence::Ternary | Precedence::Equality | Precedence::LtGt => Some(
                Associativity::Non,
            ),
            _ => None,
        }
    }

    /// The rank of the class as a number, for comparisons.
    pub fn level(&self) -> (n: u8)
        ensures
            n == self.level_spec(),
    {
        match self {
            Precedence::Lowest => 0,
            Precedence::KeyOr => 1,
            Precedence::KeyXor => 2,
            Precedence::KeyAnd => 3,
            Precedence::Print => 4,
            Precedence::Yield => 5,
            Precedence::YieldFrom => 6,
            Precedence::Assignment => 7,
            Precedence::Ternary => 8,
            Precedence::NullCoalesce => 9,
            Precedence::Or => 10,
            Precedence::And => 11,
            Precedence::BitwiseOr => 12,
            Precedence::BitwiseXor => 13,
            Precedence::BitwiseAnd => 14,
            Precedence::Equality => 15,
            Precedence::LtGt => 16,
            Precedence::Concat => 17,
            Precedence::BitShift => 18,
            Precedence::AddSub => 19,
            Precedence::MulDivMod => 20,
            Precedence::Bang => 21,
            Precedence::Instanceof => 22,
            Precedence::Prefix => 23,
            Precedence::Pow => 24,
            Precedence::CallDim => 25,
            Precedence::CloneOrNew => 26,
            Precedence::ObjectAccess => 27,
            Precedence::IncDec => 28,
        }
    }

    /// The class at which the operand of the prefix operator `kind` is parsed.
    pub fn prefix(kind: &TokenKind) -> (p: Precedence)
        ensures
            p == prefix_class(*kind),
    {
        match kind {
            TokenKind::Bang => Precedence::Bang,
            TokenKind::Clone | TokenKind::New => Precedence::CloneOrNew,
            _ => Precedence::Prefix,
        }
    }

    /// The class of the infix operator `kind`.
    pub fn infix(kind: &TokenKind) -> (p: Precedence)
        requires
            infix_class(*kind) is Some,
        ensures
            Some(p) == infix_class(*kind),
    {
        match kind {
            TokenKind::Pow => Precedence::Pow,
            TokenKind::Instanceof => Precedence::Instanceof,
            TokenKind::Asterisk | TokenKind::Slash | TokenKind::Percent => Precedence::MulDivMod,
            TokenKind::Plus | TokenKind::Minus => Precedence::AddSub,
            TokenKind::LeftShift | TokenKind::RightShift => Precedence::BitShift,
            TokenKind::Dot => Precedence::Concat,
            TokenKind::LessThan
            | TokenKind::LessThanEquals
            | TokenKind::GreaterThan
            | TokenKind::GreaterThanEquals => Precedence::LtGt,
            TokenKind::DoubleEquals
            | TokenKind::BangEquals
            | TokenKind::TripleEquals
            | TokenKind::BangDoubleEquals
            | TokenKind::AngledLeftRight
            | TokenKind::Spaceship => Precedence::Equality,
            TokenKind::Ampersand => Precedence::BitwiseAnd,
            TokenKind::Caret => Precedence::BitwiseXor,
            TokenKind::Pipe => Precedence::BitwiseOr,
            TokenKind::BooleanAnd => Precedence::And,
            TokenKind::BooleanOr => Precedence::Or,
            TokenKind::Question | TokenKind::QuestionColon => Precedence::Ternary,
            TokenKind::LogicalAnd => Precedence::KeyAnd,
            TokenKind::LogicalXor => Precedence::KeyXor,
            TokenKind::LogicalOr => Precedence::KeyOr,
            _ => Precedence::Assignment,
        }
    }

    /// The class of the postfix operator `kind`.
    pub fn postfix(kind: &TokenKind) -> (p: Precedence)
        requires
            postfix_class(*kind) is Some,
        ensures
            Some(p) == postfix_class(*kind),
    {
        match kind {
            TokenKind::Coalesce => Precedence::NullCoalesce,
            TokenKind::Increment | TokenKind::Decrement => Precedence::IncDec,
            TokenKind::LeftParen | TokenKind::LeftBracket => Precedence::CallDim,
            _ => Precedence::ObjectAccess,
        }
    }

    /// The associativity of the class.
    pub fn associativity(&self) -> (a: Option<Associativity>)
        ensures
            a == self.associativity_spec(),
    {
        match self {
            Precedence::Instanceof
            | Precedence::MulDivMod
            | Precedence::AddSub
            | Precedence::BitShift
            | Precedence::Concat
            | Precedence::BitwiseAnd
            | Precedence::BitwiseOr
            | Precedence::BitwiseXor
            | Precedence::And
            | Precedence::Or
            | Precedence::KeyAnd
            | Precedence::KeyOr
            | Precedence::KeyXor => Some(Associativity::Left),
            Precedence::Pow | Precedence::NullCoalesce | Precedence::Assignment => Some(
                Associativity::Right,
            ),
            Precedence::Ternary | Precedence::Equality | Precedence::LtGt => Some(
                Associativity::Non,
            ),
            _ => None,
        }
    }
}

/// Two classes of the same rank are the same class, so that comparing ranks
/// orders the classes totally.
pub proof fn lemma_level_determines_class(p: Precedence, q: Precedence)
    requires
        p.level_spec() == q.level_spec(),
    ensures
        p == q,
{
}

/// Every class that an infix operator can have groups in a defined way: it
/// is left-, right- or non-associative.
pub proof fn lemma_infix_class_has_associativity(kind: TokenKind)
    requires
        infix_class(kind) is Some,
    ensures
        infix_class(kind)->Some_0.associativity_spec() is Some,
{
}

} // verus!
