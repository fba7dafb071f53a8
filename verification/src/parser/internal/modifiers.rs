use crate::lexer::token::bytes;
use crate::lexer::token::ByteString;
use crate::lexer::token::Span;
use crate::lexer::token::Token;
use crate::lexer::token::TokenKind;
use crate::parser::ast::modifiers::ClassModifier;
use crate::parser::ast::modifiers::ConstantModifier;
use crate::parser::ast::modifiers::MethodModifier;
use crate::parser::ast::modifiers::PromotedPropertyModifier;
use crate::parser::ast::modifiers::PropertyModifier;
use crate::parser::error::located;
use crate::parser::error::ParseError;
use crate::parser::state::State;
use vstd::prelude::*;
use vstd::string::StringSliceAdditionalSpecFns;

verus! {

/// A modifier keyword, whatever it is written before.
#[derive(Debug, Clone, Copy, PartialEq, Eq, Structural)]
pub enum Modifier {
    Public,
    Protected,
    Private,
    Static,
    Abstract,
    Final,
    Readonly,
}

/// What a list of modifiers is written before.
#[derive(Debug, Clone, Copy, PartialEq, Eq, Structural)]
pub enum Target {
    Class,
    Method,
    Property,
    PromotedProperty,
    Constant,
}

/// A modifier keyword with its position.
#[derive(Debug, Clone, Copy, PartialEq, Eq, Structural)]
pub struct Placed {
    pub modifier: Modifier,
    pub span: Span,
}

/// The modifier that a token stands for.
pub open spec fn modifier_of(kind: TokenKind) -> Option<Modifier> {
    match kind {
        TokenKind::Public => Some(Modifier::Public),
        TokenKind::Protected => Some(Modifier::Protected),
        TokenKind::Private => Some(Modifier::Private),
        TokenKind::Static => Some(Modifier::Static),
        TokenKind::Abstract => Some(Modifier::Abstract),
        TokenKind::Final => Some(Modifier::Final),
        TokenKind::Readonly => Some(Modifier::Readonly),
        _ => None,
    }
}

impl Modifier {
    pub open spec fn is_visibility(self) -> bool {
        self == Modifier::Public || self == Modifier::Protected || self == Modifier::Private
    }

    /// The keyword as it is written.
    pub open spec fn text_spec(self) -> Seq<u8> {
        match self {
            Modifier::Public => "public".spec_bytes(),
            Modifier::Protected => "protected".spec_bytes(),
            Modifier::Private => "private".spec_bytes(),
            Modifier::Static => "static".spec_bytes(),
            Modifier::Abstract => "abstract".spec_bytes(),
            Modifier::Final => "final".spec_bytes(),
            Modifier::Readonly => "readonly".spec_bytes(),
        }
    }

    /// Whether the modifier may stand before `target`.
    pub open spec fn allowed_spec(self, target: Target) -> bool {
        match target {
            Target::Class => self == Modifier::Abstract || self == Modifier::Final || self
                == Modifier::Readonly,
            Target::Method => self != Modifier::Readonly,
            Target::Property => self != Modifier::Abstract && self != Modifier::Final,
            Target::PromotedProperty => self.is_visibility() || self == Modifier::Readonly,
            Target::Constant => self.is_visibility() || self == Modifier::Final,
        }
    }

    /// Whether two modifiers exclude one another: two visibilities, or
    /// `abstract` with `final`.
    pub open spec fn conflicts_spec(self, other: Modifier) -> bool {
        ||| self.is_visibility() && other.is_visibility() && self != other
        ||| self == Modifier::Abstract && other == Modifier::Final
        ||| self == Modifier::Final && other == Modifier::Abstract
    }

    pub fn text(&self) -> (r: ByteString)
        ensures
            r@ == self.text_spec(),
    {
        match self {
            Modifier::Public => bytes("public"),
            Modifier::Protected => bytes("protected"),
            Modifier::Private => bytes("private"),
            Modifier::Static => bytes("static"),
            Modifier::Abstract => bytes("abstract"),
            Modifier::Final => bytes("final"),
            Modifier::Readonly => bytes("readonly"),
        }
    }

    pub fn is_visible(&self) -> (b: bool)
        ensures
            b == self.is_visibility(),
    {
        matches!(self, Modifier::Public | Modifier::Protected | Modifier::Private)
    }

    pub fn allowed(&self, target: Target) -> (b: bool)
        ensures
            b == self.allowed_spec(target),
    {
        match target {
            Target::Class => matches!(
                self,
                Modifier::Abstract | Modifier::Final | Modifier::Readonly
            ),
            Target::Method => !matches!(self, Modifier::Readonly),
            Target::Property => !matches!(self, Modifier::Abstract | Modifier::Final),
            Target::PromotedProperty => self.is_visible() || matches!(self, Modifier::Readonly),
            Target::Constant => self.is_visible() || matches!(self, Modifier::Final),
        }
    }

    pub fn conflicts(&self, other: &Modifier) -> (b: bool)
        ensures
            b == self.conflicts_spec(*other),
    {
        (self.is_visible() && other.is_visible() && *self != *other) || (matches!(
            self,
            Modifier::Abstract
        ) && matches!(other, Modifier::Final)) || (matches!(self, Modifier::Final) && matches!(
            other,
            Modifier::Abstract
        ))
    }
}

/// Whether a list of modifiers may stand before `target`: each is allowed
/// there, none occurs twice, and no two exclude one another.
pub open spec fn acceptable(list: Seq<Placed>, target: Target) -> bool {
    &&& forall|i: int| 0 <= i < list.len() ==> (#[trigger] list[i]).modifier.allowed_spec(target)
    &&& forall|i: int, j: int|
        0 <= i < j < list.len() ==> (#[trigger] list[i]).modifier != (#[trigger] list[j]).modifier
            && !list[i].modifier.conflicts_spec(list[j].modifier)
}

/// Whether the list holds `modifier`.
pub open spec fn holds(list: Seq<Placed>, modifier: Modifier) -> bool {
    exists|i: int| 0 <= i < list.len() && (#[trigger] list[i]).modifier == modifier
}

/// Whether every position in the list is that of an input token of the
/// state.
pub open spec fn placed_in(list: Seq<Placed>, state: State) -> bool {
    forall|i: int| 0 <= i < list.len() ==> located(state.tokens@, (#[trigger] list[i]).span)
}

/// The modifier that the token `kind` stands for.
pub fn modifier(kind: &TokenKind) -> (r: Option<Modifier>)
    ensures
        r == modifier_of(*kind),
{
    match kind {
        TokenKind::Public => Some(Modifier::Public),
        TokenKind::Protected => Some(Modifier::Protected),
        TokenKind::Private => Some(Modifier::Private),
        TokenKind::Static => Some(Modifier::Static),
        TokenKind::Abstract => Some(Modifier::Abstract),
        TokenKind::Final => Some(Modifier::Final),
        TokenKind::Readonly => Some(Modifier::Readonly),
        _ => None,
    }
}

/// Whether the token at `pos` is a modifier that may stand before `target`,
/// or before anything where no target is given.
pub open spec fn is_modifier_at(tokens: Seq<Token>, pos: int, target: Option<Target>) -> bool {
    0 <= pos && pos + 1 < tokens.len() && match modifier_of(tokens[pos].kind) {
        Some(m) => match target {
            Some(t) => m.allowed_spec(t),
            None => true,
        },
        None => false,
    }
}

/// The index of the first token at or after `from` that is no such
/// modifier.
pub open spec fn modifiers_end(tokens: Seq<Token>, from: int, target: Option<Target>) -> int
    decreases tokens.len() - from,
{
    if is_modifier_at(tokens, from, target) {
        modifiers_end(tokens, from + 1, target)
    } else {
        from
    }
}

/// The modifiers that the tokens from `from` up to `to` stand for, each
/// with its position.
pub open spec fn placed(tokens: Seq<Token>, from: int, to: int) -> Seq<Placed> {
    Seq::new(
        (to - from) as nat,
        |i: int|
            Placed {
                modifier: modifier_of(tokens[from + i].kind)->Some_0,
                span: tokens[from + i].span,
            },
    )
}

/// Takes the modifier keywords under the cursor, in order, and stops at the
/// first token that is none.
pub fn collect(state: &mut State) -> (list: Vec<Placed>)
    requires
        old(state).wf(),
    ensures
        final(state).follows(*old(state)),
        final(state).comments == old(state).comments,
        final(state).position == old(state).position + list@.len(),
        final(state).position == modifiers_end(old(state).tokens@, old(state).position as int, None),
        list@ == placed(old(state).tokens@, old(state).position as int, final(state).position as int),
        modifier_of(final(state).kind()) is None,
        placed_in(list@, *old(state)),
        forall|i: int|
            0 <= i < list@.len() ==> modifier_of(
                old(state).tokens@[old(state).position + i].kind,
            ) == Some((#[trigger] list@[i]).modifier) && list@[i].span == old(state).tokens@[old(state).position + i].span,
{
    let mut list: Vec<Placed> = Vec::new();
    loop
        invariant
            state.follows(*old(state)),
            state.comments == old(state).comments,
            state.position == old(state).position + list@.len(),
            modifiers_end(state.tokens@, state.position as int, None) == modifiers_end(
                old(state).tokens@,
                old(state).position as int,
                None,
            ),
            placed_in(list@, *old(state)),
            forall|i: int|
                0 <= i < list@.len() ==> modifier_of(
                    old(state).tokens@[old(state).position + i].kind,
                ) == Some((#[trigger] list@[i]).modifier) && list@[i].span == old(state).tokens@[old(state).position + i].span,
        ensures
            modifier_of(state.kind()) is None,
            state.position == modifiers_end(old(state).tokens@, old(state).position as int, None),
        decreases state.remaining(),
    {
        match modifier(&state.current().kind) {
            Some(m) => {
                let span = state.current().span;
                list.push(Placed { modifier: m, span });
                state.next();
            },
            None => {
                break ;
            },
        }
    }
    assert(list@ =~= placed(old(state).tokens@, old(state).position as int, state.position as int));
    list
}

/// Takes the modifier keywords under the cursor that may stand before
/// `target`, in order, and stops at the first token that is none of them.
pub fn collect_allowed(state: &mut State, target: Target) -> (list: Vec<Placed>)
    requires
        old(state).wf(),
    ensures
        final(state).follows(*old(state)),
        final(state).comments == old(state).comments,
        final(state).position == old(state).position + list@.len(),
        final(state).position == modifiers_end(
            old(state).tokens@,
            old(state).position as int,
            Some(target),
        ),
        list@ == placed(old(state).tokens@, old(state).position as int, final(state).position as int),
        match modifier_of(final(state).kind()) {
            Some(m) => !m.allowed_spec(target),
            None => true,
        },
        placed_in(list@, *old(state)),
        forall|i: int|
            0 <= i < list@.len() ==> modifier_of(
                old(state).tokens@[old(state).position + i].kind,
            ) == Some((#[trigger] list@[i]).modifier) && list@[i].modifier.allowed_spec(target)
                && list@[i].span == old(state).tokens@[old(state).position + i].span,
{
    let mut list: Vec<Placed> = Vec::new();
    loop
        invariant
            state.follows(*old(state)),
            state.comments == old(state).comments,
            state.position == old(state).position + list@.len(),
            modifiers_end(state.tokens@, state.position as int, Some(target)) == modifiers_end(
                old(state).tokens@,
                old(state).position as int,
                Some(target),
            ),
            placed_in(list@, *old(state)),
            forall|i: int|
                0 <= i < list@.len() ==> modifier_of(
                    old(state).tokens@[old(state).position + i].kind,
                ) == Some((#[trigger] list@[i]).modifier) && list@[i].modifier.allowed_spec(
                    target,
                ) && list@[i].span == old(state).tokens@[old(state).position + i].span,
        ensures
            state.position == modifiers_end(
                old(state).tokens@,
                old(state).position as int,
                Some(target),
            ),
            match modifier_of(state.kind()) {
                Some(m) => !m.allowed_spec(target),
                None => true,
            },
        decreases state.remaining(),
    {
        match modifier(&state.current().kind) {
            Some(m) => {
                if !m.allowed(target) {
                    break ;
                }
                let span = state.current().span;
                list.push(Placed { modifier: m, span });
                state.next();
            },
            None => {
                break ;
            },
        }
    }
    assert(list@ =~= placed(old(state).tokens@, old(state).position as int, state.position as int));
    list
}

/// What is wrong with a list of modifiers.
pub enum Violation {
    /// The modifier at the index may not stand there.
    Misplaced(int),
    /// The modifier at the index repeats an earlier one.
    Repeated(int),
    /// The modifier at the second index excludes the one at the first.
    Excluded(int, int),
}

/// How the modifier at `at` clashes with one of those from `from` on that
/// stand before it: with the first of them that it repeats or excludes.
pub open spec fn clash(list: Seq<Placed>, at: int, from: int) -> Option<Violation>
    decreases at - from,
{
    if !(0 <= from < at < list.len()) {
        None
    } else if list[from].modifier == list[at].modifier {
        Some(Violation::Repeated(at))
    } else if list[from].modifier.conflicts_spec(list[at].modifier) {
        Some(Violation::Excluded(from, at))
    } else {
        clash(list, at, from + 1)
    }
}

/// What is wrong with the modifier at `at`: it may not stand before
/// `target`, or it clashes with an earlier one.
pub open spec fn violation_at(list: Seq<Placed>, target: Target, at: int) -> Option<Violation> {
    if !list[at].modifier.allowed_spec(target) {
        Some(Violation::Misplaced(at))
    } else {
        clash(list, at, 0)
    }
}

/// The first thing that is wrong with the list from `from` on, in the
/// order of the modifiers.
pub open spec fn first_violation(list: Seq<Placed>, target: Target, from: int) -> Option<Violation>
    decreases list.len() - from,
{
    if !(0 <= from < list.len()) {
        None
    } else {
        match violation_at(list, target, from) {
            Some(v) => Some(v),
            None => first_violation(list, target, from + 1),
        }
    }
}

/// Whether the error tells the violation: it names the modifiers and
/// carries the position of the later one.
pub open spec fn tells(e: ParseError, v: Violation, list: Seq<Placed>) -> bool {
    match v {
        Violation::Misplaced(at) => match e {
            ParseError::UnexpectedModifier(text, span) => text@ == list[at].modifier.text_spec()
                && span == list[at].span,
            _ => false,
        },
        Violation::Repeated(at) => match e {
            ParseError::MultipleModifiers(text, span) => text@ == list[at].modifier.text_spec()
                && span == list[at].span,
            _ => false,
        },
        Violation::Excluded(first, second) => match e {
            ParseError::ConflictingModifiers(a, b, span) => a@ == list[first].modifier.text_spec()
                && b@ == list[second].modifier.text_spec() && span == list[second].span,
            _ => false,
        },
    }
}

/// What checking a list of modifiers gives: nothing where nothing is wrong,
/// else the error that tells the first violation.
pub open spec fn checked<T>(r: Result<T, ParseError>, list: Seq<Placed>, target: Target) -> bool {
    match first_violation(list, target, 0) {
        Some(v) => r is Err && tells(r->Err_0, v, list),
        None => r is Ok,
    }
}

/// A list with no violation is acceptable, and the other way round.
pub proof fn lemma_no_violation_is_acceptable(list: Seq<Placed>, target: Target)
    ensures
        first_violation(list, target, 0) is None <==> acceptable(list, target),
{
    lemma_violations_from(list, target, 0);
    if acceptable(list, target) {
        assert forall|i: int| 0 <= i < list.len() implies violation_at(list, target, i)
            is None by {
            lemma_clash_from(list, i, 0);
            assert(list[i].modifier.allowed_spec(target));
            assert forall|j: int| 0 <= j < i implies (#[trigger] list[j]).modifier
                != list[i].modifier && !list[j].modifier.conflicts_spec(list[i].modifier) by {
                assert(list[j].modifier != list[i].modifier);
            }
        }
    }
    if first_violation(list, target, 0) is None {
        assert forall|i: int, j: int| 0 <= i < j < list.len() implies (#[trigger] list[i]).modifier
            != (#[trigger] list[j]).modifier && !list[i].modifier.conflicts_spec(
            list[j].modifier,
        ) by {
            assert(violation_at(list, target, j) is None);
            lemma_clash_from(list, j, 0);
            assert(list[i].modifier != list[j].modifier && !list[i].modifier.conflicts_spec(
                list[j].modifier,
            ));
        }
        assert forall|i: int| 0 <= i < list.len() implies (#[trigger] list[i]).modifier.allowed_spec(
            target,
        ) by {
            assert(violation_at(list, target, i) is None);
        }
    }
}

/// No violation from `from` on means none at any index from there on, and
/// the other way round.
pub proof fn lemma_violations_from(list: Seq<Placed>, target: Target, from: int)
    requires
        0 <= from,
    ensures
        first_violation(list, target, from) is None <==> forall|i: int|
            from <= i < list.len() ==> violation_at(list, target, i) is None,
    decreases list.len() - from,
{
    if from < list.len() {
        lemma_violations_from(list, target, from + 1);
    }
}

/// No clash from `from` on means that the modifier at `at` neither repeats
/// nor excludes any earlier one from there on, and the other way round.
pub proof fn lemma_clash_from(list: Seq<Placed>, at: int, from: int)
    requires
        0 <= from,
        0 <= at < list.len(),
    ensures
        clash(list, at, from) is None <==> forall|j: int|
            from <= j < at ==> (#[trigger] list[j]).modifier != list[at].modifier
                && !list[j].modifier.conflicts_spec(list[at].modifier),
    decreases at - from,
{
    if from < at {
        lemma_clash_from(list, at, from + 1);
    }
}

/// Checks a list of modifiers against what it stands before.
///
/// The list is taken in order. The first modifier that may not stand
/// before `target`, or that repeats or excludes an earlier one, is
/// reported, at its own position.
pub fn check(list: &Vec<Placed>, target: Target) -> (r: Result<(), ParseError>)
    ensures
        checked(r, list@, target),
        r is Ok <==> acceptable(list@, target),
        r is Err ==> exists|i: int|
            0 <= i < list@.len() && r->Err_0.span_spec() == Some((#[trigger] list@[i]).span),
{
    proof {
        lemma_no_violation_is_acceptable(list@, target);
    }
    let mut i: usize = 0;
    while i < list.len()
        invariant
            i <= list@.len(),
            first_violation(list@, target, 0) == first_violation(list@, target, i as int),
        decreases list@.len() - i,
    {
        let current = list[i];
        if !current.modifier.allowed(target) {
            return Err(ParseError::UnexpectedModifier(current.modifier.text(), current.span));
        }
        let mut j: usize = 0;
        while j < i
            invariant
                j <= i < list@.len(),
                current == list@[i as int],
                current.modifier.allowed_spec(target),
                first_violation(list@, target, 0) == first_violation(list@, target, i as int),
                clash(list@, i as int, 0) == clash(list@, i as int, j as int),
            decreases i - j,
        {
            let earlier = list[j];
            if earlier.modifier == current.modifier {
                return Err(ParseError::MultipleModifiers(current.modifier.text(), current.span));
            }
            if earlier.modifier.conflicts(&current.modifier) {
                return Err(
                    ParseError::ConflictingModifiers(
                        earlier.modifier.text(),
                        current.modifier.text(),
                        current.span,
                    ),
                );
            }
            j = j + 1;
        }
        i = i + 1;
    }
    Ok(())
}

/// Whether the list holds `wanted`.
pub fn has(list: &Vec<Placed>, wanted: Modifier) -> (b: bool)
    ensures
        b == holds(list@, wanted),
{
    let mut i: usize = 0;
    while i < list.len()
        invariant
            i <= list@.len(),
            forall|k: int| 0 <= k < i ==> (#[trigger] list@[k]).modifier != wanted,
        decreases list@.len() - i,
    {
        if list[i].modifier == wanted {
            return true;
        }
        i = i + 1;
    }
    false
}

/// The class modifier for a modifier that a class accepts.
pub open spec fn class_modifier_of(m: Modifier) -> ClassModifier {
    match m {
        Modifier::Abstract => ClassModifier::Abstract,
        Modifier::Readonly => ClassModifier::Readonly,
        _ => ClassModifier::Final,
    }
}

/// The method modifier for a modifier that a method accepts.
pub open spec fn method_modifier_of(m: Modifier) -> MethodModifier {
    match m {
        Modifier::Public => MethodModifier::Public,
        Modifier::Protected => MethodModifier::Protected,
        Modifier::Private => MethodModifier::Private,
        Modifier::Static => MethodModifier::Static,
        Modifier::Abstract => MethodModifier::Abstract,
        _ => MethodModifier::Final,
    }
}

/// The property modifier for a modifier that a property accepts.
pub open spec fn property_modifier_of(m: Modifier) -> PropertyModifier {
    match m {
        Modifier::Public => PropertyModifier::Public,
        Modifier::Protected => PropertyModifier::Protected,
        Modifier::Private => PropertyModifier::Private,
        Modifier::Static => PropertyModifier::Static,
        _ => PropertyModifier::Readonly,
    }
}

/// The modifier of a promoted property for a modifier that one accepts.
pub open spec fn promoted_modifier_of(m: Modifier) -> PromotedPropertyModifier {
    match m {
        Modifier::Public => PromotedPropertyModifier::Public,
        Modifier::Protected => PromotedPropertyModifier::Protected,
        Modifier::Private => PromotedPropertyModifier::Private,
        _ => PromotedPropertyModifier::Readonly,
    }
}

/// The constant modifier for a modifier that a constant accepts.
pub open spec fn constant_modifier_of(m: Modifier) -> ConstantModifier {
    match m {
        Modifier::Public => ConstantModifier::Public,
        Modifier::Protected => ConstantModifier::Protected,
        Modifier::Private => ConstantModifier::Private,
        _ => ConstantModifier::Final,
    }
}

/// The modifiers of a class, in the order written.
pub fn class_group(list: &Vec<Placed>) -> (r: Result<Vec<ClassModifier>, ParseError>)
    ensures
        checked(r, list@, Target::Class),
        r is Ok <==> acceptable(list@, Target::Class),
        r is Ok ==> r->Ok_0@ == Seq::new(list@.len(), |i: int| class_modifier_of(list@[i].modifier)),
        r is Err ==> exists|i: int|
            0 <= i < list@.len() && r->Err_0.span_spec() == Some((#[trigger] list@[i]).span),
{
    check(list, Target::Class)?;
    let mut out: Vec<ClassModifier> = Vec::new();
    let mut i: usize = 0;
    while i < list.len()
        invariant
            i <= list@.len(),
            out@ == Seq::new(i as nat, |k: int| class_modifier_of(list@[k].modifier)),
        decreases list@.len() - i,
    {
        let m = match list[i].modifier {
            Modifier::Abstract => ClassModifier::Abstract,
            Modifier::Readonly => ClassModifier::Readonly,
            _ => ClassModifier::Final,
        };
        out.push(m);
        i = i + 1;
        assert(out@ =~= Seq::new(i as nat, |k: int| class_modifier_of(list@[k].modifier)));
    }
    Ok(out)
}

/// The modifiers of a method, in the order written.
pub fn method_group(list: &Vec<Placed>) -> (r: Result<Vec<MethodModifier>, ParseError>)
    ensures
        checked(r, list@, Target::Method),
        r is Ok <==> acceptable(list@, Target::Method),
        r is Ok ==> r->Ok_0@ == Seq::new(
            list@.len(),
            |i: int| method_modifier_of(list@[i].modifier),
        ),
        r is Err ==> exists|i: int|
            0 <= i < list@.len() && r->Err_0.span_spec() == Some((#[trigger] list@[i]).span),
{
    check(list, Target::Method)?;
    let mut out: Vec<MethodModifier> = Vec::new();
    let mut i: usize = 0;
    while i < list.len()
        invariant
            i <= list@.len(),
            out@ == Seq::new(i as nat, |k: int| method_modifier_of(list@[k].modifier)),
        decreases list@.len() - i,
    {
        let m = match list[i].modifier {
            Modifier::Public => MethodModifier::Public,
            Modifier::Protected => MethodModifier::Protected,
            Modifier::Private => MethodModifier::Private,
            Modifier::Static => MethodModifier::Static,
            Modifier::Abstract => MethodModifier::Abstract,
            _ => MethodModifier::Final,
        };
        out.push(m);
        i = i + 1;
        assert(out@ =~= Seq::new(i as nat, |k: int| method_modifier_of(list@[k].modifier)));
    }
    Ok(out)
}

/// The modifiers of a property, in the order written.
pub fn property_group(list: &Vec<Placed>) -> (r: Result<Vec<PropertyModifier>, ParseError>)
    ensures
        checked(r, list@, Target::Property),
        r is Ok <==> acceptable(list@, Target::Property),
        r is Ok ==> r->Ok_0@ == Seq::new(
            list@.len(),
            |i: int| property_modifier_of(list@[i].modifier),
        ),
        r is Err ==> exists|i: int|
            0 <= i < list@.len() && r->Err_0.span_spec() == Some((#[trigger] list@[i]).span),
{
    check(list, Target::Property)?;
    let mut out: Vec<PropertyModifier> = Vec::new();
    let mut i: usize = 0;
    while i < list.len()
        invariant
            i <= list@.len(),
            out@ == Seq::new(i as nat, |k: int| property_modifier_of(list@[k].modifier)),
        decreases list@.len() - i,
    {
        let m = match list[i].modifier {
            Modifier::Public => PropertyModifier::Public,
            Modifier::Protected => PropertyModifier::Protected,
            Modifier::Private => PropertyModifier::Private,
            Modifier::Static => PropertyModifier::Static,
            _ => PropertyModifier::Readonly,
        };
        out.push(m);
        i = i + 1;
        assert(out@ =~= Seq::new(i as nat, |k: int| property_modifier_of(list@[k].modifier)));
    }
    Ok(out)
}

/// The modifiers of a promoted property, in the order written.
pub fn promoted_property_group(list: &Vec<Placed>) -> (r: Result<
    Vec<PromotedPropertyModifier>,
    ParseError,
>)
    ensures
        checked(r, list@, Target::PromotedProperty),
        r is Ok <==> acceptable(list@, Target::PromotedProperty),
        r is Ok ==> r->Ok_0@ == Seq::new(
            list@.len(),
            |i: int| promoted_modifier_of(list@[i].modifier),
        ),
        r is Err ==> exists|i: int|
            0 <= i < list@.len() && r->Err_0.span_spec() == Some((#[trigger] list@[i]).span),
{
    check(list, Target::PromotedProperty)?;
    let mut out: Vec<PromotedPropertyModifier> = Vec::new();
    let mut i: usize = 0;
    while i < list.len()
        invariant
            i <= list@.len(),
            out@ == Seq::new(i as nat, |k: int| promoted_modifier_of(list@[k].modifier)),
        decreases list@.len() - i,
    {
        let m = match list[i].modifier {
            Modifier::Public => PromotedPropertyModifier::Public,
            Modifier::Protected => PromotedPropertyModifier::Protected,
            Modifier::Private => PromotedPropertyModifier::Private,
            _ => PromotedPropertyModifier::Readonly,
        };
        out.push(m);
        i = i + 1;
        assert(out@ =~= Seq::new(i as nat, |k: int| promoted_modifier_of(list@[k].modifier)));
    }
    Ok(out)
}

/// The modifiers of a constant, in the order written.
pub fn constant_group(list: &Vec<Placed>) -> (r: Result<Vec<ConstantModifier>, ParseError>)
    ensures
        checked(r, list@, Target::Constant),
        r is Ok <==> acceptable(list@, Target::Constant),
        r is Ok ==> r->Ok_0@ == Seq::new(
            list@.len(),
            |i: int| constant_modifier_of(list@[i].modifier),
        ),
        r is Err ==> exists|i: int|
            0 <= i < list@.len() && r->Err_0.span_spec() == Some((#[trigger] list@[i]).span),
{
    check(list, Target::Constant)?;
    let mut out: Vec<ConstantModifier> = Vec::new();
    let mut i: usize = 0;
    while i < list.len()
        invariant
            i <= list@.len(),
            out@ == Seq::new(i as nat, |k: int| constant_modifier_of(list@[k].modifier)),
        decreases list@.len() - i,
    {
        let m = match list[i].modifier {
            Modifier::Public => ConstantModifier::Public,
            Modifier::Protected => ConstantModifier::Protected,
            Modifier::Private => ConstantModifier::Private,
            _ => ConstantModifier::Final,
        };
        out.push(m);
        i = i + 1;
        assert(out@ =~= Seq::new(i as nat, |k: int| constant_modifier_of(list@[k].modifier)));
    }
    Ok(out)
}

/// No modifier occurs twice in an acceptable list, and at most one of its
/// modifiers is a visibility.
pub proof fn lemma_acceptable_is_deduplicated(list: Seq<Placed>, target: Target, i: int, j: int)
    requires
        acceptable(list, target),
        0 <= i < list.len(),
        0 <= j < list.len(),
        i != j,
    ensures
        list[i].modifier != list[j].modifier,
        !(list[i].modifier.is_visibility() && list[j].modifier.is_visibility()),
{
    if i < j {
        assert(list[i].modifier != list[j].modifier && !list[i].modifier.conflicts_spec(
            list[j].modifier,
        ));
    } else {
        assert(list[j].modifier != list[i].modifier && !list[j].modifier.conflicts_spec(
            list[i].modifier,
        ));
    }
}

} // verus!
