use crate::lexer::token::TokenKind;
use crate::parser::ast::attributes::AttributeGroup;
use crate::parser::ast::classes::ClassMember;
use crate::parser::ast::constant::ClassishConstant;
use crate::parser::ast::enums::EnumCase;
use crate::parser::ast::enums::EnumMember;
use crate::parser::ast::interfaces::InterfaceMember;
use crate::parser::ast::modifiers::VisibilityModifier;
use crate::parser::ast::properties::Property;
use crate::parser::ast::properties::VariableProperty;
use crate::parser::ast::traits::TraitUsage;
use crate::parser::ast::traits::TraitUsageAdaptation;
use crate::parser::ast::Expression;
use crate::parser::error::ParseError;
use crate::parser::error::ParseResult;
use crate::parser::internal::classes;
use crate::parser::ast::identifiers::Identifier;
use crate::parser::internal::classes::models_adaptation;
use crate::parser::internal::classes::models_optional_name;
use crate::parser::internal::grouping::named_at;
use crate::parser::internal::classes::models_class_member;
use crate::parser::internal::classes::models_constant;
use crate::parser::internal::classes::models_enum_member;
use crate::parser::internal::classes::models_interface_member;
use crate::parser::internal::classes::models_property;
use crate::parser::internal::classes::models_usage;
use crate::parser::internal::classes::models_variable_property;
use crate::parser::internal::classes::AdaptationShape;
use crate::parser::internal::classes::Classish;
use crate::parser::internal::classish::name_list;
use crate::parser::internal::data_type;
use crate::parser::internal::declarations::models_groups;
use crate::parser::internal::declarations::GroupShape;
use crate::parser::internal::grouping::reports;
use crate::parser::internal::grouping::Parsed;
use crate::parser::internal::identifiers;
use crate::parser::internal::modifiers;
use crate::parser::internal::modifiers::Modifier;
use crate::parser::internal::modifiers::Placed;
use crate::parser::internal::outcome::attributes_valid;
use crate::parser::internal::precedences::Precedence;
use crate::parser::internal::program::models_optional;
use crate::parser::internal::utils;
use crate::parser::state::State;
use crate::parser::Parser;
use vstd::prelude::*;

verus! {

/// The visibility that a token stands for.
pub open spec fn visibility_of(kind: TokenKind) -> Option<VisibilityModifier> {
    match kind {
        TokenKind::Public => Some(VisibilityModifier::Public),
        TokenKind::Protected => Some(VisibilityModifier::Protected),
        TokenKind::Private => Some(VisibilityModifier::Private),
        _ => None,
    }
}

/// The visibility that the token `kind` stands for.
pub fn visibility(kind: &TokenKind) -> (r: Option<VisibilityModifier>)
    ensures
        r == visibility_of(*kind),
{
    match kind {
        TokenKind::Public => Some(VisibilityModifier::Public),
        TokenKind::Protected => Some(VisibilityModifier::Protected),
        TokenKind::Private => Some(VisibilityModifier::Private),
        _ => None,
    }
}

/// Whether the modifiers are those that stand just before the cursor.
pub open spec fn stands_before(placed: Seq<Placed>, state: State) -> bool {
    &&& placed.len() <= state.position
    &&& placed == modifiers::placed(
        state.tokens@,
        state.position - placed.len(),
        state.position as int,
    )
}

/// Parses one adaptation of a trait usage, with its `;`.
///
/// The forms are `[T::]m as [visibility] alias`, `[T::]m as visibility`,
/// `[T::]m insteadof A, B` and `visibility m`. A visibility with an alias
/// gives `Alias`, one without gives `Visibility`, and `insteadof` gives
/// `Precedence` with at least one trait.
#[verifier::spinoff_prover]
pub(crate) fn adaptation(state: &mut State) -> (r: ParseResult<TraitUsageAdaptation>)
    requires
        old(state).wf(),
    ensures
        final(state).follows(*old(state)),
        final(state).comments == old(state).comments,
        match r {
            Ok(a) => a.valid(old(state).tokens@) && final(state).position > old(state).position,
            Err(e) => e.valid(old(state).tokens@),
        },
        match classes::adaptation(old(state).tokens@, old(state).position as int) {
            Parsed::Tree(shape, end) => r is Ok && models_adaptation(
                r->Ok_0,
                shape,
                old(state).tokens@,
            ) && final(state).position == end,
            Parsed::Fails(fault) => r is Err && reports(r->Err_0, fault, old(state).tokens@),
            Parsed::Other => false,
        },
{
    reveal(classes::adaptation);
    match visibility(&state.current().kind) {
        Some(visibility) => {
            state.next();
            let method = identifiers::ident(state)?;
            utils::skip_semicolon(state)?;
            return Ok(TraitUsageAdaptation::Visibility { trait_name: None, method, visibility });
        },
        None => {},
    }
    let trait_name = if matches!(state.peek().kind, TokenKind::DoubleColon) {
        let name = identifiers::full_name(state)?;
        utils::skip_double_colon(state)?;
        Some(name)
    } else {
        None
    };
    let method = identifiers::ident(state)?;
    proof {
        let qualifier = if trait_name is Some {
            Some(old(state).position as int)
        } else {
            None
        };
        assert(models_optional_name(trait_name, qualifier, state.tokens@));
    }
    match &state.current().kind {
        TokenKind::As => aliased(state, trait_name, method),
        TokenKind::Insteadof => {
            state.next();
            let insteadof = name_list(state)?;
            utils::skip_semicolon(state)?;
            Ok(TraitUsageAdaptation::Precedence { trait_name, method, insteadof })
        },
        _ => Err(utils::expected(state, utils::two("`as`", "`insteadof`"))),
    }
}

/// Parses what gives the method another name or visibility, the cursor
/// being on `as`: `[visibility] alias` or `visibility`, with the `;`.
#[verifier::spinoff_prover]
fn aliased(state: &mut State, trait_name: Option<Identifier>, method: Identifier) -> (r:
    ParseResult<TraitUsageAdaptation>)
    requires
        old(state).wf(),
        old(state).kind() is As,
        old(state).position > 0,
        named_at(method, old(state).tokens@, old(state).position - 1),
        match trait_name {
            Some(name) => name.valid(old(state).tokens@),
            None => true,
        },
    ensures
        final(state).follows(*old(state)),
        final(state).comments == old(state).comments,
        match r {
            Ok(a) => a.valid(old(state).tokens@) && final(state).position > old(state).position,
            Err(e) => e.valid(old(state).tokens@),
        },
        forall|qualifier: Option<int>| #[trigger]
            models_optional_name(trait_name, qualifier, old(state).tokens@) ==> match classes::aliased(
                old(state).tokens@,
                qualifier,
                old(state).position - 1,
                old(state).position + 1,
            ) {
                Parsed::Tree(shape, end) => r is Ok && models_adaptation(
                    r->Ok_0,
                    shape,
                    old(state).tokens@,
                ) && final(state).position == end,
                Parsed::Fails(fault) => r is Err && reports(r->Err_0, fault, old(state).tokens@),
                Parsed::Other => false,
            },
{
    reveal(classes::aliased);
    state.next();
    match visibility(&state.current().kind) {
        Some(visibility) => {
            state.next();
            if matches!(state.current().kind, TokenKind::SemiColon) {
                state.next();
                Ok(TraitUsageAdaptation::Visibility { trait_name, method, visibility })
            } else {
                let alias = identifiers::name(state)?;
                utils::skip_semicolon(state)?;
                Ok(
                    TraitUsageAdaptation::Alias {
                        trait_name,
                        method,
                        alias,
                        visibility: Some(visibility),
                    },
                )
            }
        },
        None => {
            let alias = identifiers::name(state)?;
            utils::skip_semicolon(state)?;
            Ok(TraitUsageAdaptation::Alias { trait_name, method, alias, visibility: None })
        },
    }
}

/// Parses the adaptations of a trait usage up to `}`, which is taken.
fn adaptations(state: &mut State) -> (r: ParseResult<Vec<TraitUsageAdaptation>>)
    requires
        old(state).wf(),
    ensures
        final(state).follows(*old(state)),
        match r {
            Ok(list) => forall|i: int|
                0 <= i < list@.len() ==> (#[trigger] list@[i]).valid(old(state).tokens@),
            Err(e) => e.valid(old(state).tokens@),
        },
        match classes::adaptations(old(state).tokens@, old(state).position as int, Seq::empty()) {
            Parsed::Tree(shapes, end) => r is Ok && final(state).position == end
                && r->Ok_0@.len() == shapes.len() && forall|i: int|
                0 <= i < shapes.len() ==> models_adaptation(
                    r->Ok_0@[i],
                    #[trigger] shapes[i],
                    old(state).tokens@,
                ),
            Parsed::Fails(fault) => r is Err && reports(r->Err_0, fault, old(state).tokens@),
            Parsed::Other => false,
        },
{
    let ghost goal = classes::adaptations(state.tokens@, state.position as int, Seq::empty());
    let mut list: Vec<TraitUsageAdaptation> = Vec::new();
    let ghost mut shapes: Seq<AdaptationShape> = Seq::empty();
    loop
        invariant_except_break
            classes::adaptations(
                state.tokens@,
                state.position as int,
                shapes,
            ) == goal,
        invariant
            state.follows(*old(state)),
            goal == classes::adaptations(
                old(state).tokens@,
                old(state).position as int,
                Seq::empty(),
            ),
            forall|i: int| 0 <= i < list@.len() ==> (#[trigger] list@[i]).valid(state.tokens@),
            list@.len() == shapes.len() && forall|i: int|
                0 <= i < shapes.len() ==> models_adaptation(
                    list@[i],
                    #[trigger] shapes[i],
                    state.tokens@,
                ),
        ensures
            state.kind() is RightBrace,
            goal == Parsed::<Seq<AdaptationShape>>::Tree(
                shapes,
                state.position + 1,
            ),
        decreases state.remaining(),
    {
        state.skip_comments();
        if matches!(state.current().kind, TokenKind::RightBrace) {
            break ;
        }
        let ghost said = classes::adaptation(state.tokens@, state.position as int);
        let a = adaptation(state)?;
        list.push(a);
        proof {
            if said is Tree {
                shapes = shapes.push(said->Tree_0);
            }
        }
    }
    state.next();
    Ok(list)
}

/// Parses a trait usage, the cursor being on `use`: the traits, then `;` or
/// the adaptations between braces.
pub(crate) fn trait_usage(state: &mut State) -> (r: ParseResult<TraitUsage>)
    requires
        old(state).wf(),
        old(state).kind() is Use,
    ensures
        final(state).follows(*old(state)),
        match r {
            Ok(u) => u.valid(old(state).tokens@) && final(state).position > old(state).position,
            Err(e) => e.valid(old(state).tokens@),
        },
        match classes::trait_usage(old(state).tokens@, old(state).position as int) {
            Parsed::Tree(shape, end) => r is Ok && models_usage(r->Ok_0, shape, old(state).tokens@)
                && final(state).position == end,
            Parsed::Fails(fault) => r is Err && reports(r->Err_0, fault, old(state).tokens@),
            Parsed::Other => false,
        },
{
    reveal(classes::trait_usage);
    state.next();
    let traits = name_list(state)?;
    let adaptations = if matches!(state.current().kind, TokenKind::LeftBrace) {
        state.next();
        adaptations(state)?
    } else {
        utils::skip_semicolon(state)?;
        Vec::new()
    };
    Ok(TraitUsage { traits, adaptations })
}

impl Parser {
    /// Parses a value after `=`, or nothing where the cursor is not on `=`.
    pub(crate) fn initializer(&self, state: &mut State) -> (r: ParseResult<Option<Expression>>)
        requires
            old(state).wf(),
        ensures
            final(state).follows(*old(state)),
            match r {
                Ok(value) => match value {
                    Some(e) => e.valid(old(state).tokens@),
                    None => true,
                },
                Err(e) => e.valid(old(state).tokens@),
            },
            match classes::initializer(
                old(state).tokens@,
                old(state).position as int,
                old(state).scope(),
            ) {
                Parsed::Tree(shape, end) => r is Ok && models_optional(
                    r->Ok_0,
                    shape,
                    old(state).tokens@,
                ) && final(state).position == end,
                Parsed::Fails(fault) => r is Err && reports(r->Err_0, fault, old(state).tokens@),
                Parsed::Other => false,
            },
        decreases old(state).remaining(), 7nat,
    {
        if matches!(state.current().kind, TokenKind::Equals) {
            state.next();
            Ok(Some(self.expression(state, Precedence::Lowest)?))
        } else {
            Ok(None)
        }
    }

    /// Parses a constant of a class-like body, the cursor being on `const`.
    fn classish_constant(
        &self,
        state: &mut State,
        attributes: Vec<AttributeGroup>,
        placed: &Vec<Placed>,
    ) -> (r: ParseResult<ClassishConstant>)
        requires
            old(state).wf(),
            old(state).kind() is Const,
            attributes_valid(attributes@, old(state).tokens@),
            modifiers::placed_in(placed@, *old(state)),
            stands_before(placed@, *old(state)),
        ensures
            final(state).follows(*old(state)),
            match r {
                Ok(c) => c.valid(old(state).tokens@) && final(state).position > old(state).position,
                Err(e) => e.valid(old(state).tokens@),
            },
            forall|groups: Seq<GroupShape>| #[trigger]
                models_groups(attributes@, groups, old(state).tokens@) ==> match classes::classish_constant(
                    old(state).tokens@,
                    old(state).position - placed@.len(),
                    old(state).position as int,
                    groups,
                    old(state).scope(),
                ) {
                    Parsed::Tree(shape, end) => r is Ok && models_constant(
                        r->Ok_0,
                        shape,
                        old(state).tokens@,
                    ) && final(state).position == end,
                    Parsed::Fails(fault) => r is Err && reports(
                        r->Err_0,
                        fault,
                        old(state).tokens@,
                    ),
                    Parsed::Other => false,
                },
        decreases old(state).remaining(), 1nat,
    {
        reveal(classes::classish_constant);
        let modifiers = match modifiers::constant_group(placed) {
            Ok(list) => list,
            Err(e) => {
                return Err(e);
            },
        };
        state.next();
        let name = identifiers::ident_maybe_reserved(state)?;
        utils::skip_equals(state)?;
        let value = self.expression(state, Precedence::Lowest)?;
        utils::skip_semicolon(state)?;
        Ok(ClassishConstant { attributes, modifiers, name, value })
    }

    /// Parses a property after its modifiers: type, variable, default value
    /// and `;`.
    #[verifier::spinoff_prover]
    fn property(
        &self,
        state: &mut State,
        attributes: Vec<AttributeGroup>,
        placed: &Vec<Placed>,
    ) -> (r: ParseResult<Property>)
        requires
            old(state).wf(),
            attributes_valid(attributes@, old(state).tokens@),
            modifiers::placed_in(placed@, *old(state)),
            stands_before(placed@, *old(state)),
        ensures
            final(state).follows(*old(state)),
            match r {
                Ok(p) => p.valid(old(state).tokens@) && final(state).position > old(state).position,
                Err(e) => e.valid(old(state).tokens@),
            },
            forall|groups: Seq<GroupShape>| #[trigger]
                models_groups(attributes@, groups, old(state).tokens@) ==> match classes::property(
                    old(state).tokens@,
                    old(state).position - placed@.len(),
                    old(state).position as int,
                    groups,
                    old(state).scope(),
                ) {
                    Parsed::Tree(shape, end) => r is Ok && models_property(
                        r->Ok_0,
                        shape,
                        old(state).tokens@,
                    ) && final(state).position == end,
                    Parsed::Fails(fault) => r is Err && reports(
                        r->Err_0,
                        fault,
                        old(state).tokens@,
                    ),
                    Parsed::Other => false,
                },
        decreases old(state).remaining(), 1nat,
    {
        reveal(classes::property);
        let modifiers = match modifiers::property_group(placed) {
            Ok(list) => list,
            Err(e) => {
                return Err(e);
            },
        };
        let ty = data_type::optional_type(state)?;
        let span = state.current().span;
        let var = identifiers::var(state)?;
        let readonly = modifiers::has(placed, Modifier::Readonly);
        if readonly && modifiers::has(placed, Modifier::Static) {
            return Err(ParseError::StaticPropertyUsingReadonlyModifier(var.name, span));
        }
        if readonly && ty.is_none() {
            return Err(ParseError::MissingTypeForReadonlyProperty(var.name, span));
        }
        if readonly && matches!(state.current().kind, TokenKind::Equals) {
            return Err(ParseError::ReadonlyPropertyHasDefaultValue(var.name, span));
        }
        let value = self.initializer(state)?;
        utils::skip_semicolon(state)?;
        Ok(Property { attributes, modifiers, ty, var, value })
    }

    /// Parses a property declared with `var`, the cursor being on `var`.
    fn variable_property(&self, state: &mut State, attributes: Vec<AttributeGroup>) -> (r:
        ParseResult<VariableProperty>)
        requires
            old(state).wf(),
            old(state).kind() is Var,
            attributes_valid(attributes@, old(state).tokens@),
        ensures
            final(state).follows(*old(state)),
            match r {
                Ok(p) => p.valid(old(state).tokens@) && final(state).position > old(state).position,
                Err(e) => e.valid(old(state).tokens@),
            },
            forall|groups: Seq<GroupShape>| #[trigger]
                models_groups(attributes@, groups, old(state).tokens@) ==> match classes::variable_property(
                    old(state).tokens@,
                    old(state).position as int,
                    groups,
                    old(state).scope(),
                ) {
                    Parsed::Tree(shape, end) => r is Ok && models_variable_property(
                        r->Ok_0,
                        shape,
                        old(state).tokens@,
                    ) && final(state).position == end,
                    Parsed::Fails(fault) => r is Err && reports(
                        r->Err_0,
                        fault,
                        old(state).tokens@,
                    ),
                    Parsed::Other => false,
                },
        decreases old(state).remaining(), 1nat,
    {
        reveal(classes::variable_property);
        state.next();
        let ty = data_type::optional_type(state)?;
        let var = identifiers::var(state)?;
        let value = self.initializer(state)?;
        utils::skip_semicolon(state)?;
        Ok(VariableProperty { attributes, ty, var, value })
    }

    /// Parses one member of a class or trait: a trait usage, a constant, a
    /// property or a method, with its attributes and modifiers.
    #[verifier::spinoff_prover]
    pub(crate) fn class_member(&self, state: &mut State) -> (r: ParseResult<ClassMember>)
        requires
            old(state).wf(),
        ensures
            final(state).follows(*old(state)),
            match r {
                Ok(m) => m.valid(old(state).tokens@) && final(state).position > old(state).position,
                Err(e) => e.valid(old(state).tokens@),
            },
            match classes::member(
                old(state).tokens@,
                old(state).position as int,
                Classish::Class,
                old(state).scope(),
            ) {
                Parsed::Tree(shape, end) => r is Ok && models_class_member(
                    r->Ok_0,
                    shape,
                    old(state).tokens@,
                ) && final(state).position == end,
                Parsed::Fails(fault) => r is Err && reports(r->Err_0, fault, old(state).tokens@),
                Parsed::Other => false,
            },
            classes::member(
                old(state).tokens@,
                old(state).position as int,
                Classish::Trait,
                old(state).scope(),
            ) == classes::member(
                old(state).tokens@,
                old(state).position as int,
                Classish::Class,
                old(state).scope(),
            ),
        decreases old(state).remaining(), 5nat,
    {
        reveal(classes::member_after);
        let attributes = self.gather_attributes(state)?;
        if matches!(state.current().kind, TokenKind::Use) {
            if attributes.len() > 0 {
                return Err(
                    ParseError::ExpectedItemDefinitionAfterAttributes(state.current().span),
                );
            }
            let usage = trait_usage(state)?;
            return Ok(ClassMember::TraitUsage(usage));
        }
        if matches!(state.current().kind, TokenKind::Var) {
            let property = self.variable_property(state, attributes)?;
            return Ok(ClassMember::VariableProperty(property));
        }
        let placed = modifiers::collect(state);
        match &state.current().kind {
            TokenKind::Const => {
                let constant = self.classish_constant(state, attributes, &placed)?;
                Ok(ClassMember::Constant(constant))
            },
            TokenKind::Function => {
                let method = self.method(state, attributes, &placed)?;
                Ok(ClassMember::Method(method))
            },
            _ => {
                let property = self.property(state, attributes, &placed)?;
                Ok(ClassMember::Property(property))
            },
        }
    }

    /// Parses one member of an interface: a constant or a method.
    #[verifier::spinoff_prover]
    pub(crate) fn interface_member(&self, state: &mut State) -> (r: ParseResult<InterfaceMember>)
        requires
            old(state).wf(),
        ensures
            final(state).follows(*old(state)),
            match r {
                Ok(m) => m.valid(old(state).tokens@) && final(state).position > old(state).position,
                Err(e) => e.valid(old(state).tokens@),
            },
            match classes::member(
                old(state).tokens@,
                old(state).position as int,
                Classish::Interface,
                old(state).scope(),
            ) {
                Parsed::Tree(shape, end) => r is Ok && models_interface_member(
                    r->Ok_0,
                    shape,
                    old(state).tokens@,
                ) && final(state).position == end,
                Parsed::Fails(fault) => r is Err && reports(r->Err_0, fault, old(state).tokens@),
                Parsed::Other => false,
            },
        decreases old(state).remaining(), 5nat,
    {
        reveal(classes::member_after);
        let attributes = self.gather_attributes(state)?;
        let placed = modifiers::collect(state);
        match &state.current().kind {
            TokenKind::Const => {
                let constant = self.classish_constant(state, attributes, &placed)?;
                Ok(InterfaceMember::Constant(constant))
            },
            TokenKind::Function => {
                let method = self.method(state, attributes, &placed)?;
                Ok(InterfaceMember::Method(method))
            },
            _ => Err(utils::expected(state, utils::two("`const`", "`function`"))),
        }
    }

    /// Parses one member of an enum: a case, a constant, a trait usage or a
    /// method.
    #[verifier::spinoff_prover]
    pub(crate) fn enum_member(&self, state: &mut State) -> (r: ParseResult<EnumMember>)
        requires
            old(state).wf(),
        ensures
            final(state).follows(*old(state)),
            match r {
                Ok(m) => m.valid(old(state).tokens@) && final(state).position > old(state).position,
                Err(e) => e.valid(old(state).tokens@),
            },
            match classes::member(
                old(state).tokens@,
                old(state).position as int,
                Classish::Enum,
                old(state).scope(),
            ) {
                Parsed::Tree(shape, end) => r is Ok && models_enum_member(
                    r->Ok_0,
                    shape,
                    old(state).tokens@,
                ) && final(state).position == end,
                Parsed::Fails(fault) => r is Err && reports(r->Err_0, fault, old(state).tokens@),
                Parsed::Other => false,
            },
        decreases old(state).remaining(), 5nat,
    {
        reveal(classes::member_after);
        let attributes = self.gather_attributes(state)?;
        if matches!(state.current().kind, TokenKind::Case) {
            state.next();
            let name = identifiers::ident_maybe_reserved(state)?;
            let value = self.initializer(state)?;
            utils::skip_semicolon(state)?;
            return Ok(EnumMember::Case(EnumCase { attributes, name, value }));
        }
        if matches!(state.current().kind, TokenKind::Use) {
            if attributes.len() > 0 {
                return Err(
                    ParseError::ExpectedItemDefinitionAfterAttributes(state.current().span),
                );
            }
            let usage = trait_usage(state)?;
            return Ok(EnumMember::TraitUsage(usage));
        }
        let placed = modifiers::collect(state);
        match &state.current().kind {
            TokenKind::Const => {
                let constant = self.classish_constant(state, attributes, &placed)?;
                Ok(EnumMember::Constant(constant))
            },
            TokenKind::Function => {
                let method = self.method(state, attributes, &placed)?;
                Ok(EnumMember::Method(method))
            },
            _ => Err(utils::expected(state, utils::three("`case`", "`const`", "`function`"))),
        }
    }
}

} // verus!
