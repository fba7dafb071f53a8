use crate::lexer::token::Span;
use crate::lexer::token::TokenKind;
use crate::parser::ast::attributes::AttributeGroup;
use crate::parser::ast::classes::AnonymousClass;
use crate::parser::ast::classes::Class;
use crate::parser::ast::classes::ClassMember;
use crate::parser::ast::enums::BackedEnumType;
use crate::parser::ast::enums::Enum;
use crate::parser::ast::enums::EnumMember;
use crate::parser::ast::identifiers::identifiers_valid;
use crate::parser::ast::identifiers::Identifier;
use crate::parser::ast::interfaces::Interface;
use crate::parser::ast::interfaces::InterfaceMember;
use crate::parser::ast::traits::Trait;
use crate::parser::ast::traits::TraitMember;
use crate::parser::ast::Expression;
use crate::parser::ast::Statement;
use crate::parser::error::ParseResult;
use crate::parser::internal::classes;
use crate::parser::internal::closures;
use crate::parser::internal::closures::models_anonymous_class;
use crate::parser::internal::grouping;
use crate::parser::internal::grouping::agrees;
use crate::parser::internal::grouping::models;
use crate::parser::internal::grouping::models_args;
use crate::parser::internal::classes::models_class_member;
use crate::parser::internal::classes::models_enum_member;
use crate::parser::internal::classes::models_interface_member;
use crate::parser::internal::classes::models_names;
use crate::parser::internal::classes::models_trait_member;
use crate::parser::internal::classes::names_agree;
use crate::parser::internal::classes::Classish;
use crate::parser::internal::classes::MemberShape;
use crate::parser::internal::declarations::models_groups;
use crate::parser::internal::declarations::GroupShape;
use crate::parser::internal::grouping::named_at;
use crate::parser::internal::grouping::reports;
use crate::parser::internal::grouping::Parsed;
use crate::parser::internal::grouping::Scope;
use crate::parser::internal::identifiers;
use crate::parser::internal::modifiers;
use crate::parser::internal::outcome::attributes_valid;
use crate::parser::internal::outcome::expression_outcome;
use crate::parser::internal::outcome::statement_outcome;
use crate::parser::internal::program;
use crate::parser::internal::program::statement_agrees;
use crate::parser::internal::utils;
use crate::parser::state::State;
use crate::parser::Parser;
use vstd::prelude::*;
use vstd::string::StringSliceAdditionalSpecFns;

verus! {

/// Parses names separated by commas, at least one.
pub(crate) fn name_list(state: &mut State) -> (r: ParseResult<Vec<Identifier>>)
    requires
        old(state).wf(),
    ensures
        final(state).follows(*old(state)),
        final(state).comments == old(state).comments,
        match r {
            Ok(list) => {
                &&& list@.len() > 0
                &&& identifiers_valid(list@, old(state).tokens@)
                &&& final(state).position > old(state).position
            },
            Err(e) => e.valid(old(state).tokens@),
        },
        names_agree(
            classes::name_list(old(state).tokens@, old(state).position as int, Seq::empty()),
            old(state).tokens@,
            r,
            final(state).position as int,
        ),
        r is Ok ==> classes::name_list(
            old(state).tokens@,
            old(state).position as int,
            Seq::empty(),
        )->Tree_0.len() > 0,
{
    let ghost goal = classes::name_list(state.tokens@, state.position as int, Seq::empty());
    let mut list: Vec<Identifier> = Vec::new();
    let ghost mut shapes: Seq<int> = Seq::empty();
    loop
        invariant_except_break
            classes::name_list(state.tokens@, state.position as int, shapes)
                == goal,
        invariant
            state.follows(*old(state)),
            state.comments == old(state).comments,
            goal == classes::name_list(
                old(state).tokens@,
                old(state).position as int,
                Seq::empty(),
            ),
            list@.len() > 0 ==> state.position > old(state).position,
            identifiers_valid(list@, state.tokens@),
            models_names(list@, shapes, state.tokens@),
        ensures
            list@.len() > 0,
            state.position > old(state).position,
            goal == Parsed::<Seq<int>>::Tree(shapes, state.position as int)
                && shapes.len() > 0,
        decreases state.remaining(),
    {
        let ghost at = state.position as int;
        let next = identifiers::full_name(state)?;
        list.push(next);
        proof {
            shapes = shapes.push(at);
        }
        if matches!(state.current().kind, TokenKind::Comma) {
            state.next();
        } else {
            break ;
        }
    }
    Ok(list)
}

/// Parses `extends name` where the cursor is on `extends`.
pub(crate) fn extends(state: &mut State) -> (r: ParseResult<Option<Identifier>>)
    requires
        old(state).wf(),
    ensures
        final(state).follows(*old(state)),
        final(state).comments == old(state).comments,
        match r {
            Ok(parent) => {
                &&& parent is Some <==> old(state).kind() is Extends
                &&& parent is Some ==> parent->Some_0.valid(old(state).tokens@)
            },
            Err(e) => e.valid(old(state).tokens@),
        },
        match classes::extends(old(state).tokens@, old(state).position as int) {
            Parsed::Tree(at, end) => {
                &&& r is Ok
                &&& final(state).position == end
                &&& match r->Ok_0 {
                    Some(parent) => at.len() == 1 && named_at(parent, old(state).tokens@, at[0]),
                    None => at.len() == 0,
                }
            },
            Parsed::Fails(fault) => r is Err && reports(r->Err_0, fault, old(state).tokens@),
            Parsed::Other => false,
        },
{
    if matches!(state.current().kind, TokenKind::Extends) {
        state.next();
        Ok(Some(identifiers::full_name(state)?))
    } else {
        Ok(None)
    }
}

/// Parses the names after a keyword: after `implements`, or after the
/// `extends` of an interface. `present` says that the cursor is on the
/// keyword; else there are no names.
pub(crate) fn names_after(state: &mut State, present: bool) -> (r: ParseResult<Vec<Identifier>>)
    requires
        old(state).wf(),
        present ==> !(old(state).kind() is Eof),
    ensures
        final(state).follows(*old(state)),
        final(state).comments == old(state).comments,
        match r {
            Ok(list) => identifiers_valid(list@, old(state).tokens@),
            Err(e) => e.valid(old(state).tokens@),
        },
        names_agree(
            classes::names_after(old(state).tokens@, old(state).position as int, present),
            old(state).tokens@,
            r,
            final(state).position as int,
        ),
{
    if present {
        state.next();
        name_list(state)
    } else {
        Ok(Vec::new())
    }
}

impl Parser {
    /// Parses a class, the cursor being on its first modifier or on `class`.
    ///
    /// Inside the body `self` and `static` are in scope, and `parent` where
    /// the class extends another; on every way out the scope is what it was
    /// before.
    #[verifier::spinoff_prover]
    pub(crate) fn class_definition(&self, state: &mut State, attributes: Vec<AttributeGroup>) -> (r:
        ParseResult<Statement>)
        requires
            old(state).wf(),
            old(state).kind() is Class || modifiers::modifier_of(old(state).kind()) is Some,
            attributes_valid(attributes@, old(state).tokens@),
        ensures
            statement_outcome(*old(state), *final(state), r),
            r is Ok ==> r->Ok_0 is Class,
            forall|groups: Seq<GroupShape>| #[trigger]
                models_groups(attributes@, groups, old(state).tokens@) ==> statement_agrees(
                    program::classish(old(state).tokens@, old(state).position as int, groups),
                    old(state).tokens@,
                    r,
                    final(state).position as int,
                ),
        decreases old(state).remaining(), 2nat,
    {
        reveal(classes::class_definition);
        let start = state.current().span;
        let placed = modifiers::collect(state);
        let modifiers = match modifiers::class_group(&placed) {
            Ok(list) => list,
            Err(e) => {
                return Err(e);
            },
        };
        let at = matches!(state.current().kind, TokenKind::Class);
        utils::skip_when(state, at, "`class`")?;
        let name = identifiers::ident(state)?;
        let extends = extends(state)?;
        let present = matches!(state.current().kind, TokenKind::Implements);
        let implements = names_after(state, present)?;
        let (members, end) = self.class_body(state, extends.is_some())?;
        let class = Class { start, end, name, attributes, modifiers, extends, implements, members };
        assert(class.valid(state.tokens@));
        Ok(Statement::Class(class))
    }

    /// Parses `new class`, the cursor being on `new`: the arguments, the
    /// parent, the interfaces and the body of a class without a name.
    #[verifier::spinoff_prover]
    #[verifier::rlimit(60)]
    pub(crate) fn anonymous_class_definition(&self, state: &mut State) -> (r: ParseResult<
        Expression,
    >)
        requires
            old(state).wf(),
            old(state).kind() is New,
        ensures
            expression_outcome(*old(state), *final(state), r),
            r is Ok ==> r->Ok_0 is New,
            agrees(
                closures::anonymous_class(
                    old(state).tokens@,
                    old(state).position as int,
                    old(state).scope(),
                ),
                old(state).tokens@,
                r,
                final(state).position as int,
            ),
        decreases old(state).remaining(), 1nat,
    {
        reveal(grouping::arguments);
        reveal(classes::enclosed);
        state.next();
        let attributes = self.gather_attributes(state)?;
        let start = state.current().span;
        let at = matches!(state.current().kind, TokenKind::Class);
        utils::skip_when(state, at, "`class`")?;
        let args = if matches!(state.current().kind, TokenKind::LeftParen) {
            self.args_list(state)?
        } else {
            Vec::new()
        };
        assert(args@.len() == 0 ==> models_args(args@, Seq::empty(), state.tokens@));
        let extends = extends(state)?;
        let present = matches!(state.current().kind, TokenKind::Implements);
        let implements = names_after(state, present)?;
        let (members, end) = self.class_body(state, extends.is_some())?;
        let class = AnonymousClass { start, end, attributes, extends, implements, members };
        assert(class.valid(state.tokens@));
        proof {
            let said = closures::anonymous_class(
                old(state).tokens@,
                old(state).position as int,
                old(state).scope(),
            );
            if said is Tree {
                let shape = (*said->Tree_0->New_0)->AnonymousClass_0;
                assert(models_anonymous_class(class, shape, state.tokens@));
                assert(models(Expression::AnonymousClass(class), *said->Tree_0->New_0, state.tokens@));
            }
        }
        let target = Expression::AnonymousClass(class);
        assert(target.valid(state.tokens@));
        Ok(Expression::New { target: Box::new(target), args })
    }

    /// Parses the body of a class between braces and gives its members and
    /// where the `}` stands. Inside, `self` and `static` are in scope, and
    /// `parent` as asked; on every way out the scope is what it was before.
    pub(crate) fn class_body(&self, state: &mut State, parent: bool) -> (r: ParseResult<
        (Vec<ClassMember>, Span),
    >)
        requires
            old(state).wf(),
        ensures
            final(state).follows(*old(state)),
            match r {
                Ok(body) => (exists|j: int|
                    old(state).position <= j < final(state).position && (#[trigger] old(state).tokens@[j]).span == body.1) && forall|i: int|
                    0 <= i < body.0@.len() ==> (#[trigger] body.0@[i]).valid(old(state).tokens@),
                Err(e) => e.valid(old(state).tokens@),
            },
            match classes::enclosed(
                old(state).tokens@,
                old(state).position as int,
                Classish::Class,
                (Scope { class: true, parent }),
            ) {
                Parsed::Tree(shapes, end) => r is Ok && final(state).position == end && 0 < end
                    <= old(state).tokens@.len() && r->Ok_0.1 == old(state).tokens@[end - 1].span
                    && r->Ok_0.0@.len() == shapes.len() && forall|i: int|
                    0 <= i < shapes.len() ==> models_class_member(
                        r->Ok_0.0@[i],
                        #[trigger] shapes[i],
                        old(state).tokens@,
                    ),
                Parsed::Fails(fault) => r is Err && reports(r->Err_0, fault, old(state).tokens@),
                Parsed::Other => false,
            },
        decreases old(state).remaining(), 7nat,
    {
        reveal(classes::enclosed);
        utils::skip_left_brace(state)?;
        let class_scope = state.has_class_scope;
        let parent_scope = state.has_class_parent_scope;
        state.has_class_scope = true;
        state.has_class_parent_scope = parent;
        let members = self.class_members(state);
        state.has_class_scope = class_scope;
        state.has_class_parent_scope = parent_scope;
        let members = members?;
        let end = state.current().span;
        utils::skip_right_brace(state)?;
        Ok((members, end))
    }

    /// Parses the members of a class up to `}`, which is left under the
    /// cursor.
    fn class_members(&self, state: &mut State) -> (r: ParseResult<Vec<ClassMember>>)
        requires
            old(state).wf(),
        ensures
            final(state).follows(*old(state)),
            match r {
                Ok(list) => forall|i: int|
                    0 <= i < list@.len() ==> (#[trigger] list@[i]).valid(old(state).tokens@),
                Err(e) => e.valid(old(state).tokens@),
            },
            match classes::members(
                old(state).tokens@,
                old(state).position as int,
                Classish::Class,
                Seq::empty(),
                old(state).scope(),
            ) {
                Parsed::Tree(shapes, end) => r is Ok && final(state).position == end
                    && r->Ok_0@.len() == shapes.len() && forall|i: int|
                    0 <= i < shapes.len() ==> models_class_member(
                        r->Ok_0@[i],
                        #[trigger] shapes[i],
                        old(state).tokens@,
                    ),
                Parsed::Fails(fault) => r is Err && reports(r->Err_0, fault, old(state).tokens@),
                Parsed::Other => false,
            },
        decreases old(state).remaining(), 6nat,
    {
        let ghost goal = classes::members(
            state.tokens@,
            state.position as int,
            Classish::Class,
            Seq::empty(),
            state.scope(),
        );
        let mut members: Vec<ClassMember> = Vec::new();
        let ghost mut shapes: Seq<MemberShape> = Seq::empty();
        loop
            invariant_except_break
                classes::members(
                    state.tokens@,
                    state.position as int,
                    Classish::Class,
                    shapes,
                    state.scope(),
                ) == goal,
            invariant
                state.follows(*old(state)),
                goal == classes::members(
                    old(state).tokens@,
                    old(state).position as int,
                    Classish::Class,
                    Seq::empty(),
                    old(state).scope(),
                ),
                forall|i: int|
                    0 <= i < members@.len() ==> (#[trigger] members@[i]).valid(state.tokens@),
                members@.len() == shapes.len() && forall|i: int|
                    0 <= i < shapes.len() ==> models_class_member(
                        members@[i],
                        #[trigger] shapes[i],
                        state.tokens@,
                    ),
            ensures
                goal == Parsed::<Seq<MemberShape>>::Tree(
                    shapes,
                    state.position as int,
                ),
            decreases state.remaining(),
        {
            state.skip_comments();
            if matches!(state.current().kind, TokenKind::RightBrace) {
                break ;
            }
            let ghost said = classes::member(
                state.tokens@,
                state.position as int,
                Classish::Class,
                state.scope(),
            );
            let member = self.class_member(state)?;
            members.push(member);
            proof {
                if said is Tree {
                    shapes = shapes.push(said->Tree_0);
                }
            }
        }
        Ok(members)
    }

    /// Parses an interface, the cursor being on `interface`.
    #[verifier::spinoff_prover]
    pub(crate) fn interface_definition(
        &self,
        state: &mut State,
        attributes: Vec<AttributeGroup>,
    ) -> (r: ParseResult<Statement>)
        requires
            old(state).wf(),
            old(state).kind() is Interface,
            attributes_valid(attributes@, old(state).tokens@),
        ensures
            statement_outcome(*old(state), *final(state), r),
            r is Ok ==> r->Ok_0 is Interface,
            forall|groups: Seq<GroupShape>| #[trigger]
                models_groups(attributes@, groups, old(state).tokens@) ==> statement_agrees(
                    program::classish(old(state).tokens@, old(state).position as int, groups),
                    old(state).tokens@,
                    r,
                    final(state).position as int,
                ),
        decreases old(state).remaining(), 2nat,
    {
        reveal(classes::interface_definition);
        let start = state.current().span;
        state.next();
        let name = identifiers::ident(state)?;
        let present = matches!(state.current().kind, TokenKind::Extends);
        let extends = names_after(state, present)?;
        let (members, end) = self.interface_body(state, false)?;
        let interface = Interface { start, end, name, attributes, extends, members };
        assert(interface.valid(state.tokens@));
        Ok(Statement::Interface(interface))
    }

    /// Parses the body of an interface between braces and gives its members and
    /// where the `}` stands. Inside, `self` and `static` are in scope, and
    /// `parent` as asked; on every way out the scope is what it was before.
    pub(crate) fn interface_body(&self, state: &mut State, parent: bool) -> (r: ParseResult<
        (Vec<InterfaceMember>, Span),
    >)
        requires
            old(state).wf(),
        ensures
            final(state).follows(*old(state)),
            match r {
                Ok(body) => (exists|j: int|
                    old(state).position <= j < final(state).position && (#[trigger] old(state).tokens@[j]).span == body.1) && forall|i: int|
                    0 <= i < body.0@.len() ==> (#[trigger] body.0@[i]).valid(old(state).tokens@),
                Err(e) => e.valid(old(state).tokens@),
            },
            match classes::enclosed(
                old(state).tokens@,
                old(state).position as int,
                Classish::Interface,
                (Scope { class: true, parent }),
            ) {
                Parsed::Tree(shapes, end) => r is Ok && final(state).position == end && 0 < end
                    <= old(state).tokens@.len() && r->Ok_0.1 == old(state).tokens@[end - 1].span
                    && r->Ok_0.0@.len() == shapes.len() && forall|i: int|
                    0 <= i < shapes.len() ==> models_interface_member(
                        r->Ok_0.0@[i],
                        #[trigger] shapes[i],
                        old(state).tokens@,
                    ),
                Parsed::Fails(fault) => r is Err && reports(r->Err_0, fault, old(state).tokens@),
                Parsed::Other => false,
            },
        decreases old(state).remaining(), 7nat,
    {
        reveal(classes::enclosed);
        utils::skip_left_brace(state)?;
        let class_scope = state.has_class_scope;
        let parent_scope = state.has_class_parent_scope;
        state.has_class_scope = true;
        state.has_class_parent_scope = parent;
        let members = self.interface_members(state);
        state.has_class_scope = class_scope;
        state.has_class_parent_scope = parent_scope;
        let members = members?;
        let end = state.current().span;
        utils::skip_right_brace(state)?;
        Ok((members, end))
    }

    /// Parses the members of an interface up to `}`.
    fn interface_members(&self, state: &mut State) -> (r: ParseResult<Vec<InterfaceMember>>)
        requires
            old(state).wf(),
        ensures
            final(state).follows(*old(state)),
            match r {
                Ok(list) => forall|i: int|
                    0 <= i < list@.len() ==> (#[trigger] list@[i]).valid(old(state).tokens@),
                Err(e) => e.valid(old(state).tokens@),
            },
            match classes::members(
                old(state).tokens@,
                old(state).position as int,
                Classish::Interface,
                Seq::empty(),
                old(state).scope(),
            ) {
                Parsed::Tree(shapes, end) => r is Ok && final(state).position == end
                    && r->Ok_0@.len() == shapes.len() && forall|i: int|
                    0 <= i < shapes.len() ==> models_interface_member(
                        r->Ok_0@[i],
                        #[trigger] shapes[i],
                        old(state).tokens@,
                    ),
                Parsed::Fails(fault) => r is Err && reports(r->Err_0, fault, old(state).tokens@),
                Parsed::Other => false,
            },
        decreases old(state).remaining(), 6nat,
    {
        let ghost goal = classes::members(
            state.tokens@,
            state.position as int,
            Classish::Interface,
            Seq::empty(),
            state.scope(),
        );
        let mut members: Vec<InterfaceMember> = Vec::new();
        let ghost mut shapes: Seq<MemberShape> = Seq::empty();
        loop
            invariant_except_break
                classes::members(
                    state.tokens@,
                    state.position as int,
                    Classish::Interface,
                    shapes,
                    state.scope(),
                ) == goal,
            invariant
                state.follows(*old(state)),
                goal == classes::members(
                    old(state).tokens@,
                    old(state).position as int,
                    Classish::Interface,
                    Seq::empty(),
                    old(state).scope(),
                ),
                forall|i: int|
                    0 <= i < members@.len() ==> (#[trigger] members@[i]).valid(state.tokens@),
                members@.len() == shapes.len() && forall|i: int|
                    0 <= i < shapes.len() ==> models_interface_member(
                        members@[i],
                        #[trigger] shapes[i],
                        state.tokens@,
                    ),
            ensures
                goal == Parsed::<Seq<MemberShape>>::Tree(
                    shapes,
                    state.position as int,
                ),
            decreases state.remaining(),
        {
            state.skip_comments();
            if matches!(state.current().kind, TokenKind::RightBrace) {
                break ;
            }
            let ghost said = classes::member(
                state.tokens@,
                state.position as int,
                Classish::Interface,
                state.scope(),
            );
            let member = self.interface_member(state)?;
            members.push(member);
            proof {
                if said is Tree {
                    shapes = shapes.push(said->Tree_0);
                }
            }
        }
        Ok(members)
    }

    /// Parses a trait, the cursor being on `trait`.
    #[verifier::spinoff_prover]
    pub(crate) fn trait_definition(&self, state: &mut State, attributes: Vec<AttributeGroup>) -> (r:
        ParseResult<Statement>)
        requires
            old(state).wf(),
            old(state).kind() is Trait,
            attributes_valid(attributes@, old(state).tokens@),
        ensures
            statement_outcome(*old(state), *final(state), r),
            r is Ok ==> r->Ok_0 is Trait,
            forall|groups: Seq<GroupShape>| #[trigger]
                models_groups(attributes@, groups, old(state).tokens@) ==> statement_agrees(
                    program::classish(old(state).tokens@, old(state).position as int, groups),
                    old(state).tokens@,
                    r,
                    final(state).position as int,
                ),
        decreases old(state).remaining(), 2nat,
    {
        reveal(classes::trait_definition);
        let start = state.current().span;
        state.next();
        let name = identifiers::ident(state)?;
        let (members, end) = self.trait_body(state, true)?;
        let node = Trait { start, end, name, attributes, members };
        assert(node.valid(state.tokens@));
        Ok(Statement::Trait(node))
    }

    /// Parses the body of a trait between braces and gives its members and
    /// where the `}` stands. Inside, `self` and `static` are in scope, and
    /// `parent` as asked; on every way out the scope is what it was before.
    pub(crate) fn trait_body(&self, state: &mut State, parent: bool) -> (r: ParseResult<
        (Vec<TraitMember>, Span),
    >)
        requires
            old(state).wf(),
        ensures
            final(state).follows(*old(state)),
            match r {
                Ok(body) => (exists|j: int|
                    old(state).position <= j < final(state).position && (#[trigger] old(state).tokens@[j]).span == body.1) && forall|i: int|
                    0 <= i < body.0@.len() ==> (#[trigger] body.0@[i]).valid(old(state).tokens@),
                Err(e) => e.valid(old(state).tokens@),
            },
            match classes::enclosed(
                old(state).tokens@,
                old(state).position as int,
                Classish::Trait,
                (Scope { class: true, parent }),
            ) {
                Parsed::Tree(shapes, end) => r is Ok && final(state).position == end && 0 < end
                    <= old(state).tokens@.len() && r->Ok_0.1 == old(state).tokens@[end - 1].span
                    && r->Ok_0.0@.len() == shapes.len() && forall|i: int|
                    0 <= i < shapes.len() ==> models_trait_member(
                        r->Ok_0.0@[i],
                        #[trigger] shapes[i],
                        old(state).tokens@,
                    ),
                Parsed::Fails(fault) => r is Err && reports(r->Err_0, fault, old(state).tokens@),
                Parsed::Other => false,
            },
        decreases old(state).remaining(), 7nat,
    {
        reveal(classes::enclosed);
        utils::skip_left_brace(state)?;
        let class_scope = state.has_class_scope;
        let parent_scope = state.has_class_parent_scope;
        state.has_class_scope = true;
        state.has_class_parent_scope = parent;
        let members = self.trait_members(state);
        state.has_class_scope = class_scope;
        state.has_class_parent_scope = parent_scope;
        let members = members?;
        let end = state.current().span;
        utils::skip_right_brace(state)?;
        Ok((members, end))
    }

    /// Parses the members of a trait up to `}`.
    fn trait_members(&self, state: &mut State) -> (r: ParseResult<Vec<TraitMember>>)
        requires
            old(state).wf(),
        ensures
            final(state).follows(*old(state)),
            match r {
                Ok(list) => forall|i: int|
                    0 <= i < list@.len() ==> (#[trigger] list@[i]).valid(old(state).tokens@),
                Err(e) => e.valid(old(state).tokens@),
            },
            match classes::members(
                old(state).tokens@,
                old(state).position as int,
                Classish::Trait,
                Seq::empty(),
                old(state).scope(),
            ) {
                Parsed::Tree(shapes, end) => r is Ok && final(state).position == end
                    && r->Ok_0@.len() == shapes.len() && forall|i: int|
                    0 <= i < shapes.len() ==> models_trait_member(
                        r->Ok_0@[i],
                        #[trigger] shapes[i],
                        old(state).tokens@,
                    ),
                Parsed::Fails(fault) => r is Err && reports(r->Err_0, fault, old(state).tokens@),
                Parsed::Other => false,
            },
        decreases old(state).remaining(), 6nat,
    {
        let ghost goal = classes::members(
            state.tokens@,
            state.position as int,
            Classish::Trait,
            Seq::empty(),
            state.scope(),
        );
        let mut members: Vec<TraitMember> = Vec::new();
        let ghost mut shapes: Seq<MemberShape> = Seq::empty();
        loop
            invariant_except_break
                classes::members(
                    state.tokens@,
                    state.position as int,
                    Classish::Trait,
                    shapes,
                    state.scope(),
                ) == goal,
            invariant
                state.follows(*old(state)),
                goal == classes::members(
                    old(state).tokens@,
                    old(state).position as int,
                    Classish::Trait,
                    Seq::empty(),
                    old(state).scope(),
                ),
                forall|i: int|
                    0 <= i < members@.len() ==> (#[trigger] members@[i]).valid(state.tokens@),
                members@.len() == shapes.len() && forall|i: int|
                    0 <= i < shapes.len() ==> models_trait_member(
                        members@[i],
                        #[trigger] shapes[i],
                        state.tokens@,
                    ),
            ensures
                goal == Parsed::<Seq<MemberShape>>::Tree(
                    shapes,
                    state.position as int,
                ),
            decreases state.remaining(),
        {
            state.skip_comments();
            if matches!(state.current().kind, TokenKind::RightBrace) {
                break ;
            }
            let ghost said = classes::member(
                state.tokens@,
                state.position as int,
                Classish::Trait,
                state.scope(),
            );
            let member = self.class_member(state)?;
            let member = match member {
                ClassMember::Constant(c) => TraitMember::Constant(c),
                ClassMember::TraitUsage(u) => TraitMember::TraitUsage(u),
                ClassMember::Property(p) => TraitMember::Property(p),
                ClassMember::VariableProperty(p) => TraitMember::VariableProperty(p),
                ClassMember::Method(m) => TraitMember::Method(m),
            };
            members.push(member);
            proof {
                if said is Tree {
                    shapes = shapes.push(said->Tree_0);
                }
            }
        }
        Ok(members)
    }

    /// Parses an enum, the cursor being on `enum`. A backed enum names
    /// `int` or `string` after a `:`.
    #[verifier::spinoff_prover]
    pub(crate) fn enum_definition(&self, state: &mut State, attributes: Vec<AttributeGroup>) -> (r:
        ParseResult<Statement>)
        requires
            old(state).wf(),
            old(state).kind() is Enum,
            attributes_valid(attributes@, old(state).tokens@),
        ensures
            statement_outcome(*old(state), *final(state), r),
            r is Ok ==> r->Ok_0 is Enum,
            forall|groups: Seq<GroupShape>| #[trigger]
                models_groups(attributes@, groups, old(state).tokens@) ==> statement_agrees(
                    program::classish(old(state).tokens@, old(state).position as int, groups),
                    old(state).tokens@,
                    r,
                    final(state).position as int,
                ),
        decreases old(state).remaining(), 2nat,
    {
        reveal(classes::enum_definition);
        let start = state.current().span;
        state.next();
        let name = identifiers::ident(state)?;
        let backing = if matches!(state.current().kind, TokenKind::Colon) {
            state.next();
            Some(backing_type(state)?)
        } else {
            None
        };
        let present = matches!(state.current().kind, TokenKind::Implements);
        let implements = names_after(state, present)?;
        let (members, end) = self.enum_body(state, false)?;
        let node = Enum { start, end, name, attributes, backing, implements, members };
        assert(node.valid(state.tokens@));
        Ok(Statement::Enum(node))
    }

    /// Parses the body of an enum between braces and gives its members and
    /// where the `}` stands. Inside, `self` and `static` are in scope, and
    /// `parent` as asked; on every way out the scope is what it was before.
    pub(crate) fn enum_body(&self, state: &mut State, parent: bool) -> (r: ParseResult<
        (Vec<EnumMember>, Span),
    >)
        requires
            old(state).wf(),
        ensures
            final(state).follows(*old(state)),
            match r {
                Ok(body) => (exists|j: int|
                    old(state).position <= j < final(state).position && (#[trigger] old(state).tokens@[j]).span == body.1) && forall|i: int|
                    0 <= i < body.0@.len() ==> (#[trigger] body.0@[i]).valid(old(state).tokens@),
                Err(e) => e.valid(old(state).tokens@),
            },
            match classes::enclosed(
                old(state).tokens@,
                old(state).position as int,
                Classish::Enum,
                (Scope { class: true, parent }),
            ) {
                Parsed::Tree(shapes, end) => r is Ok && final(state).position == end && 0 < end
                    <= old(state).tokens@.len() && r->Ok_0.1 == old(state).tokens@[end - 1].span
                    && r->Ok_0.0@.len() == shapes.len() && forall|i: int|
                    0 <= i < shapes.len() ==> models_enum_member(
                        r->Ok_0.0@[i],
                        #[trigger] shapes[i],
                        old(state).tokens@,
                    ),
                Parsed::Fails(fault) => r is Err && reports(r->Err_0, fault, old(state).tokens@),
                Parsed::Other => false,
            },
        decreases old(state).remaining(), 7nat,
    {
        reveal(classes::enclosed);
        utils::skip_left_brace(state)?;
        let class_scope = state.has_class_scope;
        let parent_scope = state.has_class_parent_scope;
        state.has_class_scope = true;
        state.has_class_parent_scope = parent;
        let members = self.enum_members(state);
        state.has_class_scope = class_scope;
        state.has_class_parent_scope = parent_scope;
        let members = members?;
        let end = state.current().span;
        utils::skip_right_brace(state)?;
        Ok((members, end))
    }

    /// Parses the members of an enum up to `}`.
    fn enum_members(&self, state: &mut State) -> (r: ParseResult<Vec<EnumMember>>)
        requires
            old(state).wf(),
        ensures
            final(state).follows(*old(state)),
            match r {
                Ok(list) => forall|i: int|
                    0 <= i < list@.len() ==> (#[trigger] list@[i]).valid(old(state).tokens@),
                Err(e) => e.valid(old(state).tokens@),
            },
            match classes::members(
                old(state).tokens@,
                old(state).position as int,
                Classish::Enum,
                Seq::empty(),
                old(state).scope(),
            ) {
                Parsed::Tree(shapes, end) => r is Ok && final(state).position == end
                    && r->Ok_0@.len() == shapes.len() && forall|i: int|
                    0 <= i < shapes.len() ==> models_enum_member(
                        r->Ok_0@[i],
                        #[trigger] shapes[i],
                        old(state).tokens@,
                    ),
                Parsed::Fails(fault) => r is Err && reports(r->Err_0, fault, old(state).tokens@),
                Parsed::Other => false,
            },
        decreases old(state).remaining(), 6nat,
    {
        let ghost goal = classes::members(
            state.tokens@,
            state.position as int,
            Classish::Enum,
            Seq::empty(),
            state.scope(),
        );
        let mut members: Vec<EnumMember> = Vec::new();
        let ghost mut shapes: Seq<MemberShape> = Seq::empty();
        loop
            invariant_except_break
                classes::members(
                    state.tokens@,
                    state.position as int,
                    Classish::Enum,
                    shapes,
                    state.scope(),
                ) == goal,
            invariant
                state.follows(*old(state)),
                goal == classes::members(
                    old(state).tokens@,
                    old(state).position as int,
                    Classish::Enum,
                    Seq::empty(),
                    old(state).scope(),
                ),
                forall|i: int|
                    0 <= i < members@.len() ==> (#[trigger] members@[i]).valid(state.tokens@),
                members@.len() == shapes.len() && forall|i: int|
                    0 <= i < shapes.len() ==> models_enum_member(
                        members@[i],
                        #[trigger] shapes[i],
                        state.tokens@,
                    ),
            ensures
                goal == Parsed::<Seq<MemberShape>>::Tree(
                    shapes,
                    state.position as int,
                ),
            decreases state.remaining(),
        {
            state.skip_comments();
            if matches!(state.current().kind, TokenKind::RightBrace) {
                break ;
            }
            let ghost said = classes::member(
                state.tokens@,
                state.position as int,
                Classish::Enum,
                state.scope(),
            );
            let member = self.enum_member(state)?;
            members.push(member);
            proof {
                if said is Tree {
                    shapes = shapes.push(said->Tree_0);
                }
            }
        }
        Ok(members)
    }
}

/// Parses the backing type of an enum: the name `int` or the name `string`.
pub(crate) fn backing_type(state: &mut State) -> (r: ParseResult<BackedEnumType>)
    requires
        old(state).wf(),
    ensures
        final(state).follows(*old(state)),
        final(state).comments == old(state).comments,
        if classes::names_backing(old(state).kind()) {
            r == Ok::<BackedEnumType, crate::parser::error::ParseError>(
                classes::backing_at(old(state).tokens@, old(state).position as int),
            ) && final(state).position == old(state).position + 1
        } else {
            r is Err && r->Err_0.valid(old(state).tokens@) && r->Err_0.is_expected(
                seq!["`int`".spec_bytes(), "`string`".spec_bytes()],
                old(state).tokens@[old(state).position as int],
            ) && final(state).position == old(state).position
        },
{
    let found = match &state.current().kind {
        TokenKind::Identifier(name) => {
            if utils::spells(name, "int") {
                Some(BackedEnumType::Int)
            } else if utils::spells(name, "string") {
                Some(BackedEnumType::String)
            } else {
                None
            }
        },
        _ => None,
    };
    match found {
        Some(t) => {
            state.next();
            Ok(t)
        },
        None => Err(utils::expected(state, utils::two("`int`", "`string`"))),
    }
}

} // verus!
