//! What holds of registered names as a whole.

use vstd::prelude::*;

use crate::types::ActorId;

use super::RegistryError;

verus! {

/// An actor that has taken a name is found under it, and its name is found.
pub proof fn lemma_registered_name_resolves(
    names: Map<Seq<char>, ActorId>,
    actor: ActorId,
    name: Seq<char>,
)
    requires
        super::names_distinct(names),
        super::accepts(names, actor, name),
    ensures
        super::registered(names, actor, name).contains_key(name),
        super::registered(names, actor, name)[name] == actor,
        super::name_in(super::registered(names, actor, name), actor) == Some(name),
        super::names_distinct(super::registered(names, actor, name)),
{
    let after = super::registered(names, actor, name);
    if super::name_in(names, actor) is None {
        assert(after =~= names.insert(name, actor));
        assert forall|a: Seq<char>, b: Seq<char>|
            #![trigger after[a], after[b]]
            after.contains_key(a) && after.contains_key(b) && after[a] == after[b] implies a
            == b by {
            if a != name && b != name {
                assert(names[a] == names[b]);
            } else if a != name {
                assert(names.contains_key(a) && names[a] == actor);
            } else if b != name {
                assert(names.contains_key(b) && names[b] == actor);
            }
        }
    }
    assert(after.contains_key(name) && after[name] == actor);
    let found = super::name_in(after, actor)->0;
    assert(after[found] == after[name]);
}

/// An actor that gives up the name it has just taken leaves all names as they were.
pub proof fn lemma_giving_a_name_up_undoes_taking_it(
    names: Map<Seq<char>, ActorId>,
    actor: ActorId,
    name: Seq<char>,
)
    requires
        super::names_distinct(names),
        super::name_in(names, actor) is None,
        !names.contains_key(name),
    ensures
        super::unregistered(super::registered(names, actor, name), actor) == names,
{
    lemma_registered_name_resolves(names, actor, name);
    assert(super::unregistered(super::registered(names, actor, name), actor) =~= names);
}

/// Once an actor has given its name up, the name is free for any other actor without a name.
pub proof fn lemma_given_up_name_is_free(
    names: Map<Seq<char>, ActorId>,
    actor: ActorId,
    other: ActorId,
    name: Seq<char>,
)
    requires
        super::names_distinct(names),
        super::name_in(names, actor) == Some(name),
        super::name_in(names, other) is None,
    ensures
        super::name_in(super::unregistered(names, actor), actor) is None,
        super::accepts(super::unregistered(names, actor), other, name),
        super::names_distinct(super::unregistered(names, actor)),
{
    let after = super::unregistered(names, actor);
    assert(exists|held: Seq<char>| #[trigger] names.contains_key(held) && names[held] == actor);
    assert(names.contains_key(name) && names[name] == actor);
    assert forall|held: Seq<char>| #[trigger] after.contains_key(held) implies after[held] != actor
        && after[held] != other by {
        assert(names.contains_key(held));
        if names[held] == actor {
            assert(names[held] == names[name]);
        }
    }
    assert forall|a: Seq<char>, b: Seq<char>|
        #![trigger after[a], after[b]]
        after.contains_key(a) && after.contains_key(b) && after[a] == after[b] implies a == b by {
        assert(names[a] == names[b]);
    }
}

/// Who may take a name: an actor without one may take every name that nobody has, an actor with a
/// name only that one again, and nobody a name that somebody else has.
pub proof fn lemma_who_may_take_a_name(
    names: Map<Seq<char>, ActorId>,
    actor: ActorId,
    name: Seq<char>,
    own: Seq<char>,
)
    requires
        super::names_distinct(names),
    ensures
        (forall|held: Seq<char>| #[trigger] names.contains_key(held) ==> names[held] != actor)
            ==> super::accepts(names, actor, name) == !names.contains_key(name),
        names.contains_key(own) && names[own] == actor ==> super::accepts(names, actor, name) == (
        name == own),
        names.contains_key(name) && names[name] != actor ==> !super::accepts(names, actor, name),
{
    if names.contains_key(own) && names[own] == actor {
        let found = super::name_in(names, actor)->0;
        assert(exists|held: Seq<char>| #[trigger] names.contains_key(held) && names[held] == actor);
        assert(names[found] == names[own]);
    }
    if names.contains_key(name) && names[name] != actor && super::accepts(names, actor, name) {
        let found = super::name_in(names, actor)->0;
        assert(names.contains_key(found) && names[found] == actor);
    }
}

/// Taking a name and giving it up leave the names of all other actors as they are.
pub proof fn lemma_other_names_stay(
    names: Map<Seq<char>, ActorId>,
    actor: ActorId,
    name: Seq<char>,
    other: Seq<char>,
)
    requires
        super::names_distinct(names),
        names.contains_key(other),
        names[other] != actor,
    ensures
        super::registered(names, actor, name).contains_key(other),
        super::registered(names, actor, name)[other] == names[other],
        super::unregistered(names, actor).contains_key(other),
        super::unregistered(names, actor)[other] == names[other],
{
    if super::name_in(names, actor) is Some {
        let found = super::name_in(names, actor)->0;
        assert(names.contains_key(found) && names[found] == actor);
    }
}

/// An actor that gives its name up has none afterwards, and one without a name changes nothing.
pub proof fn lemma_giving_up_frees_the_name(
    names: Map<Seq<char>, ActorId>,
    actor: ActorId,
    name: Seq<char>,
)
    requires
        super::names_distinct(names),
    ensures
        names.contains_key(name) && names[name] == actor ==> super::unregistered(names, actor)
            == names.remove(name),
        (forall|held: Seq<char>| #[trigger] names.contains_key(held) ==> names[held] != actor)
            ==> super::unregistered(names, actor) == names,
{
    if names.contains_key(name) && names[name] == actor {
        assert(exists|held: Seq<char>| #[trigger] names.contains_key(held) && names[held] == actor);
        let found = super::name_in(names, actor)->0;
        assert(names[found] == names[name]);
    }
}

/// Why an actor cannot take a name: it has one already, which the error names, or else somebody
/// has that name, and the error names both.
pub proof fn lemma_why_a_name_is_refused(
    error: RegistryError,
    names: Map<Seq<char>, ActorId>,
    actor: ActorId,
    name: Seq<char>,
    own: Seq<char>,
)
    requires
        super::names_distinct(names),
        super::is_refusal(error, names, actor, name),
    ensures
        names.contains_key(own) && names[own] == actor ==> (error matches RegistryError::AlreadyRegistered {
            actor: owner,
            name: held,
        } && owner == actor && held@ == own),
        (forall|held: Seq<char>| #[trigger] names.contains_key(held) ==> names[held] != actor)
            ==> (error matches RegistryError::NameTaken { name: wanted, actor: owner } && wanted@
            == name && owner == names[name]),
{
    if names.contains_key(own) && names[own] == actor {
        assert(exists|held: Seq<char>| #[trigger] names.contains_key(held) && names[held] == actor);
        let found = super::name_in(names, actor)->0;
        assert(names[found] == names[own]);
    }
}

} // verus!
