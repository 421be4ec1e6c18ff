//! Single-name-per-actor registry.

pub mod laws;

use vstd::prelude::*;

use crate::text::same_text;
use crate::types::ActorId;

verus! {

/// Failure while mutating the runtime name registry.
#[derive(Debug, Clone, PartialEq, Eq)]
pub enum RegistryError {
    /// The target actor does not exist in the runtime.
    NoProc(ActorId),
    /// Another actor already owns the requested name.
    NameTaken {
        /// Requested registry name.
        name: String,
        /// Actor that currently owns the name.
        actor: ActorId,
    },
    /// The actor already owns a different registered name.
    AlreadyRegistered {
        /// Actor attempting to register again.
        actor: ActorId,
        /// Existing registered name for the actor.
        name: String,
    },
}

/// One registered name.
#[derive(Debug)]
struct RegistryEntry {
    name: String,
    actor: ActorId,
}

/// Single-name-per-actor registry used for runtime lookup and registration.
#[derive(Debug)]
pub struct Registry {
    entries: Vec<RegistryEntry>,
}

/// Whether no name and no actor occurs twice.
spec fn one_to_one(entries: Seq<RegistryEntry>) -> bool {
    &&& forall|i: int, j: int|
        0 <= i < j < entries.len() ==> (#[trigger] entries[i]).name@ != (
        #[trigger] entries[j]).name@
    &&& forall|i: int, j: int|
        0 <= i < j < entries.len() ==> (#[trigger] entries[i]).actor != (
        #[trigger] entries[j]).actor
}

/// The place of a name among the entries.
spec fn place_of(entries: Seq<RegistryEntry>, name: Seq<char>) -> int {
    choose|i: int| 0 <= i < entries.len() && (#[trigger] entries[i]).name@ == name
}

/// Whether a name occurs among the entries.
spec fn has_name(entries: Seq<RegistryEntry>, name: Seq<char>) -> bool {
    exists|i: int| 0 <= i < entries.len() && (#[trigger] entries[i]).name@ == name
}

/// The entries as a map from names to actors.
spec fn by_name(entries: Seq<RegistryEntry>) -> Map<Seq<char>, ActorId> {
    Map::new(
        |name: Seq<char>| has_name(entries, name),
        |name: Seq<char>| entries[place_of(entries, name)].actor,
    )
}

/// The name under which an actor is registered in a map of names.
pub open spec fn name_in(names: Map<Seq<char>, ActorId>, actor: ActorId) -> Option<Seq<char>> {
    if exists|name: Seq<char>| #[trigger] names.contains_key(name) && names[name] == actor {
        Some(choose|name: Seq<char>| #[trigger] names.contains_key(name) && names[name] == actor)
    } else {
        None
    }
}

/// Whether no actor stands behind two names.
pub open spec fn names_distinct(names: Map<Seq<char>, ActorId>) -> bool {
    forall|a: Seq<char>, b: Seq<char>|
        #![trigger names[a], names[b]]
        names.contains_key(a) && names.contains_key(b) && names[a] == names[b] ==> a == b
}

/// Whether an actor can take a name: it has that name already, or neither of them is taken.
pub open spec fn accepts(
    names: Map<Seq<char>, ActorId>,
    actor: ActorId,
    name: Seq<char>,
) -> bool {
    match name_in(names, actor) {
        Some(existing) => existing == name,
        None => !names.contains_key(name),
    }
}

/// The names once an actor has taken one.
pub open spec fn registered(
    names: Map<Seq<char>, ActorId>,
    actor: ActorId,
    name: Seq<char>,
) -> Map<Seq<char>, ActorId> {
    if name_in(names, actor) is None && !names.contains_key(name) {
        names.insert(name, actor)
    } else {
        names
    }
}

/// The names once an actor has given its own up.
pub open spec fn unregistered(names: Map<Seq<char>, ActorId>, actor: ActorId) -> Map<
    Seq<char>,
    ActorId,
> {
    match name_in(names, actor) {
        Some(name) => names.remove(name),
        None => names,
    }
}

/// Whether an error tells why an actor cannot take a name.
pub open spec fn is_refusal(
    error: RegistryError,
    names: Map<Seq<char>, ActorId>,
    actor: ActorId,
    name: Seq<char>,
) -> bool {
    match name_in(names, actor) {
        Some(existing) => error matches RegistryError::AlreadyRegistered { actor: owner, name: own }
            && owner == actor && own@ == existing,
        None => error matches RegistryError::NameTaken { name: wanted, actor: owner } && wanted@
            == name && owner == names[name],
    }
}

/// Every entry is found under its own name.
proof fn lemma_entry(entries: Seq<RegistryEntry>, i: int)
    requires
        one_to_one(entries),
        0 <= i < entries.len(),
    ensures
        by_name(entries).contains_key(entries[i].name@),
        by_name(entries)[entries[i].name@] == entries[i].actor,
{
    assert(has_name(entries, entries[i].name@));
    let place = place_of(entries, entries[i].name@);
    assert(place == i);
}

/// The map of names has no actor under two names.
proof fn lemma_distinct(entries: Seq<RegistryEntry>)
    requires
        one_to_one(entries),
    ensures
        names_distinct(by_name(entries)),
{
    let names = by_name(entries);
    assert forall|a: Seq<char>, b: Seq<char>|
        #![trigger names[a], names[b]]
        names.contains_key(a) && names.contains_key(b) && names[a] == names[b] implies a == b by {
        let i = place_of(entries, a);
        let j = place_of(entries, b);
        assert(entries[i].name@ == a && entries[j].name@ == b);
    }
}

impl View for Registry {
    type V = Map<Seq<char>, ActorId>;

    /// The registered names with the actors that own them.
    closed spec fn view(&self) -> Map<Seq<char>, ActorId> {
        by_name(self.entries@)
    }
}

impl Registry {
    #[verifier::type_invariant]
    spec fn entries_ok(self) -> bool {
        one_to_one(self.entries@)
    }

    /// The name of an actor, if it has one.
    pub open spec fn name_of(self, actor: ActorId) -> Option<Seq<char>> {
        name_in(self@, actor)
    }

    /// Creates an empty registry.
    pub fn new() -> (registry: Self)
        ensures
            registry@ == Map::<Seq<char>, ActorId>::empty(),
    {
        let registry = Registry { entries: Vec::new() };
        assert(registry@ =~= Map::<Seq<char>, ActorId>::empty());
        registry
    }

    /// Finds the entry of an actor.
    fn find_actor(&self, actor: ActorId) -> (place: Option<usize>)
        ensures
            match place {
                Some(at) => {
                    &&& at < self.entries@.len()
                    &&& self.entries@[at as int].actor == actor
                    &&& self.name_of(actor) == Some(self.entries@[at as int].name@)
                },
                None => {
                    &&& self.name_of(actor) is None
                    &&& forall|i: int|
                        0 <= i < self.entries@.len() ==> (#[trigger] self.entries@[i]).actor
                            != actor
                },
            },
            names_distinct(self@),
    {
        proof {
            use_type_invariant(&*self);
            lemma_distinct(self.entries@);
        }
        let mut at: usize = 0;
        while at < self.entries.len()
            invariant
                at <= self.entries@.len(),
                one_to_one(self.entries@),
                names_distinct(self@),
                forall|i: int|
                    0 <= i < at ==> (#[trigger] self.entries@[i]).actor != actor,
            decreases self.entries@.len() - at,
        {
            if self.entries[at].actor == actor {
                proof {
                    lemma_entry(self.entries@, at as int);
                    let found = self.name_of(actor)->Some_0;
                    assert(self@[found] == self@[self.entries@[at as int].name@]);
                }
                return Some(at);
            }
            at = at + 1;
        }
        proof {
            if self.name_of(actor) is Some {
                let found = self.name_of(actor)->Some_0;
                let place = place_of(self.entries@, found);
                assert(self.entries@[place].actor == actor);
            }
        }
        None
    }

    /// Finds the entry of a name.
    fn find_name(&self, name: &str) -> (place: Option<usize>)
        ensures
            match place {
                Some(at) => {
                    &&& at < self.entries@.len()
                    &&& self.entries@[at as int].name@ == name@
                    &&& self@.contains_key(name@)
                    &&& self@[name@] == self.entries@[at as int].actor
                },
                None => {
                    &&& !self@.contains_key(name@)
                    &&& forall|i: int|
                        0 <= i < self.entries@.len() ==> (#[trigger] self.entries@[i]).name@
                            != name@
                },
            },
    {
        proof {
            use_type_invariant(&*self);
        }
        let mut at: usize = 0;
        while at < self.entries.len()
            invariant
                at <= self.entries@.len(),
                one_to_one(self.entries@),
                forall|i: int|
                    0 <= i < at ==> (#[trigger] self.entries@[i]).name@ != name@,
            decreases self.entries@.len() - at,
        {
            if same_text(self.entries[at].name.as_str(), name) {
                proof {
                    lemma_entry(self.entries@, at as int);
                }
                return Some(at);
            }
            at = at + 1;
        }
        None
    }

    /// Resolves an actor by registered name.
    pub fn resolve(&self, name: &str) -> (actor: Option<ActorId>)
        ensures
            actor == (if self@.contains_key(name@) {
                Some(self@[name@])
            } else {
                None
            }),
    {
        match self.find_name(name) {
            Some(at) => Some(self.entries[at].actor),
            None => None,
        }
    }

    /// Registers a name for the actor.
    pub fn register(&mut self, actor: ActorId, name: String) -> (outcome: Result<(), RegistryError>)
        ensures
            match (old(self).name_of(actor), old(self)@.contains_key(name@)) {
                (Some(existing), _) => {
                    &&& final(self)@ == old(self)@
                    &&& if existing == name@ {
                        outcome is Ok
                    } else {
                        outcome matches Err(RegistryError::AlreadyRegistered { actor: owner, name })
                            && owner == actor && name@ == existing
                    }
                },
                (None, true) => {
                    &&& final(self)@ == old(self)@
                    &&& outcome == Err::<(), RegistryError>(
                        RegistryError::NameTaken { name, actor: old(self)@[name@] },
                    )
                },
                (None, false) => {
                    &&& outcome is Ok
                    &&& final(self)@ == old(self)@.insert(name@, actor)
                },
            },
            names_distinct(final(self)@),
    {
        if let Some(at) = self.find_actor(actor) {
            if same_text(self.entries[at].name.as_str(), name.as_str()) {
                return Ok(());
            }
            return Err(
                RegistryError::AlreadyRegistered { actor, name: self.entries[at].name.clone() },
            );
        }
        if let Some(at) = self.find_name(name.as_str()) {
            return Err(RegistryError::NameTaken { name, actor: self.entries[at].actor });
        }
        let mut entries: Vec<RegistryEntry> = Vec::new();
        proof {
            use_type_invariant(&*self);
        }
        std::mem::swap(&mut self.entries, &mut entries);
        let ghost before = entries@;
        entries.push(RegistryEntry { name, actor });
        proof {
            assert(one_to_one(entries@));
            lemma_pushed(before, entries@[entries@.len() - 1]);
            lemma_distinct(entries@);
        }
        self.entries = entries;
        Ok(())
    }

    /// Unregisters the current name for the actor and returns it.
    pub fn unregister(&mut self, actor: ActorId) -> (removed: Option<String>)
        ensures
            match old(self).name_of(actor) {
                Some(name) => {
                    &&& removed matches Some(text) && text@ == name
                    &&& final(self)@ == old(self)@.remove(name)
                    &&& final(self).name_of(actor) is None
                },
                None => removed is None && final(self)@ == old(self)@,
            },
            names_distinct(final(self)@),
    {
        match self.find_actor(actor) {
            Some(at) => {
                let mut entries: Vec<RegistryEntry> = Vec::new();
                proof {
                    use_type_invariant(&*self);
                }
                std::mem::swap(&mut self.entries, &mut entries);
                let ghost before = entries@;
                let entry = entries.remove(at);
                proof {
                    lemma_removed(before, at as int);
                    lemma_distinct(entries@);
                    let names = by_name(entries@);
                    if name_in(names, actor) is Some {
                        let found = name_in(names, actor)->Some_0;
                        assert(by_name(before)[found] == actor);
                        lemma_entry(before, at as int);
                        lemma_distinct(before);
                        assert(by_name(before)[entry.name@] == actor);
                    }
                }
                self.entries = entries;
                Some(entry.name)
            },
            None => None,
        }
    }
}

impl Clone for Registry {
    fn clone(&self) -> (copy: Self)
        ensures
            copy@ == self@,
    {
        let mut entries: Vec<RegistryEntry> = Vec::new();
        proof {
            use_type_invariant(self);
        }
        let mut at: usize = 0;
        while at < self.entries.len()
            invariant
                at <= self.entries@.len(),
                entries@.len() == at,
                forall|i: int|
                    0 <= i < at ==> (#[trigger] entries@[i]).name@ == self.entries@[i].name@
                        && entries@[i].actor == self.entries@[i].actor,
            decreases self.entries@.len() - at,
        {
            let entry = &self.entries[at];
            entries.push(RegistryEntry { name: entry.name.clone(), actor: entry.actor });
            at = at + 1;
        }
        proof {
            lemma_same_entries(self.entries@, entries@);
        }
        Registry { entries }
    }
}

impl Registry {
    /// Whether the other registry has every name of this one, with the same actor.
    fn within(&self, other: &Self) -> (found: bool)
        ensures
            found == self@.submap_of(other@),
    {
        proof {
            use_type_invariant(self);
        }
        let mut at: usize = 0;
        while at < self.entries.len()
            invariant
                at <= self.entries@.len(),
                one_to_one(self.entries@),
                forall|i: int|
                    0 <= i < at ==> other@.contains_key((#[trigger] self.entries@[i]).name@)
                        && other@[self.entries@[i].name@] == self.entries@[i].actor,
            decreases self.entries@.len() - at,
        {
            proof {
                lemma_entry(self.entries@, at as int);
            }
            let found = match other.resolve(self.entries[at].name.as_str()) {
                Some(actor) => actor == self.entries[at].actor,
                None => false,
            };
            if !found {
                assert(self@.contains_key(self.entries@[at as int].name@));
                return false;
            }
            at = at + 1;
        }
        assert forall|name: Seq<char>| #[trigger] self@.contains_key(name) implies other@
            .contains_key(name) && other@[name] == self@[name] by {
            let i = place_of(self.entries@, name);
            assert(self.entries@[i].name@ == name);
        }
        true
    }
}

impl PartialEq for Registry {
    fn eq(&self, other: &Self) -> (same: bool) {
        let same = self.within(other) && other.within(self);
        assert(same ==> self@ =~= other@);
        same
    }
}

impl vstd::std_specs::cmp::PartialEqSpecImpl for Registry {
    open spec fn obeys_eq_spec() -> bool {
        true
    }

    /// Two registries are equal if they have the same names for the same actors.
    open spec fn eq_spec(&self, other: &Self) -> bool {
        self@ == other@
    }
}

impl Eq for Registry {

}

impl Default for Registry {
    fn default() -> (registry: Self)
        ensures
            registry@ == Map::<Seq<char>, ActorId>::empty(),
    {
        Registry::new()
    }
}

/// Entries with the same names for the same actors are the same map.
proof fn lemma_same_entries(entries: Seq<RegistryEntry>, copies: Seq<RegistryEntry>)
    requires
        one_to_one(entries),
        copies.len() == entries.len(),
        forall|i: int|
            0 <= i < copies.len() ==> (#[trigger] copies[i]).name@ == entries[i].name@
                && copies[i].actor == entries[i].actor,
    ensures
        one_to_one(copies),
        by_name(copies) == by_name(entries),
{
    assert forall|name: Seq<char>| #[trigger]
        by_name(copies).contains_key(name) == by_name(entries).contains_key(name) by {
        if has_name(entries, name) {
            let i = place_of(entries, name);
            assert(copies[i].name@ == entries[i].name@);
        }
    }
    assert forall|name: Seq<char>| by_name(copies).contains_key(name) implies #[trigger] by_name(
        copies,
    )[name] == by_name(entries)[name] by {
        let i = place_of(copies, name);
        lemma_entry(copies, i);
        lemma_entry(entries, i);
    }
    assert(by_name(copies) =~= by_name(entries));
}

proof fn lemma_pushed(entries: Seq<RegistryEntry>, entry: RegistryEntry)
    requires
        one_to_one(entries.push(entry)),
    ensures
        by_name(entries.push(entry)) == by_name(entries).insert(entry.name@, entry.actor),
{
    let more = entries.push(entry);
    assert(one_to_one(entries)) by {
        assert forall|i: int, j: int| 0 <= i < j < entries.len() implies (
        #[trigger] entries[i]).name@ != (#[trigger] entries[j]).name@ by {
            assert(more[i] == entries[i] && more[j] == entries[j]);
        }
        assert forall|i: int, j: int| 0 <= i < j < entries.len() implies (
        #[trigger] entries[i]).actor != (#[trigger] entries[j]).actor by {
            assert(more[i] == entries[i] && more[j] == entries[j]);
        }
    }
    assert forall|name: Seq<char>| #[trigger]
        by_name(more).contains_key(name) == by_name(entries).insert(
            entry.name@,
            entry.actor,
        ).contains_key(name) by {
        if has_name(entries, name) {
            let i = place_of(entries, name);
            assert(more[i].name@ == name);
        }
        if has_name(more, name) {
            let i = place_of(more, name);
            if i < entries.len() {
                assert(entries[i].name@ == name);
            }
        }
        if name == entry.name@ {
            assert(more[entries.len() as int].name@ == name);
        }
    }
    assert forall|name: Seq<char>| by_name(more).contains_key(name) implies #[trigger] by_name(
        more,
    )[name] == by_name(entries).insert(entry.name@, entry.actor)[name] by {
        let i = place_of(more, name);
        lemma_entry(more, i);
        if i < entries.len() {
            assert(entries[i] == more[i]);
            lemma_entry(entries, i);
            assert(more[entries.len() as int].name@ != name);
        }
    }
    assert(by_name(more) =~= by_name(entries).insert(entry.name@, entry.actor));
}

proof fn lemma_removed(entries: Seq<RegistryEntry>, at: int)
    requires
        one_to_one(entries),
        0 <= at < entries.len(),
    ensures
        one_to_one(entries.remove(at)),
        by_name(entries.remove(at)) == by_name(entries).remove(entries[at].name@),
{
    let fewer = entries.remove(at);
    assert forall|i: int| 0 <= i < fewer.len() implies #[trigger] fewer[i] == entries[if i < at {
        i
    } else {
        i + 1
    }] by {}
    assert(one_to_one(fewer));
    assert forall|name: Seq<char>| #[trigger]
        by_name(fewer).contains_key(name) == by_name(entries).remove(
            entries[at].name@,
        ).contains_key(name) by {
        if has_name(entries, name) && name != entries[at].name@ {
            let i = place_of(entries, name);
            let k = if i < at {
                i
            } else {
                i - 1
            };
            assert(fewer[k].name@ == name);
        }
        if has_name(fewer, name) {
            let k = place_of(fewer, name);
            let i = if k < at {
                k
            } else {
                k + 1
            };
            assert(entries[i].name@ == name);
        }
    }
    assert forall|name: Seq<char>| by_name(fewer).contains_key(name) implies #[trigger] by_name(
        fewer,
    )[name] == by_name(entries).remove(entries[at].name@)[name] by {
        let k = place_of(fewer, name);
        lemma_entry(fewer, k);
        let i = if k < at {
            k
        } else {
            k + 1
        };
        lemma_entry(entries, i);
    }
    assert(by_name(fewer) =~= by_name(entries).remove(entries[at].name@));
}

} // verus!
