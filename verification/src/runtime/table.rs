//! The live actors of a runtime.

use std::collections::BTreeMap;

use vstd::prelude::*;

use crate::snapshot::{ActorSnapshot, SnapshotView};
use crate::types::ActorId;

use super::actor_state::{ActorState, ActorView};

verus! {

/// The live actors of a runtime by slot.
#[derive(Debug)]
pub struct ActorTable {
    actors: BTreeMap<u64, ActorState>,
}

impl View for ActorTable {
    type V = Map<u64, ActorView>;

    closed spec fn view(&self) -> Map<u64, ActorView> {
        self.actors@.map_values(|actor: ActorState| actor@)
    }
}

/// Whether an actor is among the live ones.
pub open spec fn has_actor(actors: Map<u64, ActorView>, id: ActorId) -> bool {
    actors.contains_key(id.local_id) && actors[id.local_id].id == id
}

/// Whether every actor stands under its slot and is in order.
pub open spec fn table_ok(actors: Map<u64, ActorView>) -> bool {
    forall|slot: u64| #[trigger]
        actors.contains_key(slot) ==> actors[slot].id.local_id == slot && actors[slot].wf()
}

/// The live actors.
pub open spec fn live_ids(actors: Map<u64, ActorView>) -> Set<ActorId> {
    Set::new(|id: ActorId| has_actor(actors, id))
}

/// The snapshots of all live actors in ascending order of their ids.
pub open spec fn table_snapshots(actors: Map<u64, ActorView>) -> Seq<SnapshotView> {
    crate::collections::ascending(live_ids(actors)).map_values(
        |id: ActorId| actors[id.local_id].snapshot(),
    )
}

impl ActorTable {
    /// Creates a table without actors.
    pub fn new() -> (table: Self)
        ensures
            table@ == Map::<u64, ActorView>::empty(),
    {
        let table = ActorTable { actors: BTreeMap::new() };
        assert(table@ =~= Map::<u64, ActorView>::empty());
        table
    }

    /// Tells whether an actor is live.
    pub fn contains(&self, id: ActorId) -> (found: bool)
        ensures
            found == has_actor(self@, id),
    {
        match self.actors.get(&id.local_id) {
            Some(actor) => actor.id == id,
            None => false,
        }
    }

    /// Looks a live actor up.
    pub fn get(&self, id: ActorId) -> (actor: Option<&ActorState>)
        ensures
            match actor {
                Some(actor) => has_actor(self@, id) && actor@ == self@[id.local_id],
                None => !has_actor(self@, id),
            },
    {
        match self.actors.get(&id.local_id) {
            Some(actor) => if actor.id == id {
                Some(actor)
            } else {
                None
            },
            None => None,
        }
    }

    /// Lists the live actors in ascending order.
    pub fn ids(&self) -> (ids: Vec<ActorId>)
        requires
            table_ok(self@),
        ensures
            ids@ == crate::collections::ascending(live_ids(self@)),
            crate::collections::lists(ids@, live_ids(self@)),
    {
        let mut ids: Vec<ActorId> = Vec::new();
        let ghost pairs = vstd::std_specs::iter::IteratorSpec::remaining(&self.actors.iter());
        for entry in it: self.actors.iter()
            invariant
                it.seq() == pairs,
                ids@.len() == it.index(),
                vstd::std_specs::btree::increasing_seq(
                    pairs.map_values(|kv: (&u64, &ActorState)| *kv.0),
                ),
                forall|i: int| 0 <= i < ids@.len() ==> (#[trigger] ids@[i]) == pairs[i].1.id,
        {
            ids.push(entry.1.id);
        }
        proof {
            let keys = pairs.map_values(|kv: (&u64, &ActorState)| *kv.0);
            let live = live_ids(self@);
            assert forall|i: int| 0 <= i < pairs.len() implies {
                &&& self@.contains_key(*(#[trigger] pairs[i]).0)
                &&& self@[*pairs[i].0] == (*pairs[i].1)@
                &&& ids@[i].local_id == *pairs[i].0
            } by {
                assert(self.actors@.contains_key(*pairs[i].0));
            }
            assert forall|i: int, j: int| 0 <= i < j < ids@.len() implies (
            #[trigger] ids@[i]).precedes(#[trigger] ids@[j]) by {
                assert(keys[i] == *pairs[i].0);
                assert(keys[j] == *pairs[j].0);
                assert(vstd::std_specs::cmp::OrdSpec::cmp_spec(&keys[i], &keys[j]) is Less);
            }
            assert forall|id: ActorId| #[trigger] live.contains(id) <==> ids@.contains(id) by {
                if live.contains(id) {
                    let slot = id.local_id;
                    assert(self.actors@.contains_key(slot));
                    assert(pairs.contains((&slot, &self.actors@[slot])));
                    let i = choose|i: int|
                        0 <= i < pairs.len() && pairs[i] == (&slot, &self.actors@[slot]);
                    assert(ids@[i] == id);
                }
                if ids@.contains(id) {
                    let i = choose|i: int| 0 <= i < ids@.len() && ids@[i] == id;
                    assert(self@.contains_key(*pairs[i].0));
                }
            }
            assert(crate::collections::lists(ids@, live));
            crate::collections::lemma_ascending_unique(
                ids@,
                crate::collections::ascending(live),
                live,
            );
        }
        ids
    }

    /// Takes snapshots of all live actors.
    pub fn snapshots(&self) -> (snapshots: Vec<ActorSnapshot>)
        requires
            table_ok(self@),
        ensures
            crate::observability::topology::snapshot_views(snapshots@) == table_snapshots(self@),
            crate::observability::topology::distinct_ids(
                crate::observability::topology::snapshot_views(snapshots@),
            ),
    {
        let ids = self.ids();
        let mut snapshots: Vec<ActorSnapshot> = Vec::new();
        let mut at: usize = 0;
        while at < ids.len()
            invariant
                at <= ids@.len(),
                crate::collections::lists(ids@, live_ids(self@)),
                snapshots@.len() == at,
                forall|i: int|
                    0 <= i < snapshots@.len() ==> (#[trigger] snapshots@[i])@
                        == self@[ids@[i].local_id].snapshot() && snapshots@[i].id == ids@[i],
            decreases ids@.len() - at,
        {
            let id = ids[at];
            assert(ids@.contains(id));
            assert(live_ids(self@).contains(id));
            if let Some(actor) = self.get(id) {
                snapshots.push(actor.snapshot());
            }
            at = at + 1;
        }
        proof {
            let views = crate::observability::topology::snapshot_views(snapshots@);
            assert(views =~= table_snapshots(self@));
            assert forall|i: int, j: int| 0 <= i < j < views.len() implies (#[trigger] views[i]).id
                != (#[trigger] views[j]).id by {
                assert(views[i].id == snapshots@[i].id);
                assert(views[j].id == snapshots@[j].id);
                assert(ids@[i].precedes(ids@[j]));
            }
        }
        snapshots
    }

    /// Takes a live actor out of the table.
    pub fn take(&mut self, id: ActorId) -> (actor: Option<ActorState>)
        requires
            table_ok(old(self)@),
        ensures
            match actor {
                Some(actor) => {
                    &&& has_actor(old(self)@, id)
                    &&& actor@ == old(self)@[id.local_id]
                    &&& final(self)@ == old(self)@.remove(id.local_id)
                },
                None => !has_actor(old(self)@, id) && final(self)@ == old(self)@,
            },
            table_ok(final(self)@),
    {
        match self.actors.remove(&id.local_id) {
            Some(actor) => {
                assert(self@ =~= old(self)@.remove(id.local_id));
                assert(old(self)@.contains_key(id.local_id));
                if actor.id == id {
                    Some(actor)
                } else {
                    let slot: u64 = actor.id.local_id;
                    let _none = self.actors.insert(slot, actor);
                    assert(self@ =~= old(self)@);
                    None
                }
            },
            None => {
                assert(self@ =~= old(self)@);
                None
            },
        }
    }

    /// Puts an actor into the table, under its slot.
    pub fn put(&mut self, actor: ActorState)
        requires
            table_ok(old(self)@),
            actor@.wf(),
        ensures
            final(self)@ == old(self)@.insert(actor@.id.local_id, actor@),
            table_ok(final(self)@),
    {
        let slot: u64 = actor.id.local_id;
        let _displaced = self.actors.insert(slot, actor);
        assert(self@ =~= old(self)@.insert(actor@.id.local_id, actor@));
    }
}

/// An id stands for a live actor exactly when the actor in its slot is of its generation.
pub proof fn lemma_which_ids_are_live(actors: Map<u64, ActorView>, id: ActorId)
    requires
        table_ok(actors),
    ensures
        has_actor(actors, id) <==> actors.contains_key(id.local_id)
            && actors[id.local_id].id.generation == id.generation,
        live_ids(actors).contains(id) <==> has_actor(actors, id),
{
}

/// The snapshots of a table are those of its live actors: one for each, in the order of their ids.
pub proof fn lemma_what_a_table_shows(actors: Map<u64, ActorView>, id: ActorId, at: int)
    requires
        table_ok(actors),
        actors.dom().finite(),
        0 <= at < table_snapshots(actors).len(),
    ensures
        has_actor(actors, id) ==> exists|i: int|
            0 <= i < table_snapshots(actors).len() && (#[trigger] table_snapshots(actors)[i]).id
                == id,
        has_actor(actors, table_snapshots(actors)[at].id),
        table_snapshots(actors)[at] == actors[table_snapshots(actors)[at].id.local_id].snapshot(),
        at > 0 ==> table_snapshots(actors)[at - 1].id.precedes(table_snapshots(actors)[at].id),
{
    let live = live_ids(actors);
    let slots = actors.dom();
    let ids = slots.map(|slot: u64| actors[slot].id);
    assert forall|other: ActorId| #[trigger] live.contains(other) implies ids.contains(other) by {
        assert(slots.contains(other.local_id));
    }
    assert(live.subset_of(ids));
    slots.lemma_map_finite(|slot: u64| actors[slot].id);
    vstd::set_lib::lemma_len_subset(live, ids);
    crate::collections::lemma_finite_set_is_listed(live);
    let listed = crate::collections::ascending(live);
    let shown = table_snapshots(actors);
    assert forall|i: int| 0 <= i < listed.len() implies has_actor(
        actors,
        #[trigger] listed[i],
    ) && shown[i].id == listed[i] by {
        assert(listed.contains(listed[i]));
        assert(live.contains(listed[i]));
    }
    if has_actor(actors, id) {
        assert(live.contains(id));
        let i = choose|i: int| 0 <= i < listed.len() && listed[i] == id;
        assert(shown[i].id == id);
    }
    assert(shown[at].id == listed[at]);
    if at > 0 {
        assert(listed[at - 1].precedes(listed[at]));
        assert(shown[at - 1].id == listed[at - 1]);
    }
}

} // verus!
