//! Actors that have exited.

use std::collections::BTreeMap;

use vstd::prelude::*;

use crate::snapshot::{ActorSnapshot, SnapshotView};
use crate::types::ActorId;

verus! {

/// The last snapshots of actors that have exited.
#[derive(Debug)]
pub struct CompletedActors {
    snapshots: BTreeMap<u128, ActorSnapshot>,
}

spec fn key_of(id: ActorId) -> u128 {
    (id.local_id as u128 * 0x1_0000_0000_0000_0000 + id.generation as u128) as u128
}

proof fn lemma_keys_differ(left: ActorId, right: ActorId)
    ensures
        key_of(left) == key_of(right) ==> left == right,
        key_of(left) == left.local_id * 0x1_0000_0000_0000_0000 + left.generation,
{
}

spec fn id_of(key: u128) -> ActorId {
    ActorId {
        local_id: (key / 0x1_0000_0000_0000_0000) as u64,
        generation: (key % 0x1_0000_0000_0000_0000) as u64,
    }
}

proof fn lemma_key_round_trip(id: ActorId, key: u128)
    ensures
        id_of(key_of(id)) == id,
        key_of(id_of(key)) == key,
{
    lemma_keys_differ(id, id);
    lemma_keys_differ(id_of(key), id);
}

fn key(id: ActorId) -> (key: u128)
    ensures
        key == key_of(id),
{
    proof {
        lemma_keys_differ(id, id);
    }
    id.local_id as u128 * 0x1_0000_0000_0000_0000 + id.generation as u128
}

impl View for CompletedActors {
    type V = Map<ActorId, SnapshotView>;

    closed spec fn view(&self) -> Map<ActorId, SnapshotView> {
        Map::new(
            |id: ActorId| self.snapshots@.contains_key(key_of(id)),
            |id: ActorId| self.snapshots@[key_of(id)]@,
        )
    }
}

impl CompletedActors {
    /// Creates an empty collection.
    pub fn new() -> (completed: Self)
        ensures
            completed@ == Map::<ActorId, SnapshotView>::empty(),
    {
        let completed = CompletedActors { snapshots: BTreeMap::new() };
        assert(completed@ =~= Map::<ActorId, SnapshotView>::empty());
        completed
    }

    /// Returns a copy of the last snapshot of an actor.
    pub fn get(&self, id: ActorId) -> (snapshot: Option<ActorSnapshot>)
        ensures
            match snapshot {
                Some(snapshot) => self@.contains_key(id) && snapshot@ == self@[id],
                None => !self@.contains_key(id),
            },
    {
        match self.snapshots.get(&key(id)) {
            Some(snapshot) => Some(snapshot.clone()),
            None => None,
        }
    }

    /// Keeps the last snapshot of an actor.
    pub fn insert(&mut self, id: ActorId, snapshot: ActorSnapshot)
        ensures
            final(self)@ == old(self)@.insert(id, snapshot@),
    {
        let _displaced = self.snapshots.insert(key(id), snapshot);
        proof {
            assert forall|other: ActorId| key_of(other) == key_of(id) implies other == id by {
                lemma_keys_differ(other, id);
            }
            assert(self@ =~= old(self)@.insert(id, snapshot@));
        }
    }

    /// Returns how many actors are kept.
    pub fn len(&self) -> (len: usize)
        ensures
            len == self@.dom().len(),
    {
        proof {
            let keys = self.snapshots@.dom();
            let decode = |key: u128| id_of(key);
            assert forall|key: u128| key_of(#[trigger] id_of(key)) == key by {
                lemma_key_round_trip(ActorId { local_id: 0, generation: 0 }, key);
            }
            assert forall|id: ActorId| self@.dom().contains(id) <==> keys.map(decode).contains(
                id,
            ) by {
                lemma_key_round_trip(id, 0);
                assert(decode(key_of(id)) == id);
            }
            assert(keys.map(decode) =~= self@.dom());
            vstd::set_lib::lemma_map_size(keys, self@.dom(), decode);
        }
        self.snapshots.len()
    }
}

} // verus!
