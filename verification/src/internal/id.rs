//! Actor id allocation.

use vstd::prelude::*;

use crate::types::ActorId;

verus! {

/// Allocates actor ids as reusable slots plus generations.
///
/// A slot whose generation counter is used up is not handed out again.
#[derive(Debug)]
pub struct ActorSlotAllocator {
    free_slots: Vec<u64>,
    generations: Vec<u64>,
}

impl ActorSlotAllocator {
    #[verifier::type_invariant]
    spec fn slots_ok(self) -> bool {
        &&& forall|i: int, j: int|
            0 <= i < j < self.free_slots@.len() ==> self.free_slots@[i] != self.free_slots@[j]
        &&& forall|i: int|
            0 <= i < self.free_slots@.len() ==> (#[trigger] self.free_slots@[i])
                < self.generations@.len() && self.generations@[self.free_slots@[i] as int]
                < u64::MAX
    }

    /// The number of slots handed out so far.
    pub closed spec fn slots(self) -> nat {
        self.generations@.len()
    }

    /// The generation that a slot is in.
    pub closed spec fn generation_of(self, slot: int) -> u64 {
        self.generations@[slot]
    }

    /// Whether a slot waits to be handed out again.
    pub closed spec fn is_free(self, slot: int) -> bool {
        exists|i: int| 0 <= i < self.free_slots@.len() && #[trigger] self.free_slots@[i] == slot
    }

    /// The slots that wait to be handed out again, the one to be used next last.
    pub closed spec fn spec_free_slots(self) -> Seq<u64> {
        self.free_slots@
    }

    /// Whether an id is in use: handed out and not released.
    pub open spec fn live(self, id: ActorId) -> bool {
        &&& id.local_id < self.slots()
        &&& id.generation == self.generation_of(id.local_id as int)
        &&& !self.is_free(id.local_id as int)
        &&& id.generation < u64::MAX
    }

    /// Whether an id was in use once and was released.
    pub open spec fn retired(self, id: ActorId) -> bool {
        &&& id.local_id < self.slots()
        &&& id.generation < self.generation_of(id.local_id as int)
    }

    /// The id that is handed out next.
    pub open spec fn next_id(self) -> ActorId {
        if self.spec_free_slots().len() > 0 {
            let slot = self.spec_free_slots().last();
            ActorId { local_id: slot, generation: self.generation_of(slot as int) }
        } else {
            ActorId { local_id: self.slots() as u64, generation: 0 }
        }
    }

    /// Creates an allocator that has handed out nothing.
    pub fn new() -> (allocator: Self)
        ensures
            allocator.slots() == 0,
            allocator.spec_free_slots() == Seq::<u64>::empty(),
            forall|id: ActorId| !#[trigger] allocator.live(id) && !allocator.retired(id),
    {
        ActorSlotAllocator { free_slots: Vec::new(), generations: Vec::new() }
    }

    /// Hands out an id: the slot released last in its new generation, or else a fresh slot.
    pub fn allocate(&mut self) -> (id: ActorId)
        ensures
            id == old(self).next_id(),
            !old(self).live(id),
            !old(self).retired(id),
            forall|other: ActorId| #[trigger]
                final(self).live(other) <==> old(self).live(other) || other == id,
            forall|other: ActorId| #[trigger]
                final(self).retired(other) <==> old(self).retired(other),
            old(self).spec_free_slots().len() > 0 ==> {
                &&& id.local_id == old(self).spec_free_slots().last()
                &&& id.generation == old(self).generation_of(id.local_id as int)
                &&& final(self).spec_free_slots() == old(self).spec_free_slots().drop_last()
                &&& final(self).slots() == old(self).slots()
            },
            old(self).spec_free_slots().len() == 0 ==> {
                &&& id.local_id == old(self).slots()
                &&& id.generation == 0
                &&& final(self).spec_free_slots() == old(self).spec_free_slots()
                &&& final(self).slots() == old(self).slots() + 1
            },
    {
        proof {
            use_type_invariant(&*self);
        }
        let mut free_slots: Vec<u64> = Vec::new();
        std::mem::swap(&mut self.free_slots, &mut free_slots);
        let ghost before = free_slots@;
        match free_slots.pop() {
            Some(slot) => {
                proof {
                    assert(before[before.len() - 1] == slot);
                    assert(old(self).free_slots@[before.len() - 1] == slot);
                    assert(slot < self.generations.len());
                    assert(free_slots@ =~= before.drop_last());
                    assert forall|i: int| 0 <= i < free_slots@.len() implies #[trigger] free_slots@[i]
                        == before[i] by {}
                }
                let generation: u64 = self.generations[slot as usize];
                self.free_slots = free_slots;
                let id = ActorId::new(slot, generation);
                proof {
                    assert(old(self).is_free(slot as int)) by {
                        assert(old(self).free_slots@[before.len() - 1] == slot);
                    }
                    assert(self.free_slots@ == before.drop_last());
                    assert forall|other: ActorId| #[trigger]
                        self.live(other) <==> old(self).live(other) || other == id by {
                        lemma_popped(before, other.local_id as int);
                        assert(self.is_free(other.local_id as int) <==> (other.local_id
                            != before.last() && old(self).is_free(other.local_id as int)));
                    }
                }
                id
            },
            None => {
                let mut generations: Vec<u64> = Vec::new();
                self.free_slots = free_slots;
                std::mem::swap(&mut self.generations, &mut generations);
                let ghost existing = generations@;
                let slot: u64 = generations.len() as u64;
                generations.push(0);
                proof {
                    assert(existing.len() + 1 == generations@.len());
                }
                self.generations = generations;
                let id = ActorId::new(slot, 0);
                proof {
                    assert(self.generations@[slot as int] == 0);
                    assert forall|other: ActorId| #[trigger]
                        self.live(other) <==> old(self).live(other) || other == id by {
                        if other.local_id < existing.len() {
                            assert(self.generations@[other.local_id as int]
                                == existing[other.local_id as int]);
                        }
                    }
                    assert forall|other: ActorId| #[trigger]
                        self.retired(other) <==> old(self).retired(other) by {
                        if other.local_id < existing.len() {
                            assert(self.generations@[other.local_id as int]
                                == existing[other.local_id as int]);
                        }
                    }
                }
                id
            },
        }
    }

    /// Takes an id back. A stale id, or one whose slot was never handed out, changes nothing.
    pub fn release(&mut self, actor: ActorId)
        requires
            old(self).live(actor) || old(self).retired(actor) || actor.local_id >= old(
                self,
            ).slots(),
        ensures
            forall|other: ActorId| #[trigger]
                final(self).live(other) <==> old(self).live(other) && other != actor,
            forall|other: ActorId| #[trigger]
                final(self).retired(other) <==> old(self).retired(other) || (old(self).live(actor)
                    && other == actor),
            final(self).slots() == old(self).slots(),
            final(self).spec_free_slots() == (if old(self).live(actor) && actor.generation + 1
                < u64::MAX {
                old(self).spec_free_slots().push(actor.local_id)
            } else {
                old(self).spec_free_slots()
            }),
    {
        proof {
            use_type_invariant(&*self);
        }
        if actor.local_id >= self.generations.len() as u64 {
            return ;
        }
        let slot: usize = actor.local_id as usize;
        if self.generations[slot] != actor.generation {
            return ;
        }
        let ghost was = *self;
        let mut generations: Vec<u64> = Vec::new();
        let mut free_slots: Vec<u64> = Vec::new();
        std::mem::swap(&mut self.free_slots, &mut free_slots);
        std::mem::swap(&mut self.generations, &mut generations);
        let ghost free_before = free_slots@;
        let ghost existing = generations@;
        let next: u64 = actor.generation + 1;
        generations.set(slot, next);
        if next < u64::MAX {
            free_slots.push(actor.local_id);
        }
        proof {
            assert(was.live(actor));
            assert(forall|i: int| 0 <= i < free_before.len() ==> #[trigger] free_before[i]
                != actor.local_id) by {
                assert(!was.is_free(actor.local_id as int));
                assert(was.free_slots@ == free_before);
            }
            assert forall|i: int| 0 <= i < free_slots@.len() implies (#[trigger] free_slots@[i])
                < generations@.len() && generations@[free_slots@[i] as int] < u64::MAX by {
                if i < free_before.len() {
                    assert(free_slots@[i] == free_before[i]);
                    assert(was.free_slots@[i] == free_before[i]);
                    assert(existing[free_before[i] as int] < u64::MAX);
                }
            }
            assert forall|i: int, j: int| 0 <= i < j < free_slots@.len() implies free_slots@[i]
                != free_slots@[j] by {
                assert(free_slots@[i] == free_before[i]);
                assert(was.free_slots@[i] == free_before[i]);
                if j < free_before.len() {
                    assert(free_slots@[j] == free_before[j]);
                    assert(was.free_slots@[j] == free_before[j]);
                }
            }
        }
        self.generations = generations;
        self.free_slots = free_slots;
        proof {
            assert forall|other: ActorId| #[trigger]
                self.live(other) <==> was.live(other) && other != actor by {
                lemma_freed(free_before, self.free_slots@, actor.local_id, other.local_id as int);
                if other.local_id != actor.local_id {
                    assert(self.is_free(other.local_id as int) == was.is_free(
                        other.local_id as int,
                    ));
                } else if next < u64::MAX {
                    assert(self.free_slots@[free_before.len() as int] == actor.local_id);
                    assert(self.is_free(actor.local_id as int));
                }
                if other.local_id < existing.len() && other.local_id != actor.local_id {
                    assert(self.generations@[other.local_id as int]
                        == existing[other.local_id as int]);
                }
            }
            assert forall|other: ActorId| #[trigger]
                self.retired(other) <==> was.retired(other) || other == actor by {
                if other.local_id < existing.len() && other.local_id != actor.local_id {
                    assert(self.generations@[other.local_id as int]
                        == existing[other.local_id as int]);
                }
            }
        }
    }
}

/// Popping the last free slot leaves every other slot as free as it was.
proof fn lemma_popped(before: Seq<u64>, slot: int)
    requires
        before.len() > 0,
        forall|i: int, j: int| 0 <= i < j < before.len() ==> before[i] != before[j],
    ensures
        (exists|i: int| 0 <= i < before.drop_last().len() && #[trigger] before.drop_last()[i]
            == slot) <==> (slot != before.last() && exists|i: int|
            0 <= i < before.len() && #[trigger] before[i] == slot),
{
    let after = before.drop_last();
    if exists|i: int| 0 <= i < after.len() && #[trigger] after[i] == slot {
        let i = choose|i: int| 0 <= i < after.len() && #[trigger] after[i] == slot;
        assert(before[i] == slot);
        assert(before[i] != before[before.len() - 1]);
    }
    if slot != before.last() && exists|i: int| 0 <= i < before.len() && #[trigger] before[i]
        == slot {
        let i = choose|i: int| 0 <= i < before.len() && #[trigger] before[i] == slot;
        assert(after[i] == slot);
    }
}

/// Freeing one slot leaves every other slot as free as it was.
proof fn lemma_freed(before: Seq<u64>, after: Seq<u64>, freed: u64, slot: int)
    requires
        after == before || after == before.push(freed),
    ensures
        slot != freed ==> ((exists|i: int| 0 <= i < after.len() && #[trigger] after[i] == slot)
            <==> (exists|i: int| 0 <= i < before.len() && #[trigger] before[i] == slot)),
{
    if slot != freed {
        if exists|i: int| 0 <= i < after.len() && #[trigger] after[i] == slot {
            let i = choose|i: int| 0 <= i < after.len() && #[trigger] after[i] == slot;
            assert(before[i] == slot);
        }
        if exists|i: int| 0 <= i < before.len() && #[trigger] before[i] == slot {
            let i = choose|i: int| 0 <= i < before.len() && #[trigger] before[i] == slot;
            assert(after[i] == slot);
        }
    }
}

impl Default for ActorSlotAllocator {
    fn default() -> (allocator: Self)
        ensures
            allocator.slots() == 0,
            allocator.spec_free_slots() == Seq::<u64>::empty(),
            forall|id: ActorId| !#[trigger] allocator.live(id) && !allocator.retired(id),
    {
        ActorSlotAllocator::new()
    }
}

} // verus!
