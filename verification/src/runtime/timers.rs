//! Timers that were set and have not fired.

use vstd::prelude::*;

use crate::types::{ActorId, Ref};

verus! {

/// Timers by the actor that set them and their reference.
#[derive(Debug)]
pub struct TimerSet {
    entries: Vec<(ActorId, Ref)>,
}

impl View for TimerSet {
    type V = Set<(ActorId, Ref)>;

    closed spec fn view(&self) -> Set<(ActorId, Ref)> {
        self.entries@.to_set()
    }
}

/// The timers of all actors but one.
pub open spec fn without_actor(timers: Set<(ActorId, Ref)>, actor: ActorId) -> Set<(ActorId, Ref)> {
    timers.filter(|entry: (ActorId, Ref)| entry.0 != actor)
}

impl TimerSet {
    #[verifier::type_invariant]
    spec fn entries_ok(self) -> bool {
        forall|i: int, j: int|
            0 <= i < j < self.entries@.len() ==> self.entries@[i] != self.entries@[j]
    }

    /// Creates a set without timers.
    pub fn new() -> (timers: Self)
        ensures
            timers@ == Set::<(ActorId, Ref)>::empty(),
    {
        let timers = TimerSet { entries: Vec::new() };
        assert(timers@ =~= Set::<(ActorId, Ref)>::empty());
        timers
    }

    fn place(&self, actor: ActorId, reference: Ref) -> (place: Option<usize>)
        ensures
            match place {
                Some(at) => at < self.entries@.len() && self.entries@[at as int] == (
                    actor,
                    reference,
                ),
                None => !self@.contains((actor, reference)),
            },
    {
        let mut at: usize = 0;
        while at < self.entries.len()
            invariant
                at <= self.entries@.len(),
                forall|i: int| 0 <= i < at ==> #[trigger] self.entries@[i] != (actor, reference),
            decreases self.entries@.len() - at,
        {
            let entry = self.entries[at];
            if entry.0 == actor && entry.1 == reference {
                return Some(at);
            }
            at = at + 1;
        }
        None
    }

    /// Notes that a timer is set.
    pub fn insert(&mut self, actor: ActorId, reference: Ref)
        ensures
            final(self)@ == old(self)@.insert((actor, reference)),
    {
        match self.place(actor, reference) {
            Some(at) => {
                assert(self.entries@.contains(self.entries@[at as int]));
                assert(self@ =~= old(self)@.insert((actor, reference)));
            },
            None => {
                proof {
                    use_type_invariant(&*self);
                }
                let mut entries: Vec<(ActorId, Ref)> = Vec::new();
                std::mem::swap(&mut self.entries, &mut entries);
                let ghost before = entries@;
                entries.push((actor, reference));
                proof {
                    assert forall|i: int, j: int| 0 <= i < j < entries@.len() implies entries@[i]
                        != entries@[j] by {
                        if j == before.len() {
                            assert(before.contains(before[i]));
                        }
                    }
                }
                self.entries = entries;
                proof {
                    assert forall|entry: (ActorId, Ref)|
                        self.entries@.contains(entry) <==> before.contains(entry) || entry == (
                            actor,
                            reference,
                        ) by {
                        if before.contains(entry) {
                            let i = choose|i: int| 0 <= i < before.len() && before[i] == entry;
                            assert(self.entries@[i] == entry);
                        }
                        if entry == (actor, reference) {
                            assert(self.entries@[before.len() as int] == entry);
                        }
                        if self.entries@.contains(entry) {
                            let i = choose|i: int|
                                0 <= i < self.entries@.len() && self.entries@[i] == entry;
                            if i < before.len() {
                                assert(before[i] == entry);
                            }
                        }
                    }
                    assert(self@ =~= old(self)@.insert((actor, reference)));
                }
            },
        }
    }

    /// Takes a timer out and tells whether it was set.
    pub fn remove(&mut self, actor: ActorId, reference: Ref) -> (removed: bool)
        ensures
            removed == old(self)@.contains((actor, reference)),
            final(self)@ == old(self)@.remove((actor, reference)),
    {
        match self.place(actor, reference) {
            Some(at) => {
                proof {
                    use_type_invariant(&*self);
                    assert(self.entries@.contains(self.entries@[at as int]));
                }
                let mut entries: Vec<(ActorId, Ref)> = Vec::new();
                std::mem::swap(&mut self.entries, &mut entries);
                let ghost before = entries@;
                let _entry = entries.remove(at);
                proof {
                    let after = entries@;
                    assert forall|i: int| 0 <= i < after.len() implies #[trigger] after[i]
                        == before[if i < at {
                        i
                    } else {
                        i + 1
                    }] by {}
                    assert forall|entry: (ActorId, Ref)|
                        after.contains(entry) <==> before.contains(entry) && entry != (
                            actor,
                            reference,
                        ) by {
                        if before.contains(entry) && entry != (actor, reference) {
                            let i = choose|i: int| 0 <= i < before.len() && before[i] == entry;
                            let j = if i < at {
                                i
                            } else {
                                i - 1
                            };
                            assert(after[j] == entry);
                        }
                        if after.contains(entry) {
                            let i = choose|i: int| 0 <= i < after.len() && after[i] == entry;
                            let j = if i < at {
                                i
                            } else {
                                i + 1
                            };
                            assert(before[j] == entry);
                        }
                    }
                }
                self.entries = entries;
                assert(self@ =~= old(self)@.remove((actor, reference)));
                true
            },
            None => {
                assert(self@ =~= old(self)@.remove((actor, reference)));
                false
            },
        }
    }

    /// Takes all timers of an actor out.
    pub fn remove_actor(&mut self, actor: ActorId)
        ensures
            final(self)@ == without_actor(old(self)@, actor),
    {
        proof {
            use_type_invariant(&*self);
        }
        let mut kept: Vec<(ActorId, Ref)> = Vec::new();
        let mut at: usize = 0;
        while at < self.entries.len()
            invariant
                *self == *old(self),
                at <= self.entries@.len(),
                forall|i: int, j: int|
                    0 <= i < j < self.entries@.len() ==> self.entries@[i] != self.entries@[j],
                forall|i: int, j: int| 0 <= i < j < kept@.len() ==> kept@[i] != kept@[j],
                forall|entry: (ActorId, Ref)| #[trigger]
                    kept@.contains(entry) <==> entry.0 != actor && exists|i: int|
                        0 <= i < at && #[trigger] self.entries@[i] == entry,
            decreases self.entries@.len() - at,
        {
            let entry = self.entries[at];
            let ghost before = kept@;
            if entry.0 != actor {
                kept.push(entry);
            }
            proof {
                assert forall|i: int, j: int| 0 <= i < j < kept@.len() implies kept@[i]
                    != kept@[j] by {
                    if j == before.len() {
                        assert(before.contains(before[i]));
                    }
                }
                assert forall|other: (ActorId, Ref)| #[trigger]
                    kept@.contains(other) <==> other.0 != actor && exists|i: int|
                        0 <= i < at + 1 && #[trigger] self.entries@[i] == other by {
                    if kept@.contains(other) {
                        let k = choose|k: int| 0 <= k < kept@.len() && kept@[k] == other;
                        if k < before.len() {
                            assert(before[k] == other);
                            assert(before.contains(other));
                            let i = choose|i: int|
                                0 <= i < at && #[trigger] self.entries@[i] == other;
                            assert(0 <= i < at + 1);
                        } else {
                            assert(self.entries@[at as int] == other);
                        }
                    }
                    if other.0 != actor && exists|i: int|
                        0 <= i < at + 1 && #[trigger] self.entries@[i] == other {
                        let i = choose|i: int|
                            0 <= i < at + 1 && #[trigger] self.entries@[i] == other;
                        if i < at {
                            assert(before.contains(other));
                            let k = choose|k: int| 0 <= k < before.len() && before[k] == other;
                            assert(kept@[k] == other);
                        } else {
                            assert(kept@[kept@.len() - 1] == other);
                        }
                    }
                }
            }
            at = at + 1;
        }
        self.entries = kept;
        proof {
            assert forall|entry: (ActorId, Ref)|
                self.entries@.contains(entry) <==> old(self).entries@.contains(entry) && entry.0
                    != actor by {}
            assert(self@ =~= without_actor(old(self)@, actor));
        }
    }
}

/// Taking the timers of an actor out leaves those of all others.
pub proof fn lemma_only_the_timers_of_one_actor_go(
    timers: Set<(ActorId, Ref)>,
    actor: ActorId,
    other: ActorId,
    reference: Ref,
)
    ensures
        !without_actor(timers, actor).contains((actor, reference)),
        other != actor ==> without_actor(timers, actor).contains((other, reference))
            == timers.contains((other, reference)),
{
}

} // verus!
