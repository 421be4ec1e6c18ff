//! The state of the single-threaded runtime and how actors enter it.

use std::collections::VecDeque;

use vstd::prelude::*;

use crate::context::{SpawnError, SpawnOptions};
use crate::internal::config::normalize_config;
use crate::internal::id::ActorSlotAllocator;
use crate::runtime::actor_state::{ActorState, ActorView};
use crate::runtime::state::{RuntimeState, StateView};
use crate::scheduler::SchedulerConfig;
use crate::time::Timestamp;
use crate::types::ActorId;

use super::frame::{Frame, FrameView};
use super::spec::LocalView;

verus! {

/// The single-threaded runtime.
#[derive(Debug)]
pub struct LocalRuntime {
    /// Scheduler configuration.
    pub config: SchedulerConfig,
    /// Ids in use.
    pub ids: ActorSlotAllocator,
    /// What the runtime knows.
    pub state: RuntimeState,
    /// Actors that wait for a turn, the next one first.
    pub run_queue: VecDeque<ActorId>,
    /// Actors out of their place, the innermost one last.
    pub stack: Vec<Frame>,
}

impl View for LocalRuntime {
    type V = LocalView;

    open spec fn view(&self) -> LocalView {
        LocalView {
            state: self.state@,
            queue: self.run_queue@,
            stack: self.stack@.map_values(|frame: Frame| frame@),
        }
    }
}

/// Whether all ids of actors are in use, and no two actors have the same slot.
pub open spec fn ids_ok(ids: ActorSlotAllocator, view: LocalView) -> bool {
    &&& forall|slot: u64| #[trigger]
        view.state.actors.contains_key(slot) ==> ids.live(view.state.actors[slot].id)
    &&& forall|i: int|
        0 <= i < view.stack.len() ==> {
            &&& ids.live((#[trigger] view.stack[i]).actor.id)
            &&& !view.state.actors.contains_key(view.stack[i].actor.id.local_id)
            &&& view.stack[i].actor.wf()
        }
    &&& forall|i: int, j: int|
        0 <= i < j < view.stack.len() ==> (#[trigger] view.stack[i]).actor.id != (
        #[trigger] view.stack[j]).actor.id
}

/// Whether one more id is in use, which was not in use before.
pub open spec fn allocated(
    before: ActorSlotAllocator,
    after: ActorSlotAllocator,
    id: ActorId,
) -> bool {
    &&& !before.live(id)
    &&& !before.retired(id)
    &&& forall|other: ActorId| #[trigger] after.live(other) <==> before.live(other) || other == id
    &&& forall|other: ActorId| #[trigger] after.retired(other) <==> before.retired(other)
}

impl LocalRuntime {
    /// Whether the state and the ids are in order.
    pub open spec fn sound(self) -> bool {
        &&& self.state.wf()
        &&& ids_ok(self.ids, self@)
    }

    /// Whether the runtime is in order: the state and the ids are, and the actors in their places
    /// and on the stack are counted and no more than the runtime has room for.
    pub open spec fn wf(self) -> bool {
        &&& self.sound()
        &&& super::turn_laws::counted(self@, self.config.max_actors)
    }

    /// Whether the same ids are in use and the configuration is the same.
    pub open spec fn same_setup(self, other: LocalRuntime) -> bool {
        self.config == other.config && self.ids == other.ids
    }

    /// Creates a runtime without actors.
    pub fn new(config: SchedulerConfig) -> (runtime: Self)
        ensures
            runtime.wf(),
            runtime.config == crate::internal::config::normalized_local(config),
            runtime.ids.slots() == 0,
            runtime.ids.spec_free_slots() == Seq::<u64>::empty(),
            runtime@ == (LocalView {
                state: StateView::blank(),
                queue: Seq::empty(),
                stack: Seq::empty(),
            }),
    {
        let runtime = LocalRuntime {
            config: normalize_config(config),
            ids: ActorSlotAllocator::new(),
            state: RuntimeState::new(),
            run_queue: VecDeque::new(),
            stack: Vec::new(),
        };
        assert(runtime@.stack =~= Seq::<FrameView>::empty());
        assert(runtime@.queue =~= Seq::<ActorId>::empty());
        runtime
    }

    /// Returns the scheduler configuration used by the runtime.
    pub fn config(&self) -> (config: &SchedulerConfig)
        ensures
            *config == self.config,
    {
        &self.config
    }

    /// Sets the time at which the next events are stamped.
    pub fn set_time(&mut self, now: Timestamp)
        requires
            old(self).wf(),
        ensures
            final(self).wf(),
            final(self).same_setup(*old(self)),
            final(self)@ == old(self)@.with_state((StateView { now, ..old(self)@.state })),
    {
        self.state.set_time(now);
    }

    /// Returns how many actors are on the stack.
    pub fn depth(&self) -> (depth: usize)
        ensures
            depth == self@.stack.len(),
    {
        self.stack.len()
    }

    /// Enters a new actor. The id is used up even when the runtime refuses the actor.
    pub fn spawn_with_options(&mut self, name: &'static str, options: SpawnOptions) -> (outcome:
        Result<ActorId, SpawnError>)
        requires
            old(self).wf(),
        ensures
            final(self).wf(),
            final(self).config == old(self).config,
            ({
                    let before = old(self)@;
                    let config = old(self).config;
                    let id = old(self).ids.next_id();
                    let actor = ActorView::fresh(id, name, options, config, 0).marked();
                    &&& allocated(old(self).ids, final(self).ids, id)
                    &&& outcome is Ok <==> before.state.has_room(config.max_actors)
                        && before.state.accepts_name(actor)
                    &&& outcome matches Ok(spawned) ==> spawned == id && final(self)@
                        == before.with_state(before.state.admitted(actor)).queued(id, true)
                    &&& outcome is Err ==> final(self)@ == before
                    &&& outcome matches Err(error) ==> before.state.refuses_with(
                        config.max_actors,
                        actor,
                        error,
                    )
                }),
    {
        let id = self.ids.allocate();
        let mut actor = ActorState::new(id, name, options, &self.config, 0);
        let _marked = actor.mark_scheduled();
        let ghost view = actor@;
        proof {
            lemma_fresh_slot(*old(self), *self, id);
        }
        self.enter(actor)
    }

    /// Enters an actor with a fresh id and puts it into the run queue.
    pub(crate) fn enter(&mut self, actor: ActorState) -> (outcome: Result<ActorId, SpawnError>)
        requires
            old(self).wf(),
            actor@.wf(),
            old(self).ids.live(actor@.id),
            !old(self)@.state.actors.contains_key(actor@.id.local_id),
            forall|i: int|
                0 <= i < old(self)@.stack.len() ==> (#[trigger] old(self)@.stack[i]).actor.id
                    != actor@.id,
        ensures
            final(self).wf(),
            final(self).same_setup(*old(self)),
            ({
                let before = old(self)@;
                &&& outcome is Ok <==> before.state.has_room(old(self).config.max_actors)
                    && before.state.accepts_name(actor@)
                &&& outcome matches Ok(id) ==> id == actor@.id && final(self)@
                    == before.with_state(before.state.admitted(actor@)).queued(id, true)
                &&& outcome is Err ==> final(self)@ == before
                &&& outcome matches Err(error) ==> before.state.refuses_with(
                    old(self).config.max_actors,
                    actor@,
                    error,
                )
            }),
    {
        let id = actor.id;
        let ghost view = actor@;
        let max_actors: usize = self.config.max_actors;
        match self.state.insert_actor(actor, max_actors) {
            Ok(()) => {
                self.run_queue.push_back(id);
                proof {
                    lemma_admitted_ids(self.ids, old(self)@, self@, view);
                }
                Ok(id)
            },
            Err(error) => Err(error),
        }
    }
}

/// The actors after an actor with a fresh slot has entered.
proof fn lemma_admitted_ids(
    ids: ActorSlotAllocator,
    before: LocalView,
    after: LocalView,
    actor: ActorView,
)
    requires
        ids_ok(ids, before),
        ids.live(actor.id),
        !before.state.actors.contains_key(actor.id.local_id),
        forall|i: int|
            0 <= i < before.stack.len() ==> (#[trigger] before.stack[i]).actor.id != actor.id,
        after.state == before.state.admitted(actor),
        after.stack == before.stack,
    ensures
        ids_ok(ids, after),
{
    let placed = before.state.actors.insert(actor.id.local_id, actor);
    assert forall|slot: u64| #[trigger] after.state.actors.contains_key(slot) implies ids.live(
        after.state.actors[slot].id,
    ) && (slot == actor.id.local_id || before.state.actors.contains_key(slot)) by {
        assert(placed.contains_key(slot) ==> placed[slot].id == after.state.actors[slot].id);
    }
    assert forall|i: int| 0 <= i < after.stack.len() implies {
        &&& ids.live((#[trigger] after.stack[i]).actor.id)
        &&& !after.state.actors.contains_key(after.stack[i].actor.id.local_id)
        &&& after.stack[i].actor.wf()
    } by {
        assert(before.stack[i].actor.id != actor.id);
    }
}

/// A fresh id has a slot that no actor has.
pub(crate) proof fn lemma_fresh_slot(before: LocalRuntime, after: LocalRuntime, id: ActorId)
    requires
        before.wf(),
        after@ == before@,
        !before.ids.live(id),
        forall|other: ActorId| #[trigger]
            after.ids.live(other) <==> before.ids.live(other) || other == id,
    ensures
        ids_ok(after.ids, after@),
        !before@.state.actors.contains_key(id.local_id),
        forall|i: int|
            0 <= i < before@.stack.len() ==> (#[trigger] before@.stack[i]).actor.id != id,
{
    assert(after.ids.live(id));
    if before@.state.actors.contains_key(id.local_id) {
        let other = before@.state.actors[id.local_id].id;
        assert(before.ids.live(other));
        assert(after.ids.live(other));
        assert(other.local_id == id.local_id);
    }
}

} // verus!
