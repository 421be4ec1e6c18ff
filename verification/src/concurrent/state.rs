//! The state of the multicore runtime and how actors enter it.

use vstd::prelude::*;

use crate::context::{SpawnError, SpawnOptions};
use crate::internal::config::normalize_scheduler_config;
use crate::runtime::actor_state::{adopt, ActorState, ActorView};
use crate::runtime::state::{RuntimeState, StateView};
use crate::scheduler::{PoolKind, SchedulerConfig};
use crate::time::Timestamp;
use crate::types::{ActorId, ChildSpec, SupervisorFlags};

verus! {

/// The state of the multicore runtime, which its workers share under one lock.
///
/// Actors stay in their place while they run. An exit that is forced on an actor takes effect
/// when the actor reaches its next scheduling boundary.
#[derive(Debug)]
pub struct ConcurrentRuntime {
    /// Scheduler configuration.
    pub config: SchedulerConfig,
    /// The slot of the next actor.
    pub next_local_id: u64,
    /// What the runtime knows.
    pub state: RuntimeState,
}

/// The number of the scheduler that an actor is assigned to.
pub open spec fn scheduler_of(config: SchedulerConfig, actor: ActorId) -> usize {
    ((actor.local_id as usize) % crate::internal::config::at_least_one(
        config.scheduler_count,
    )) as usize
}

/// The state once a new actor has entered, linked with its parent when it asks for that.
pub open spec fn joined(state: StateView, actor: ActorView, link_to_parent: bool) -> StateView {
    let admitted = state.admitted(actor);
    match actor.parent {
        Some(parent) => if link_to_parent {
            admitted.link_added(parent, actor.id).link_added(actor.id, parent)
        } else {
            admitted
        },
        None => admitted,
    }
}

impl ConcurrentRuntime {
    /// Whether the state is in order: every live actor has a slot that was given out, and the
    /// live actors are counted and no more than the runtime has room for.
    pub open spec fn wf(self) -> bool {
        &&& self.state.wf()
        &&& super::soundness::counted(self.state@, self.config.max_actors)
        &&& forall|slot: u64| #[trigger]
            self.state@.actors.contains_key(slot) ==> slot < self.next_local_id
    }

    /// Whether only what the runtime knows differs from another runtime.
    pub open spec fn same_setup(self, other: ConcurrentRuntime) -> bool {
        self.config == other.config && self.next_local_id == other.next_local_id
    }

    /// Creates a runtime without actors.
    pub fn new(config: SchedulerConfig) -> (runtime: Self)
        ensures
            runtime.wf(),
            runtime.config == crate::internal::config::normalized(config),
            runtime.next_local_id == 0,
            runtime.state@ == StateView::blank(),
    {
        ConcurrentRuntime {
            config: normalize_scheduler_config(config),
            next_local_id: 0,
            state: RuntimeState::new(),
        }
    }

    /// Returns the scheduler configuration used by the runtime.
    pub fn config(&self) -> (config: &SchedulerConfig)
        ensures
            *config == self.config,
    {
        &self.config
    }

    /// Sets the time at which the next events are stamped.
    pub fn set_time(&mut self, now: Timestamp)
        requires
            old(self).wf(),
        ensures
            final(self).wf(),
            final(self).same_setup(*old(self)),
            final(self).state@ == (StateView { now, ..old(self).state@ }),
    {
        self.state.set_time(now);
    }

    /// Tells whether there is a slot left for one more actor.
    pub fn can_allocate(&self) -> (available: bool)
        ensures
            available == (self.next_local_id < u64::MAX),
    {
        self.next_local_id < u64::MAX
    }

    /// Picks the scheduler that an actor is assigned to.
    pub fn actor_scheduler(&self, actor: ActorId) -> (scheduler: usize)
        ensures
            scheduler == scheduler_of(self.config, actor),
    {
        let count: usize = if self.config.scheduler_count == 0 {
            1
        } else {
            self.config.scheduler_count
        };
        actor.local_id as usize % count
    }

    /// Enters a new actor. The slot is used up even when the runtime refuses the actor.
    pub fn spawn_with_options(&mut self, name: &'static str, options: SpawnOptions) -> (outcome:
        Result<ActorId, SpawnError>)
        requires
            old(self).wf(),
            old(self).next_local_id < u64::MAX,
        ensures
            final(self).wf(),
            final(self).config == old(self).config,
            final(self).next_local_id == old(self).next_local_id + 1,
            ({
                let before = old(self).state@;
                let id = ActorId { local_id: old(self).next_local_id, generation: 0 };
                let config = old(self).config;
                let actor = ActorView::fresh(id, name, options, config, scheduler_of(config, id));
                &&& outcome is Ok <==> before.has_room(config.max_actors) && before.accepts_name(
                    actor,
                )
                &&& outcome matches Ok(spawned) ==> spawned == id && final(self).state@
                    == joined(before, actor, options.link_to_parent)
                &&& outcome is Err ==> final(self).state@ == before
                &&& outcome matches Err(error) ==> before.refuses_with(
                    config.max_actors,
                    actor,
                    error,
                )
            }),
    {
        let id = ActorId::new(self.next_local_id, 0);
        self.next_local_id = self.next_local_id + 1;
        let scheduler_id = self.actor_scheduler(id);
        let link_to_parent = options.link_to_parent;
        let parent = options.parent;
        let actor = ActorState::new(id, name, options, &self.config, scheduler_id);
        let max_actors: usize = self.config.max_actors;
        match self.state.insert_actor(actor, max_actors) {
            Ok(()) => {},
            Err(error) => {
                return Err(error);
            },
        }
        if link_to_parent {
            if let Some(parent) = parent {
                let _parent_end = self.state.add_link(parent, id);
                let _child_end = self.state.add_link(id, parent);
            }
        }
        Ok(id)
    }

    /// Enters a new actor on behalf of a live actor, which becomes its parent and ancestor unless
    /// the options say otherwise. Nothing happens when the spawning actor is gone.
    pub fn spawn_from(&mut self, spawner: ActorId, name: &'static str, options: SpawnOptions) -> (
    outcome: Option<Result<ActorId, SpawnError>>)
        requires
            old(self).wf(),
            old(self).next_local_id < u64::MAX,
        ensures
            final(self).wf(),
            final(self).config == old(self).config,
            outcome is Some <==> old(self).state@.has(spawner),
            outcome is None ==> *final(self) == *old(self),
            outcome matches Some(outcome) ==> {
                let before = old(self).state@;
                let id = ActorId { local_id: old(self).next_local_id, generation: 0 };
                let config = old(self).config;
                exists|complete: SpawnOptions| #[trigger]
                    crate::runtime::actor_state::adopted(before.actor(spawner), options, complete) && ({
                        let actor = ActorView::fresh(
                            id,
                            name,
                            complete,
                            config,
                            scheduler_of(config, id),
                        );
                        &&& final(self).next_local_id == old(self).next_local_id + 1
                        &&& outcome is Ok <==> before.has_room(config.max_actors)
                            && before.accepts_name(actor)
                        &&& outcome matches Ok(spawned) ==> spawned == id
                            && final(self).state@ == joined(
                            before,
                            actor,
                            options.link_to_parent,
                        )
                        &&& outcome is Err ==> final(self).state@ == before
                        &&& outcome matches Err(error) ==> before.refuses_with(
                            config.max_actors,
                            actor,
                            error,
                        )
                    })
            },
    {
        let complete = match self.state.actors.get(spawner) {
            Some(actor) => adopt(actor, options),
            None => {
                return None;
            },
        };
        let ghost view = old(self).state@.actor(spawner);
        assert(crate::runtime::actor_state::adopted(view, options, complete));
        Some(self.spawn_with_options(name, complete))
    }

    /// Counts a job that an actor submits to a pool.
    pub fn count_job(&mut self, pool: PoolKind)
        requires
            old(self).wf(),
        ensures
            final(self).wf(),
            final(self).same_setup(*old(self)),
            final(self).state@ == (StateView {
                metrics: old(self).state@.metrics.with_job(pool),
                ..old(self).state@
            }),
    {
        self.state.metrics.count_job(pool);
    }

    /// Turns trapping of exits on or off for an actor.
    pub fn set_trap_exit(&mut self, actor: ActorId, enabled: bool)
        requires
            old(self).wf(),
        ensures
            final(self).wf(),
            final(self).same_setup(*old(self)),
            final(self).state@ == (if old(self).state@.has(actor) {
                old(self).state@.with(
                    ActorView { trap_exit: enabled, ..old(self).state@.actor(actor) },
                )
            } else {
                old(self).state@
            }),
    {
        if let Some(mut state) = self.state.actors.take(actor) {
            state.trap_exit = enabled;
            self.state.actors.put(state);
            assert(self.state@.actors =~= old(self).state@.with(
                ActorView { trap_exit: enabled, ..old(self).state@.actor(actor) },
            ).actors);
        }
    }

    /// Configures an actor as a supervisor.
    pub fn configure_supervisor(
        &mut self,
        actor: ActorId,
        flags: SupervisorFlags,
        child_specs: Vec<ChildSpec>,
    )
        requires
            old(self).wf(),
        ensures
            final(self).wf(),
            final(self).same_setup(*old(self)),
            final(self).state@ == (if old(self).state@.has(actor) {
                old(self).state@.with(
                    old(self).state@.actor(actor).configured(flags, child_specs@),
                )
            } else {
                old(self).state@
            }),
    {
        if let Some(mut state) = self.state.actors.take(actor) {
            state.configure_supervisor(flags, child_specs);
            self.state.actors.put(state);
            assert(self.state@.actors =~= old(self).state@.with(
                old(self).state@.actor(actor).configured(flags, child_specs@),
            ).actors);
        }
    }

    /// Records a restart by a supervisor and tells whether it is within limits.
    pub fn record_supervisor_restart(&mut self, actor: ActorId, now: Timestamp) -> (allowed: bool)
        requires
            old(self).wf(),
        ensures
            final(self).wf(),
            final(self).same_setup(*old(self)),
            allowed == (!old(self).state@.has(actor) || old(self).state@.actor(
                actor,
            ).may_restart(now)),
            final(self).state@ == (if old(self).state@.has(actor) {
                old(self).state@.with(old(self).state@.actor(actor).restarted(now))
            } else {
                old(self).state@
            }),
    {
        match self.state.actors.take(actor) {
            Some(mut state) => {
                let allowed = state.record_restart(now);
                self.state.actors.put(state);
                assert(self.state@.actors =~= old(self).state@.with(
                    old(self).state@.actor(actor).restarted(now),
                ).actors);
                allowed
            },
            None => true,
        }
    }

    /// Notes that a child of a supervisor runs.
    pub fn supervisor_child_started(
        &mut self,
        supervisor: ActorId,
        child_id: &'static str,
        actor: ActorId,
    )
        requires
            old(self).wf(),
        ensures
            final(self).wf(),
            final(self).same_setup(*old(self)),
            final(self).state@ == (if old(self).state@.has(supervisor) {
                old(self).state@.with(
                    old(self).state@.actor(supervisor).running_child(child_id@, actor),
                )
            } else {
                old(self).state@
            }),
    {
        if let Some(mut state) = self.state.actors.take(supervisor) {
            state.child_started(child_id, actor);
            self.state.actors.put(state);
            assert(self.state@.actors =~= old(self).state@.with(
                old(self).state@.actor(supervisor).running_child(child_id@, actor),
            ).actors);
        }
    }

    /// Notes that a child of a supervisor is gone.
    pub fn supervisor_child_exited(
        &mut self,
        supervisor: ActorId,
        child_id: &'static str,
        actor: ActorId,
    )
        requires
            old(self).wf(),
        ensures
            final(self).wf(),
            final(self).same_setup(*old(self)),
            final(self).state@ == (if old(self).state@.has(supervisor) {
                old(self).state@.with(
                    old(self).state@.actor(supervisor).cleared_child(child_id@, actor),
                )
            } else {
                old(self).state@
            }),
    {
        if let Some(mut state) = self.state.actors.take(supervisor) {
            state.child_exited(child_id, actor);
            self.state.actors.put(state);
            assert(self.state@.actors =~= old(self).state@.with(
                old(self).state@.actor(supervisor).cleared_child(child_id@, actor),
            ).actors);
        }
    }
}

} // verus!
