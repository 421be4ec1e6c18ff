//! Everything a runtime knows, whichever way it runs its actors.

use vstd::prelude::*;

use crate::context::SpawnError;
use crate::internal::shutdown::ShutdownTracker;
use crate::lifecycle::{
    copy_ids, CrashReport, CrashView, LifecycleEvent, LifecycleView, ShutdownPhase,
};
use crate::observability::events::{EventLog, EventView, KindView};
use crate::registry::{Registry, RegistryError};
use crate::scheduler::SchedulerMetrics;
use crate::snapshot::{ActorSnapshot, SnapshotView};
use crate::time::Timestamp;
use crate::types::{ActorId, ActorIdentity, ExitReason, Ref, TimerToken};

use super::actor_state::{ActorState, ActorView};
use super::completed::CompletedActors;
use super::table::ActorTable;
use super::timers::TimerSet;

verus! {

/// Everything a runtime knows, whichever way it runs its actors.
#[derive(Debug)]
pub struct RuntimeState {
    /// Live actors.
    pub actors: ActorTable,
    /// Actors that have exited.
    pub completed: CompletedActors,
    /// Registered names.
    pub registry: Registry,
    /// Number of live actors.
    pub live_actors: usize,
    /// Timers that have not fired.
    pub timers: TimerSet,
    /// Call timeouts that have not fired.
    pub calls: TimerSet,
    /// What has happened.
    pub events: EventLog,
    /// Scheduler metrics.
    pub metrics: SchedulerMetrics,
}

/// Everything a runtime knows, with mathematical collections.
pub struct StateView {
    /// Live actors by slot.
    pub actors: Map<u64, ActorView>,
    /// Last snapshots of actors that have exited.
    pub completed: Map<ActorId, SnapshotView>,
    /// Registered names.
    pub names: Map<Seq<char>, ActorId>,
    /// Number of live actors.
    pub live_actors: usize,
    /// Timers that have not fired.
    pub timers: Set<(ActorId, Ref)>,
    /// Call timeouts that have not fired.
    pub calls: Set<(ActorId, Ref)>,
    /// What has happened, oldest first.
    pub log: Seq<EventView>,
    /// The time at which the next event is stamped.
    pub now: Timestamp,
    /// Scheduler metrics.
    pub metrics: SchedulerMetrics,
}

impl View for RuntimeState {
    type V = StateView;

    open spec fn view(&self) -> StateView {
        StateView {
            actors: self.actors@,
            completed: self.completed@,
            names: self.registry@,
            live_actors: self.live_actors,
            timers: self.timers@,
            calls: self.calls@,
            log: self.events@,
            now: self.events.spec_now(),
            metrics: self.metrics,
        }
    }
}

impl StateView {
    /// Whether an actor is live and in its place.
    pub open spec fn has(self, id: ActorId) -> bool {
        super::table::has_actor(self.actors, id)
    }

    /// A live actor.
    pub open spec fn actor(self, id: ActorId) -> ActorView {
        self.actors[id.local_id]
    }

    /// What a runtime knows that has no actors, with the time at the origin.
    pub open spec fn blank() -> StateView {
        StateView {
            actors: Map::empty(),
            completed: Map::empty(),
            names: Map::empty(),
            live_actors: 0,
            timers: Set::empty(),
            calls: Set::empty(),
            log: Seq::empty(),
            now: Timestamp { nanos: 0 },
            metrics: SchedulerMetrics {
                utilization: 0,
                normal_turns: 0,
                idle_turns: 0,
                blocking_io_jobs: 0,
                blocking_cpu_jobs: 0,
            },
        }
    }

    /// The state with an actor put in its place.
    pub open spec fn with(self, actor: ActorView) -> StateView {
        StateView { actors: self.actors.insert(actor.id.local_id, actor), ..self }
    }

    /// The state once a timer of an actor is cancelled: it does not fire, and firings that wait in
    /// the mailbox of the actor are withdrawn.
    pub open spec fn timer_cancelled(self, id: ActorId, token: TimerToken) -> StateView {
        let dropped = StateView { timers: self.timers.remove((id, token.spec_ref())), ..self };
        if self.has(id) {
            dropped.with(self.actor(id).withdrawn(token))
        } else {
            dropped
        }
    }

    /// The state without an actor.
    pub open spec fn without(self, id: ActorId) -> StateView {
        StateView { actors: self.actors.remove(id.local_id), ..self }
    }

    /// The state with one more event of the given kind.
    pub open spec fn noted(self, kind: KindView) -> StateView {
        StateView {
            log: self.log.push(
                EventView { sequence: (self.log.len() + 1) as u64, emitted_at: self.now, kind },
            ),
            ..self
        }
    }

    /// The state with one more lifecycle event.
    pub open spec fn logged(self, event: LifecycleView) -> StateView {
        self.noted(KindView::Lifecycle(event))
    }

    /// Who an actor is, as long as the runtime remembers it.
    pub open spec fn identity(self, id: ActorId) -> Option<ActorIdentity> {
        if self.has(id) {
            Some(self.actor(id).identity())
        } else if self.completed.contains_key(id) {
            let snapshot = self.completed[id];
            Some(
                ActorIdentity {
                    actor: snapshot.id,
                    name: snapshot.name,
                    registered_name: snapshot.registered_name,
                },
            )
        } else {
            None
        }
    }

    /// Who the given actors are, without those that the runtime does not remember.
    pub open spec fn identities(self, ids: Seq<ActorId>) -> Seq<ActorIdentity>
        decreases ids.len(),
    {
        if ids.len() == 0 {
            Seq::empty()
        } else {
            let others = self.identities(ids.drop_last());
            match self.identity(ids.last()) {
                Some(identity) => others.push(identity),
                None => others,
            }
        }
    }

    /// The snapshot of an actor that is live or has exited.
    pub open spec fn snapshot_of(self, id: ActorId) -> Option<SnapshotView> {
        if self.has(id) {
            Some(self.actor(id).snapshot())
        } else if self.completed.contains_key(id) {
            Some(self.completed[id])
        } else {
            None
        }
    }

    /// The state once the parent of a supervised actor knows that it runs.
    pub open spec fn announced(self, actor: ActorView) -> StateView {
        match (actor.parent, actor.supervisor_child) {
            (Some(parent), Some(child)) => if self.has(parent) {
                self.with(self.actor(parent).running_child(child@, actor.id))
            } else {
                self
            },
            _ => self,
        }
    }

    /// The state once the parent of a supervised actor knows that it is gone.
    pub open spec fn renounced(self, actor: ActorView) -> StateView {
        match (actor.parent, actor.supervisor_child) {
            (Some(parent), Some(child)) => if self.has(parent) {
                self.with(self.actor(parent).cleared_child(child@, actor.id))
            } else {
                self
            },
            _ => self,
        }
    }

    /// Whether there is room for one more actor.
    pub open spec fn has_room(self, max_actors: usize) -> bool {
        self.live_actors < max_actors
    }

    /// Whether the registry accepts the name that an actor starts with, if it has one.
    pub open spec fn accepts_name(self, actor: ActorView) -> bool {
        match actor.registered_name {
            Some(name) => crate::registry::accepts(self.names, actor.id, name@),
            None => true,
        }
    }

    /// Whether an error tells why there is no room for a new actor, or why it cannot have its name.
    pub open spec fn refuses_with(
        self,
        max_actors: usize,
        actor: ActorView,
        error: SpawnError,
    ) -> bool {
        if !self.has_room(max_actors) {
            error is CapacityExceeded
        } else {
            error matches SpawnError::Registry(refusal) && actor.registered_name matches Some(name)
                && crate::registry::is_refusal(refusal, self.names, actor.id, name@)
        }
    }

    /// The state with a new actor.
    pub open spec fn admitted(self, actor: ActorView) -> StateView {
        StateView {
            names: match actor.registered_name {
                Some(name) => crate::registry::registered(self.names, actor.id, name@),
                None => self.names,
            },
            live_actors: (self.live_actors + 1) as usize,
            ..self.with(actor)
        }.announced(actor).logged(
            LifecycleView::Spawn {
                actor: actor.id,
                name: actor.name,
                registered_name: actor.registered_name,
                parent: actor.parent,
                supervisor_child: actor.supervisor_child,
            },
        )
    }

    /// The state once everything is cancelled that waits for an actor, and its name is free.
    pub open spec fn released(self, id: ActorId) -> StateView {
        StateView {
            names: crate::registry::unregistered(self.names, id),
            timers: super::timers::without_actor(self.timers, id),
            calls: super::timers::without_actor(self.calls, id),
            ..self
        }
    }

    /// The state once a requested shutdown is reported as completed.
    pub open spec fn shut_down(self, actor: ActorView, reason: ExitReason) -> StateView {
        match actor.shutdown {
            Some(tracker) => self.logged(
                LifecycleView::Shutdown {
                    requester: tracker.requester,
                    actor: actor.id,
                    policy: tracker.policy,
                    phase: ShutdownPhase::Completed,
                    reason: Some(reason),
                },
            ),
            None => self,
        }
    }

    /// The crash report of an actor.
    pub open spec fn crash_of(self, actor: ActorView, reason: ExitReason) -> CrashView {
        CrashView {
            actor: actor.id,
            name: actor.name,
            registered_name: actor.registered_name,
            parent: actor.parent,
            parent_context: match actor.parent {
                Some(parent) => self.identity(parent),
                None => None,
            },
            ancestors: actor.ancestors,
            ancestor_contexts: self.identities(actor.ancestors),
            supervisor_child: actor.supervisor_child,
            reason,
        }
    }

    /// The state once an exit is reported, with a crash report unless it was orderly.
    pub open spec fn exited(self, actor: ActorView, reason: ExitReason) -> StateView {
        let reported = self.logged(
            LifecycleView::Exit {
                actor: actor.id,
                name: actor.name,
                reason,
                parent: actor.parent,
                ancestors: actor.ancestors,
            },
        );
        if reason.is_orderly() {
            reported
        } else {
            reported.noted(KindView::Crash(reported.crash_of(actor, reason)))
        }
    }

    /// The state once the last snapshot of an actor is kept and it no longer counts as live.
    pub open spec fn archived(self, actor: ActorView) -> StateView {
        StateView {
            completed: self.completed.insert(actor.id, actor.snapshot()),
            live_actors: if self.live_actors == 0 {
                0
            } else {
                (self.live_actors - 1) as usize
            },
            ..self
        }
    }

    /// The state with a link noted at one of its ends.
    pub open spec fn link_added(self, at: ActorId, other: ActorId) -> StateView {
        if self.has(at) {
            self.with(ActorView { links: self.actor(at).links.insert(other), ..self.actor(at) })
        } else {
            self
        }
    }

    /// The state with a link removed at one of its ends.
    pub open spec fn link_removed(self, at: ActorId, other: ActorId) -> StateView {
        if self.has(at) {
            self.with(ActorView { links: self.actor(at).links.remove(other), ..self.actor(at) })
        } else {
            self
        }
    }

    /// The state with a monitor noted at the watched actor.
    pub open spec fn watch_added(self, at: ActorId, reference: Ref, watcher: ActorId) -> StateView {
        if self.has(at) {
            self.with(
                ActorView {
                    monitors_in: self.actor(at).monitors_in.insert(reference, watcher),
                    ..self.actor(at)
                },
            )
        } else {
            self
        }
    }

    /// The state with a monitor removed at the watched actor.
    pub open spec fn watch_removed(self, at: ActorId, reference: Ref) -> StateView {
        if self.has(at) {
            self.with(
                ActorView {
                    monitors_in: self.actor(at).monitors_in.remove(reference),
                    ..self.actor(at)
                },
            )
        } else {
            self
        }
    }

    /// The state with a monitor noted at the watching actor.
    pub open spec fn watching_added(
        self,
        at: ActorId,
        reference: Ref,
        target: ActorId,
    ) -> StateView {
        if self.has(at) {
            self.with(
                ActorView {
                    monitors_out: self.actor(at).monitors_out.insert(reference, target),
                    ..self.actor(at)
                },
            )
        } else {
            self
        }
    }

    /// The state with a monitor removed at the watching actor.
    pub open spec fn watching_removed(self, at: ActorId, reference: Ref) -> StateView {
        if self.has(at) {
            self.with(
                ActorView {
                    monitors_out: self.actor(at).monitors_out.remove(reference),
                    ..self.actor(at)
                },
            )
        } else {
            self
        }
    }

    /// The state once the monitors of an actor on others are gone from those others.
    pub open spec fn watches_dropped(
        self,
        actor: ActorId,
        monitoring: Seq<(Ref, ActorId)>,
    ) -> StateView
        decreases monitoring.len(),
    {
        if monitoring.len() == 0 {
            self
        } else {
            let others = self.watches_dropped(actor, monitoring.drop_last());
            let (reference, target) = monitoring.last();
            if target == actor {
                others
            } else {
                others.watch_removed(target, reference)
            }
        }
    }
}

impl RuntimeState {
    /// Whether every actor stands in its place and the event log is in order.
    pub open spec fn wf(self) -> bool {
        &&& super::table::table_ok(self.actors@)
        &&& self.events.wf()
        &&& crate::registry::names_distinct(self.registry@)
    }

    /// Creates the state of a runtime without actors.
    pub fn new() -> (state: Self)
        ensures
            state.wf(),
            state@ == StateView::blank(),
    {
        RuntimeState {
            actors: ActorTable::new(),
            completed: CompletedActors::new(),
            registry: Registry::new(),
            live_actors: 0,
            timers: TimerSet::new(),
            calls: TimerSet::new(),
            events: EventLog::new(),
            metrics: SchedulerMetrics::default(),
        }
    }

    /// Sets the time at which the next events are stamped.
    pub fn set_time(&mut self, now: Timestamp)
        requires
            old(self).wf(),
        ensures
            final(self)@ == (StateView { now, ..old(self)@ }),
            final(self).wf(),
    {
        self.events.set_time(now);
    }

    /// Records a lifecycle event.
    pub fn record_lifecycle_event(&mut self, event: LifecycleEvent)
        requires
            old(self).wf(),
        ensures
            final(self)@ == old(self)@.logged(event@),
            final(self).wf(),
    {
        self.events.record_lifecycle(event);
    }

    /// Returns who an actor is, as long as the runtime remembers it.
    pub fn actor_identity(&self, id: ActorId) -> (identity: Option<ActorIdentity>)
        ensures
            identity == self@.identity(id),
    {
        match self.actors.get(id) {
            Some(actor) => Some(actor.identity()),
            None => match self.completed.get(id) {
                Some(snapshot) => Some(
                    ActorIdentity::new(snapshot.id, snapshot.name, snapshot.registered_name),
                ),
                None => None,
            },
        }
    }

    /// Returns who the given actors are, without those that the runtime does not remember.
    fn known_identities(&self, ids: &Vec<ActorId>) -> (identities: Vec<ActorIdentity>)
        ensures
            identities@ == self@.identities(ids@),
    {
        let mut identities: Vec<ActorIdentity> = Vec::new();
        let mut at: usize = 0;
        while at < ids.len()
            invariant
                at <= ids@.len(),
                identities@ == self@.identities(ids@.take(at as int)),
            decreases ids@.len() - at,
        {
            proof {
                assert(ids@.take(at + 1).drop_last() =~= ids@.take(at as int));
            }
            if let Some(identity) = self.actor_identity(ids[at]) {
                identities.push(identity);
            }
            at = at + 1;
        }
        assert(ids@.take(at as int) =~= ids@);
        identities
    }

    /// Returns the snapshot of an actor that is live or has exited.
    pub fn actor_snapshot(&self, id: ActorId) -> (snapshot: Option<ActorSnapshot>)
        ensures
            match (snapshot, self@.snapshot_of(id)) {
                (Some(snapshot), Some(view)) => snapshot@ == view,
                (None, None) => true,
                _ => false,
            },
    {
        match self.actors.get(id) {
            Some(actor) => Some(actor.snapshot()),
            None => self.completed.get(id),
        }
    }

    /// Tells the parent of a supervised actor that it runs.
    fn announce(&mut self, id: ActorId, parent: Option<ActorId>, child: Option<&'static str>)
        requires
            old(self).wf(),
        ensures
            final(self).wf(),
            forall|actor: ActorView|
                actor.id == id && actor.parent == parent && actor.supervisor_child == child
                    ==> final(self)@ == #[trigger] old(self)@.announced(actor),
    {
        if let (Some(parent), Some(child)) = (parent, child) {
            if let Some(mut state) = self.actors.take(parent) {
                state.child_started(child, id);
                self.actors.put(state);
                assert(self.actors@ =~= old(self)@.with(
                    old(self)@.actor(parent).running_child(child@, id),
                ).actors);
            }
        }
    }

    /// Tells the parent of a supervised actor that it is gone.
    pub fn renounce(&mut self, id: ActorId, parent: Option<ActorId>, child: Option<&'static str>)
        requires
            old(self).wf(),
        ensures
            final(self).wf(),
            forall|actor: ActorView|
                actor.id == id && actor.parent == parent && actor.supervisor_child == child
                    ==> final(self)@ == #[trigger] old(self)@.renounced(actor),
    {
        if let (Some(parent), Some(child)) = (parent, child) {
            if let Some(mut state) = self.actors.take(parent) {
                state.child_exited(child, id);
                self.actors.put(state);
                assert(self.actors@ =~= old(self)@.with(
                    old(self)@.actor(parent).cleared_child(child@, id),
                ).actors);
            }
        }
    }

    /// Adds a new actor, unless there is no room for it or its name is refused.
    pub fn insert_actor(&mut self, actor: ActorState, max_actors: usize) -> (outcome: Result<
        (),
        SpawnError,
    >)
        requires
            old(self).wf(),
            actor@.wf(),
        ensures
            final(self).wf(),
            outcome is Ok <==> old(self)@.has_room(max_actors) && old(self)@.accepts_name(actor@),
            outcome is Ok ==> final(self)@ == old(self)@.admitted(actor@),
            outcome is Err ==> final(self)@ == old(self)@,
            outcome matches Err(error) ==> old(self)@.refuses_with(max_actors, actor@, error),
    {
        if self.live_actors >= max_actors {
            return Err(SpawnError::CapacityExceeded);
        }
        let ghost view = actor@;
        let id = actor.id;
        let name = actor.name;
        let parent = actor.parent;
        let child = actor.supervisor_child;
        let registered_name = actor.registered_name.clone();
        if let Some(wanted) = actor.registered_name.clone() {
            match self.registry.register(id, wanted) {
                Ok(()) => {},
                Err(error) => {
                    return Err(SpawnError::Registry(error));
                },
            }
        }
        self.actors.put(actor);
        self.live_actors = self.live_actors + 1;
        let ghost placed = self@;
        self.announce(id, parent, child);
        proof {
            let base = StateView {
                names: match view.registered_name {
                    Some(name) => crate::registry::registered(old(self)@.names, view.id, name@),
                    None => old(self)@.names,
                },
                live_actors: (old(self)@.live_actors + 1) as usize,
                ..old(self)@.with(view)
            };
            assert(placed == base);
            assert(self@ == placed.announced(view));
        }
        self.record_lifecycle_event(
            LifecycleEvent::Spawn {
                actor: id,
                name,
                registered_name,
                parent,
                supervisor_child: child,
            },
        );
        Ok(())
    }

    /// Frees the name of an actor and cancels everything that waits for it.
    pub fn release(&mut self, id: ActorId)
        requires
            old(self).wf(),
        ensures
            final(self)@ == old(self)@.released(id),
            final(self).wf(),
    {
        let _name = self.registry.unregister(id);
        self.timers.remove_actor(id);
        self.calls.remove_actor(id);
    }

    /// Reports a requested shutdown as completed.
    pub fn record_shutdown_completed(
        &mut self,
        id: ActorId,
        shutdown: Option<ShutdownTracker>,
        reason: &ExitReason,
    )
        requires
            old(self).wf(),
        ensures
            final(self).wf(),
            forall|actor: ActorView|
                actor.id == id && actor.shutdown == shutdown ==> final(self)@
                    == #[trigger] old(self)@.shut_down(actor, *reason),
    {
        if let Some(tracker) = shutdown {
            self.record_lifecycle_event(
                LifecycleEvent::Shutdown {
                    requester: tracker.requester,
                    actor: id,
                    policy: tracker.policy,
                    phase: ShutdownPhase::Completed,
                    reason: Some(reason.clone()),
                },
            );
        }
    }

    /// Reports an exit, with a crash report unless it was orderly.
    pub fn record_exit(&mut self, actor: &ActorState, reason: &ExitReason)
        requires
            old(self).wf(),
        ensures
            final(self)@ == old(self)@.exited(actor@, *reason),
            final(self).wf(),
    {
        self.record_lifecycle_event(
            LifecycleEvent::Exit {
                actor: actor.id,
                name: actor.name,
                reason: reason.clone(),
                parent: actor.parent,
                ancestors: copy_ids(&actor.ancestors),
            },
        );
        if !reason.orderly() {
            let parent_context = match actor.parent {
                Some(parent) => self.actor_identity(parent),
                None => None,
            };
            let ancestor_contexts = self.known_identities(&actor.ancestors);
            let report = CrashReport {
                actor: actor.id,
                name: actor.name,
                registered_name: actor.registered_name.clone(),
                parent: actor.parent,
                parent_context,
                ancestors: copy_ids(&actor.ancestors),
                ancestor_contexts,
                supervisor_child: actor.supervisor_child,
                reason: reason.clone(),
            };
            self.events.record_crash(report);
        }
    }

    /// Keeps the last snapshot of an actor, which no longer counts as live.
    pub fn archive(&mut self, actor: &ActorState)
        requires
            old(self).wf(),
        ensures
            final(self)@ == old(self)@.archived(actor@),
            final(self).wf(),
    {
        self.completed.insert(actor.id, actor.snapshot());
        if self.live_actors > 0 {
            self.live_actors = self.live_actors - 1;
        }
    }

    /// Notes a link at one of its ends and tells whether it was not there before.
    pub fn add_link(&mut self, at: ActorId, other: ActorId) -> (added: bool)
        requires
            old(self).wf(),
        ensures
            final(self)@ == old(self)@.link_added(at, other),
            final(self).wf(),
            added == (old(self)@.has(at) && !old(self)@.actor(at).links.contains(other)),
    {
        match self.actors.take(at) {
            Some(mut state) => {
                let added = state.links.insert(other);
                self.actors.put(state);
                assert(self.actors@ =~= old(self)@.link_added(at, other).actors);
                added
            },
            None => false,
        }
    }

    /// Removes a link at one of its ends and tells whether it was there.
    pub fn remove_link(&mut self, at: ActorId, other: ActorId) -> (removed: bool)
        requires
            old(self).wf(),
        ensures
            final(self)@ == old(self)@.link_removed(at, other),
            final(self).wf(),
            removed == (old(self)@.has(at) && old(self)@.actor(at).links.contains(other)),
    {
        match self.actors.take(at) {
            Some(mut state) => {
                let removed = state.links.remove(other);
                self.actors.put(state);
                assert(self.actors@ =~= old(self)@.link_removed(at, other).actors);
                removed
            },
            None => false,
        }
    }

    /// Notes a monitor at the watched actor.
    pub fn add_watch(&mut self, at: ActorId, reference: Ref, watcher: ActorId)
        requires
            old(self).wf(),
        ensures
            final(self)@ == old(self)@.watch_added(at, reference, watcher),
            final(self).wf(),
    {
        if let Some(mut state) = self.actors.take(at) {
            state.monitors_in.insert(reference, watcher);
            self.actors.put(state);
            assert(self.actors@ =~= old(self)@.watch_added(at, reference, watcher).actors);
        }
    }

    /// Removes a monitor at the watched actor.
    pub fn remove_watch(&mut self, at: ActorId, reference: Ref)
        requires
            old(self).wf(),
        ensures
            final(self)@ == old(self)@.watch_removed(at, reference),
            final(self).wf(),
    {
        if let Some(mut state) = self.actors.take(at) {
            let _watcher = state.monitors_in.remove(reference);
            self.actors.put(state);
            assert(self.actors@ =~= old(self)@.watch_removed(at, reference).actors);
        }
    }

    /// Notes a monitor at the watching actor.
    pub fn add_watching(&mut self, at: ActorId, reference: Ref, target: ActorId)
        requires
            old(self).wf(),
        ensures
            final(self)@ == old(self)@.watching_added(at, reference, target),
            final(self).wf(),
    {
        if let Some(mut state) = self.actors.take(at) {
            state.monitors_out.insert(reference, target);
            self.actors.put(state);
            assert(self.actors@ =~= old(self)@.watching_added(at, reference, target).actors);
        }
    }

    /// Removes a monitor at the watching actor and returns the actor that it watched.
    pub fn remove_watching(&mut self, at: ActorId, reference: Ref) -> (target: Option<ActorId>)
        requires
            old(self).wf(),
        ensures
            final(self)@ == old(self)@.watching_removed(at, reference),
            final(self).wf(),
            target == (if old(self)@.has(at) && old(self)@.actor(at).monitors_out.contains_key(
                reference,
            ) {
                Some(old(self)@.actor(at).monitors_out[reference])
            } else {
                None
            }),
    {
        match self.actors.take(at) {
            Some(mut state) => {
                let target = state.monitors_out.remove(reference);
                self.actors.put(state);
                assert(self.actors@ =~= old(self)@.watching_removed(at, reference).actors);
                target
            },
            None => None,
        }
    }

    /// Removes the monitors of an actor on others from those others.
    pub fn remove_outgoing_monitors(&mut self, actor: ActorId, monitoring: &Vec<(Ref, ActorId)>)
        requires
            old(self).wf(),
        ensures
            final(self)@ == old(self)@.watches_dropped(actor, monitoring@),
            final(self).wf(),
            final(self)@.actors.dom() == old(self)@.actors.dom(),
            final(self)@.live_actors == old(self)@.live_actors,
    {
        let mut at: usize = 0;
        while at < monitoring.len()
            invariant
                at <= monitoring@.len(),
                self.wf(),
                self@ == old(self)@.watches_dropped(actor, monitoring@.take(at as int)),
                self@.actors.dom() == old(self)@.actors.dom(),
                self@.live_actors == old(self)@.live_actors,
            decreases monitoring@.len() - at,
        {
            proof {
                assert(monitoring@.take(at + 1).drop_last() =~= monitoring@.take(at as int));
            }
            let (reference, target) = monitoring[at];
            if target != actor {
                self.remove_watch(target, reference);
            }
            at = at + 1;
        }
        assert(monitoring@.take(at as int) =~= monitoring@);
    }

    /// Registers a name for a live actor.
    pub fn register_name(&mut self, actor: ActorId, name: String) -> (outcome: Result<
        (),
        RegistryError,
    >)
        requires
            old(self).wf(),
        ensures
            final(self).wf(),
            outcome is Ok <==> old(self)@.has(actor) && crate::registry::accepts(
                old(self)@.names,
                actor,
                name@,
            ),
            outcome is Err ==> final(self)@ == old(self)@,
            outcome is Ok ==> final(self)@ == (StateView {
                names: crate::registry::registered(old(self)@.names, actor, name@),
                ..old(self)@.with(
                    (ActorView { registered_name: Some(name), ..old(self)@.actor(actor) }),
                )
            }),
            outcome matches Err(error) ==> if !old(self)@.has(actor) {
                error == RegistryError::NoProc(actor)
            } else {
                crate::registry::is_refusal(error, old(self)@.names, actor, name@)
            },
    {
        if !self.actors.contains(actor) {
            return Err(RegistryError::NoProc(actor));
        }
        match self.registry.register(actor, name.clone()) {
            Ok(()) => {},
            Err(error) => {
                return Err(error);
            },
        }
        if let Some(mut state) = self.actors.take(actor) {
            state.registered_name = Some(name);
            self.actors.put(state);
            assert(self.actors@ =~= old(self)@.with(
                (ActorView { registered_name: Some(name), ..old(self)@.actor(actor) }),
            ).actors);
        }
        Ok(())
    }

    /// Removes the registered name of an actor and returns it.
    pub fn unregister_name(&mut self, actor: ActorId) -> (removed: Option<String>)
        requires
            old(self).wf(),
        ensures
            final(self).wf(),
            match crate::registry::name_in(old(self)@.names, actor) {
                Some(name) => {
                    &&& removed matches Some(text) && text@ == name
                    &&& final(self)@ == (StateView {
                        names: old(self)@.names.remove(name),
                        ..(if old(self)@.has(actor) {
                            old(self)@.with(
                                (ActorView { registered_name: None, ..old(self)@.actor(actor) }),
                            )
                        } else {
                            old(self)@
                        })
                    })
                },
                None => removed is None && final(self)@ == old(self)@,
            },
    {
        match self.registry.unregister(actor) {
            Some(removed) => {
                if let Some(mut state) = self.actors.take(actor) {
                    state.registered_name = None;
                    self.actors.put(state);
                    assert(self.actors@ =~= old(self)@.with(
                        (ActorView { registered_name: None, ..old(self)@.actor(actor) }),
                    ).actors);
                }
                Some(removed)
            },
            None => None,
        }
    }
}

} // verus!
