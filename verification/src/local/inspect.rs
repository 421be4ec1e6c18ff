//! What the single-threaded runtime tells of itself.

use vstd::prelude::*;

use crate::lifecycle::{CrashReport, LifecycleEvent};
use crate::observability::{
    build_actor_tree, build_metrics_snapshot, build_runtime_introspection, ActorTree, EventCursor,
    RuntimeEvent, RuntimeIntrospection, RuntimeMetricsSnapshot,
};
use crate::registry::RegistryError;
use crate::runtime::actor_state::ActorView;
use crate::runtime::state::StateView;
use crate::scheduler::{RunQueueSnapshot, SchedulerMetrics};
use crate::snapshot::{ActorSnapshot, SupervisorSnapshot};
use crate::time::Timestamp;
use crate::types::{ActorId, ActorIdentity};

use super::machine::LocalRuntime;

verus! {

/// The run queue of the only scheduler.
pub open spec fn only_queue(state: StateView) -> RunQueueSnapshot {
    let ids = crate::collections::ascending(crate::runtime::table::live_ids(state.actors));
    RunQueueSnapshot {
        scheduler_id: 0,
        runnable: crate::runtime::report::runnable_on(state.actors, ids, 1, 0) as usize,
        waiting: crate::runtime::report::waiting_on(state.actors, ids, 1, 0) as usize,
        injected: 0,
        stolen: 0,
    }
}

impl LocalRuntime {
    /// Returns whether the actor id refers to a live actor in its place.
    pub fn contains(&self, actor: ActorId) -> (found: bool)
        ensures
            found == self@.state.has(actor),
    {
        self.state.actors.contains(actor)
    }

    /// Looks up a registered actor by name.
    pub fn resolve_name(&self, name: &str) -> (actor: Option<ActorId>)
        ensures
            actor == (if self@.state.names.contains_key(name@) {
                Some(self@.state.names[name@])
            } else {
                None
            }),
    {
        self.state.registry.resolve(name)
    }

    /// Registers a live actor under the provided name.
    pub fn register_name(&mut self, actor: ActorId, name: String) -> (outcome: Result<
        (),
        RegistryError,
    >)
        requires
            old(self).wf(),
        ensures
            final(self).wf(),
            final(self).same_setup(*old(self)),
            ({
                let before = old(self)@;
                &&& outcome is Ok <==> before.state.has(actor) && crate::registry::accepts(
                    before.state.names,
                    actor,
                    name@,
                )
                &&& outcome is Err ==> final(self)@ == before
                &&& outcome is Ok ==> final(self)@ == before.with_state(
                    (StateView {
                        names: crate::registry::registered(before.state.names, actor, name@),
                        ..before.state.with(
                            (ActorView {
                                registered_name: Some(name),
                                ..before.state.actor(actor)
                            }),
                        )
                    }),
                )
                &&& outcome matches Err(error) ==> if !before.state.has(actor) {
                    error == RegistryError::NoProc(actor)
                } else {
                    crate::registry::is_refusal(error, before.state.names, actor, name@)
                }
            }),
    {
        let outcome = self.state.register_name(actor, name);
        proof {
            super::events::lemma_same_actors(self.ids, old(self)@, self@);
        }
        outcome
    }

    /// Removes the current registered name of an actor.
    pub fn unregister_name(&mut self, actor: ActorId) -> (removed: Option<String>)
        requires
            old(self).wf(),
        ensures
            final(self).wf(),
            final(self).same_setup(*old(self)),
            ({
                let before = old(self)@;
                match crate::registry::name_in(before.state.names, actor) {
                    Some(name) => {
                        &&& removed matches Some(text) && text@ == name
                        &&& final(self)@ == before.with_state(
                            (StateView {
                                names: before.state.names.remove(name),
                                ..(if before.state.has(actor) {
                                    before.state.with(
                                        (ActorView {
                                            registered_name: None,
                                            ..before.state.actor(actor)
                                        }),
                                    )
                                } else {
                                    before.state
                                })
                            }),
                        )
                    },
                    None => removed is None && final(self)@ == before,
                }
            }),
    {
        let removed = self.state.unregister_name(actor);
        proof {
            super::events::lemma_same_actors(self.ids, old(self)@, self@);
        }
        removed
    }

    /// Returns the current or completed snapshot for an actor.
    pub fn actor_snapshot(&self, actor: ActorId) -> (snapshot: Option<ActorSnapshot>)
        ensures
            match (snapshot, self@.state.snapshot_of(actor)) {
                (Some(snapshot), Some(view)) => snapshot@ == view,
                (None, None) => true,
                _ => false,
            },
    {
        self.state.actor_snapshot(actor)
    }

    /// Returns snapshots for all live actors in their places.
    pub fn actor_snapshots(&self) -> (snapshots: Vec<ActorSnapshot>)
        requires
            self.wf(),
        ensures
            crate::observability::topology::snapshot_views(snapshots@)
                == crate::runtime::table::table_snapshots(self@.state.actors),
    {
        self.state.actors.snapshots()
    }

    /// Returns who an actor is, as long as the runtime remembers it.
    pub fn actor_identity(&self, actor: ActorId) -> (identity: Option<ActorIdentity>)
        ensures
            identity == self@.state.identity(actor),
    {
        self.state.actor_identity(actor)
    }

    /// Returns the tracked supervisor state for a live supervisor actor, which forgets the
    /// restarts that have left its restart window.
    pub fn supervisor_snapshot(&mut self, actor: ActorId, now: Timestamp) -> (snapshot: Option<
        SupervisorSnapshot,
    >)
        requires
            old(self).wf(),
        ensures
            final(self).wf(),
            final(self).same_setup(*old(self)),
            final(self)@ == old(self)@.with_state(final(self)@.state),
            crate::runtime::report::snapshot_taken(
                old(self)@.state,
                actor,
                now,
                snapshot,
                final(self)@.state,
            ),
    {
        let snapshot = self.state.supervisor_snapshot(actor, now);
        proof {
            super::events::lemma_same_actors(self.ids, old(self)@, self@);
        }
        snapshot
    }

    /// Returns the accumulated runtime lifecycle events.
    pub fn lifecycle_events(&self) -> (events: &[LifecycleEvent])
        requires
            self.wf(),
        ensures
            crate::observability::events::lifecycle_views(events@)
                == crate::observability::events::lifecycle_of(self@.state.log),
    {
        self.state.events.lifecycle_events()
    }

    /// Returns the accumulated abnormal crash reports.
    pub fn crash_reports(&self) -> (reports: &[CrashReport])
        requires
            self.wf(),
        ensures
            crate::observability::events::crash_views(reports@)
                == crate::observability::events::crashes_of(self@.state.log),
    {
        self.state.events.crash_reports()
    }

    /// Returns retained structured runtime events for tracing and debugging.
    pub fn event_log(&self) -> (events: Vec<RuntimeEvent>)
        ensures
            crate::observability::events::views(events@) == self@.state.log,
    {
        self.state.events.event_log()
    }

    /// Returns a cursor positioned after the current retained event log.
    pub fn event_cursor(&self) -> (cursor: EventCursor)
        ensures
            cursor@ == crate::scheduler::bumped(self@.state.log.len() as u64),
    {
        self.state.events.event_cursor()
    }

    /// Returns events emitted after the cursor and advances it.
    pub fn events_since(&self, cursor: &mut EventCursor) -> (delta: Vec<RuntimeEvent>)
        requires
            self.wf(),
        ensures
            crate::observability::events::views(delta@) == crate::observability::events::pending(
                self@.state.log,
                old(cursor)@,
            ),
            final(cursor)@ == crate::observability::events::advanced(
                self@.state.log,
                old(cursor)@,
            ),
    {
        self.state.events.events_since(cursor)
    }

    /// Returns the current live actor tree.
    pub fn actor_tree(&self) -> (tree: ActorTree)
        requires
            self.wf(),
        ensures
            crate::observability::topology::is_tree_of(
                tree,
                crate::runtime::table::table_snapshots(self@.state.actors),
            ),
    {
        let actors = self.state.actors.snapshots();
        build_actor_tree(actors.as_slice())
    }

    /// Returns aggregate runtime metrics.
    pub fn metrics(&self) -> (metrics: SchedulerMetrics)
        ensures
            metrics == self@.state.metrics,
    {
        self.state.metrics
    }

    /// Returns a single-scheduler snapshot for observer-style UIs.
    pub fn run_queue_snapshot(&self) -> (queue: RunQueueSnapshot)
        requires
            self.wf(),
        ensures
            queue == only_queue(self@.state),
    {
        let ids = self.state.actors.ids();
        let (runnable, waiting) = self.state.run_counts(&ids, 1, 0);
        RunQueueSnapshot { scheduler_id: 0, runnable, waiting, injected: 0, stolen: 0 }
    }

    /// Returns an aggregate metrics snapshot suitable for production monitoring.
    pub fn metrics_snapshot(&self, observed_at: Timestamp) -> (metrics: RuntimeMetricsSnapshot)
        requires
            self.wf(),
        ensures
            crate::runtime::report::metrics_match(
                metrics,
                self@.state,
                self@.state.metrics,
                metrics.run_queues,
                observed_at,
            ),
            metrics.run_queues@ == seq![only_queue(self@.state)],
    {
        let actors = self.state.actors.snapshots();
        let mut run_queues: Vec<RunQueueSnapshot> = Vec::new();
        run_queues.push(self.run_queue_snapshot());
        assert(run_queues@ =~= seq![only_queue(self@.state)]);
        build_metrics_snapshot(
            actors.as_slice(),
            self.state.completed.len(),
            self.metrics(),
            run_queues,
            observed_at,
        )
    }

    /// Returns a combined runtime introspection snapshot.
    pub fn introspection(&self, observed_at: Timestamp) -> (introspection: RuntimeIntrospection)
        requires
            self.wf(),
        ensures
            crate::observability::topology::snapshot_views(introspection.actors@)
                == crate::runtime::table::table_snapshots(self@.state.actors),
            crate::observability::topology::is_tree_of(
                introspection.actor_tree,
                crate::runtime::table::table_snapshots(self@.state.actors),
            ),
            crate::runtime::report::metrics_match(
                introspection.metrics,
                self@.state,
                self@.state.metrics,
                introspection.metrics.run_queues,
                observed_at,
            ),
            introspection.metrics.run_queues@ == seq![only_queue(self@.state)],
    {
        let actors = self.state.actors.snapshots();
        let mut run_queues: Vec<RunQueueSnapshot> = Vec::new();
        run_queues.push(self.run_queue_snapshot());
        assert(run_queues@ =~= seq![only_queue(self@.state)]);
        build_runtime_introspection(
            actors,
            self.state.completed.len(),
            self.metrics(),
            run_queues,
            observed_at,
        )
    }
}

} // verus!
