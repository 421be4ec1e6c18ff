//! What the multicore runtime tells of itself.

use vstd::prelude::*;

use crate::lifecycle::{CrashReport, LifecycleEvent};
use crate::observability::{
    build_actor_tree, build_metrics_snapshot, build_runtime_introspection, ActorTree, EventCursor,
    RuntimeEvent, RuntimeIntrospection, RuntimeMetricsSnapshot,
};
use crate::registry::RegistryError;
use crate::runtime::actor_state::ActorView;
use crate::runtime::state::StateView;
use crate::scheduler::{RunQueueSnapshot, SchedulerMetrics};
use crate::snapshot::{ActorSnapshot, SupervisorSnapshot};
use crate::time::Timestamp;
use crate::types::ActorId;

use super::state::ConcurrentRuntime;

verus! {

impl ConcurrentRuntime {
    /// Returns whether the actor id refers to a live actor.
    pub fn contains(&self, actor: ActorId) -> (found: bool)
        ensures
            found == self.state@.has(actor),
    {
        self.state.actors.contains(actor)
    }

    /// Looks up a registered actor by name.
    pub fn resolve_name(&self, name: &str) -> (actor: Option<ActorId>)
        ensures
            actor == (if self.state@.names.contains_key(name@) {
                Some(self.state@.names[name@])
            } else {
                None
            }),
    {
        self.state.registry.resolve(name)
    }

    /// Registers a live actor under the provided name.
    pub fn register_name(&mut self, actor: ActorId, name: String) -> (outcome: Result<
        (),
        RegistryError,
    >)
        requires
            old(self).wf(),
        ensures
            final(self).wf(),
            final(self).same_setup(*old(self)),
            outcome is Ok <==> old(self).state@.has(actor) && crate::registry::accepts(
                old(self).state@.names,
                actor,
                name@,
            ),
            outcome is Err ==> final(self).state@ == old(self).state@,
            outcome is Ok ==> final(self).state@ == (StateView {
                names: crate::registry::registered(old(self).state@.names, actor, name@),
                ..old(self).state@.with(
                    (ActorView { registered_name: Some(name), ..old(self).state@.actor(actor) }),
                )
            }),
            outcome matches Err(error) ==> if !old(self).state@.has(actor) {
                error == RegistryError::NoProc(actor)
            } else {
                crate::registry::is_refusal(error, old(self).state@.names, actor, name@)
            },
    {
        self.state.register_name(actor, name)
    }

    /// Removes the current registered name of an actor.
    pub fn unregister_name(&mut self, actor: ActorId) -> (removed: Option<String>)
        requires
            old(self).wf(),
        ensures
            final(self).wf(),
            final(self).same_setup(*old(self)),
            match crate::registry::name_in(old(self).state@.names, actor) {
                Some(name) => {
                    &&& removed matches Some(text) && text@ == name
                    &&& final(self).state@ == (StateView {
                        names: old(self).state@.names.remove(name),
                        ..(if old(self).state@.has(actor) {
                            old(self).state@.with(
                                (ActorView {
                                    registered_name: None,
                                    ..old(self).state@.actor(actor)
                                }),
                            )
                        } else {
                            old(self).state@
                        })
                    })
                },
                None => removed is None && final(self).state@ == old(self).state@,
            },
    {
        self.state.unregister_name(actor)
    }

    /// Returns the current or completed snapshot for an actor.
    pub fn actor_snapshot(&self, actor: ActorId) -> (snapshot: Option<ActorSnapshot>)
        ensures
            match (snapshot, self.state@.snapshot_of(actor)) {
                (Some(snapshot), Some(view)) => snapshot@ == view,
                (None, None) => true,
                _ => false,
            },
    {
        self.state.actor_snapshot(actor)
    }

    /// Returns snapshots for all live actors.
    pub fn actor_snapshots(&self) -> (snapshots: Vec<ActorSnapshot>)
        requires
            self.wf(),
        ensures
            crate::observability::topology::snapshot_views(snapshots@)
                == crate::runtime::table::table_snapshots(self.state@.actors),
    {
        self.state.actors.snapshots()
    }

    /// Returns the tracked supervisor state for a live supervisor actor, which forgets the
    /// restarts that have left its restart window.
    pub fn supervisor_snapshot(&mut self, actor: ActorId, now: Timestamp) -> (snapshot: Option<
        SupervisorSnapshot,
    >)
        requires
            old(self).wf(),
        ensures
            final(self).wf(),
            final(self).same_setup(*old(self)),
            crate::runtime::report::snapshot_taken(
                old(self).state@,
                actor,
                now,
                snapshot,
                final(self).state@,
            ),
    {
        self.state.supervisor_snapshot(actor, now)
    }

    /// Returns the accumulated runtime lifecycle events.
    pub fn lifecycle_events(&self) -> (events: &[LifecycleEvent])
        requires
            self.wf(),
        ensures
            crate::observability::events::lifecycle_views(events@)
                == crate::observability::events::lifecycle_of(self.state@.log),
    {
        self.state.events.lifecycle_events()
    }

    /// Returns the accumulated abnormal crash reports.
    pub fn crash_reports(&self) -> (reports: &[CrashReport])
        requires
            self.wf(),
        ensures
            crate::observability::events::crash_views(reports@)
                == crate::observability::events::crashes_of(self.state@.log),
    {
        self.state.events.crash_reports()
    }

    /// Returns retained structured runtime events for tracing and debugging.
    pub fn event_log(&self) -> (events: Vec<RuntimeEvent>)
        ensures
            crate::observability::events::views(events@) == self.state@.log,
    {
        self.state.events.event_log()
    }

    /// Returns a cursor positioned after the current retained event log.
    pub fn event_cursor(&self) -> (cursor: EventCursor)
        ensures
            cursor@ == crate::scheduler::bumped(self.state@.log.len() as u64),
    {
        self.state.events.event_cursor()
    }

    /// Returns events emitted after the cursor and advances it.
    pub fn events_since(&self, cursor: &mut EventCursor) -> (delta: Vec<RuntimeEvent>)
        requires
            self.wf(),
        ensures
            crate::observability::events::views(delta@) == crate::observability::events::pending(
                self.state@.log,
                old(cursor)@,
            ),
            final(cursor)@ == crate::observability::events::advanced(
                self.state@.log,
                old(cursor)@,
            ),
    {
        self.state.events.events_since(cursor)
    }

    /// Emits a structured lifecycle event into the runtime stream.
    pub fn emit_lifecycle_event(&mut self, event: LifecycleEvent)
        requires
            old(self).wf(),
        ensures
            final(self).wf(),
            final(self).same_setup(*old(self)),
            final(self).state@ == old(self).state@.logged(event@),
    {
        self.state.record_lifecycle_event(event);
    }

    /// Returns the current live actor tree.
    pub fn actor_tree(&self) -> (tree: ActorTree)
        requires
            self.wf(),
        ensures
            crate::observability::topology::is_tree_of(
                tree,
                crate::runtime::table::table_snapshots(self.state@.actors),
            ),
    {
        let actors = self.state.actors.snapshots();
        build_actor_tree(actors.as_slice())
    }

    /// Returns aggregate scheduler metrics, with the utilization that the caller has measured.
    pub fn metrics(&self, utilization: u32) -> (metrics: SchedulerMetrics)
        ensures
            metrics == (SchedulerMetrics { utilization, ..self.state@.metrics }),
    {
        SchedulerMetrics { utilization, ..self.state.metrics }
    }

    /// Returns scheduler snapshots for each worker, given the depth of the global queue.
    pub fn run_queue_snapshots(&self, workers: usize, injected: u64) -> (queues: Vec<
        RunQueueSnapshot,
    >)
        requires
            self.wf(),
            workers > 0,
        ensures
            queues@.len() == workers,
            forall|i: int|
                0 <= i < workers ==> (#[trigger] queues@[i]) == (RunQueueSnapshot {
                    scheduler_id: i as usize,
                    runnable: crate::runtime::report::runnable_on(
                        self.state@.actors,
                        crate::collections::ascending(
                            crate::runtime::table::live_ids(self.state@.actors),
                        ),
                        workers,
                        i,
                    ) as usize,
                    waiting: crate::runtime::report::waiting_on(
                        self.state@.actors,
                        crate::collections::ascending(
                            crate::runtime::table::live_ids(self.state@.actors),
                        ),
                        workers,
                        i,
                    ) as usize,
                    injected: if i == 0 {
                        injected
                    } else {
                        0
                    },
                    stolen: 0,
                }),
    {
        let ids = self.state.actors.ids();
        let mut queues: Vec<RunQueueSnapshot> = Vec::new();
        let mut scheduler: usize = 0;
        while scheduler < workers
            invariant
                scheduler <= workers,
                workers > 0,
                queues@.len() == scheduler,
                crate::collections::lists(
                    ids@,
                    crate::runtime::table::live_ids(self.state@.actors),
                ),
                forall|i: int|
                    0 <= i < scheduler ==> (#[trigger] queues@[i]) == (RunQueueSnapshot {
                        scheduler_id: i as usize,
                        runnable: crate::runtime::report::runnable_on(self.state@.actors, ids@, workers, i) as usize,
                        waiting: crate::runtime::report::waiting_on(self.state@.actors, ids@, workers, i) as usize,
                        injected: if i == 0 {
                            injected
                        } else {
                            0
                        },
                        stolen: 0,
                    }),
            decreases workers - scheduler,
        {
            let (runnable, waiting) = self.state.run_counts(&ids, workers, scheduler);
            queues.push(
                RunQueueSnapshot {
                    scheduler_id: scheduler,
                    runnable,
                    waiting,
                    injected: if scheduler == 0 {
                        injected
                    } else {
                        0
                    },
                    stolen: 0,
                },
            );
            scheduler = scheduler + 1;
        }
        queues
    }

    /// Returns an aggregate metrics snapshot suitable for production monitoring, given what only
    /// the scheduler threads know.
    pub fn metrics_snapshot(
        &self,
        utilization: u32,
        run_queues: Vec<RunQueueSnapshot>,
        observed_at: Timestamp,
    ) -> (metrics: RuntimeMetricsSnapshot)
        requires
            self.wf(),
        ensures
            crate::runtime::report::metrics_match(
                metrics,
                self.state@,
                SchedulerMetrics { utilization, ..self.state@.metrics },
                run_queues,
                observed_at,
            ),
    {
        let actors = self.state.actors.snapshots();
        build_metrics_snapshot(
            actors.as_slice(),
            self.state.completed.len(),
            self.metrics(utilization),
            run_queues,
            observed_at,
        )
    }

    /// Returns a combined runtime introspection snapshot.
    pub fn introspection(
        &self,
        utilization: u32,
        run_queues: Vec<RunQueueSnapshot>,
        observed_at: Timestamp,
    ) -> (introspection: RuntimeIntrospection)
        requires
            self.wf(),
        ensures
            crate::observability::topology::snapshot_views(introspection.actors@)
                == crate::runtime::table::table_snapshots(self.state@.actors),
            crate::observability::topology::is_tree_of(
                introspection.actor_tree,
                crate::runtime::table::table_snapshots(self.state@.actors),
            ),
            crate::runtime::report::metrics_match(
                introspection.metrics,
                self.state@,
                SchedulerMetrics { utilization, ..self.state@.metrics },
                run_queues,
                observed_at,
            ),
    {
        let actors = self.state.actors.snapshots();
        build_runtime_introspection(
            actors,
            self.state.completed.len(),
            self.metrics(utilization),
            run_queues,
            observed_at,
        )
    }
}

} // verus!
