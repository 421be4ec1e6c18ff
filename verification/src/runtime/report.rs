//! What a runtime tells of itself: supervisors, run queues and aggregate metrics.

use vstd::prelude::*;

use crate::internal::supervisor_state::SupervisorView;
use crate::observability::types::RuntimeMetricsSnapshot;
use crate::scheduler::{RunQueueSnapshot, SchedulerMetrics};
use crate::snapshot::{SnapshotView, SupervisorSnapshot};
use crate::time::Timestamp;
use crate::types::{ActorId, ActorStatus};

use super::actor_state::ActorView;
use super::state::{RuntimeState, StateView};

verus! {

/// The actor as a supervisor that has forgotten the restarts outside its window.
pub open spec fn window_pruned(actor: ActorView, now: Timestamp) -> ActorView {
    ActorView {
        supervisor: match actor.supervisor {
            Some(supervisor) => Some(
                SupervisorView {
                    restarts: crate::supervisor::intensity::pruned(
                        supervisor.restarts,
                        now,
                        supervisor.window.period,
                    ),
                    ..supervisor
                },
            ),
            None => None,
        },
        ..actor
    }
}

/// Whether a snapshot says what is known of a supervisor, and what the runtime knows afterwards.
pub open spec fn snapshot_taken(
    state: StateView,
    actor: ActorId,
    now: Timestamp,
    snapshot: Option<SupervisorSnapshot>,
    after: StateView,
) -> bool {
    if state.has(actor) && state.actor(actor).supervisor is Some {
        let supervisor = window_pruned(state.actor(actor), now).supervisor->0;
        &&& after == state.with(window_pruned(state.actor(actor), now))
        &&& snapshot matches Some(snapshot) && {
            &&& snapshot.actor == actor
            &&& snapshot.flags == supervisor.flags
            &&& snapshot.children@ == crate::internal::supervisor_state::child_snapshots(
                supervisor.child_specs,
                supervisor.running,
            )
            &&& snapshot.active_restarts == supervisor.restarts.len()
        }
    } else {
        snapshot is None && after == state
    }
}

/// Whether aggregate metrics say what a runtime knows.
pub open spec fn metrics_match(
    metrics: RuntimeMetricsSnapshot,
    state: StateView,
    scheduler_metrics: SchedulerMetrics,
    run_queues: Vec<RunQueueSnapshot>,
    observed_at: Timestamp,
) -> bool {
    let actors = super::table::table_snapshots(state.actors);
    &&& metrics.observed_at == observed_at
    &&& metrics.live_actors == actors.len()
    &&& metrics.completed_actors == state.completed.dom().len()
    &&& metrics.starting_actors == crate::observability::topology::count_of(
        actors,
        ActorStatus::Starting,
    )
    &&& metrics.runnable_actors == crate::observability::topology::count_of(
        actors,
        ActorStatus::Runnable,
    )
    &&& metrics.waiting_actors == crate::observability::topology::count_of(
        actors,
        ActorStatus::Waiting,
    )
    &&& metrics.running_actors == crate::observability::topology::count_of(
        actors,
        ActorStatus::Running,
    )
    &&& metrics.exiting_actors == crate::observability::topology::count_of(
        actors,
        ActorStatus::Exiting,
    )
    &&& metrics.dead_actors == crate::observability::topology::count_of(
        actors,
        ActorStatus::Dead,
    )
    &&& crate::observability::topology::mailbox_total(actors) <= usize::MAX
        ==> metrics.total_mailbox_len == crate::observability::topology::mailbox_total(actors)
    &&& metrics.max_mailbox_len == crate::observability::topology::mailbox_max(actors)
    &&& metrics.scheduler_metrics == scheduler_metrics
    &&& metrics.run_queues == run_queues
}

/// Whether an actor counts as runnable.
pub open spec fn is_runnable(status: ActorStatus) -> bool {
    status is Starting || status is Runnable || status is Running
}

/// The scheduler under which an actor is counted when there are fewer workers than schedulers.
pub open spec fn counted_under(actor: ActorView, workers: usize) -> int {
    if actor.scheduler_id < workers {
        actor.scheduler_id as int
    } else {
        workers - 1
    }
}

/// How many of the given actors are runnable on a scheduler.
pub open spec fn runnable_on(
    actors: Map<u64, ActorView>,
    ids: Seq<ActorId>,
    workers: usize,
    scheduler: int,
) -> nat
    decreases ids.len(),
{
    if ids.len() == 0 {
        0
    } else {
        let actor = actors[ids.last().local_id];
        runnable_on(actors, ids.drop_last(), workers, scheduler) + (if counted_under(actor, workers)
            == scheduler && is_runnable(actor.status) {
            1nat
        } else {
            0nat
        })
    }
}

/// How many of the given actors wait on a scheduler.
pub open spec fn waiting_on(
    actors: Map<u64, ActorView>,
    ids: Seq<ActorId>,
    workers: usize,
    scheduler: int,
) -> nat
    decreases ids.len(),
{
    if ids.len() == 0 {
        0
    } else {
        let actor = actors[ids.last().local_id];
        waiting_on(actors, ids.drop_last(), workers, scheduler) + (if counted_under(actor, workers)
            == scheduler && actor.status is Waiting {
            1nat
        } else {
            0nat
        })
    }
}

proof fn lemma_at_most_all(
    actors: Map<u64, ActorView>,
    ids: Seq<ActorId>,
    workers: usize,
    scheduler: int,
)
    ensures
        runnable_on(actors, ids, workers, scheduler) + waiting_on(actors, ids, workers, scheduler)
            <= ids.len(),
    decreases ids.len(),
{
    if ids.len() > 0 {
        lemma_at_most_all(actors, ids.drop_last(), workers, scheduler);
    }
}

impl RuntimeState {
    /// Counts the runnable and the waiting actors on a scheduler.
    pub fn run_counts(&self, ids: &Vec<ActorId>, workers: usize, scheduler: usize) -> (counts: (
        usize,
        usize,
    ))
        requires
            scheduler < workers,
            crate::collections::lists(ids@, super::table::live_ids(self@.actors)),
        ensures
            counts.0 == runnable_on(self@.actors, ids@, workers, scheduler as int),
            counts.1 == waiting_on(self@.actors, ids@, workers, scheduler as int),
    {
        let mut runnable: usize = 0;
        let mut waiting: usize = 0;
        let mut at: usize = 0;
        while at < ids.len()
            invariant
                at <= ids@.len(),
                scheduler < workers,
                crate::collections::lists(ids@, super::table::live_ids(self@.actors)),
                runnable == runnable_on(
                    self@.actors,
                    ids@.take(at as int),
                    workers,
                    scheduler as int,
                ),
                waiting == waiting_on(
                    self@.actors,
                    ids@.take(at as int),
                    workers,
                    scheduler as int,
                ),
            decreases ids@.len() - at,
        {
            let id = ids[at];
            proof {
                assert(ids@.contains(id));
                assert(super::table::live_ids(self@.actors).contains(id));
                assert(ids@.take(at + 1).drop_last() =~= ids@.take(at as int));
                lemma_at_most_all(self@.actors, ids@.take(at as int), workers, scheduler as int);
                assert(ids.len() == ids@.len());
            }
            if let Some(entry) = self.actors.get(id) {
                let under: usize = if entry.scheduler_id < workers {
                    entry.scheduler_id
                } else {
                    workers - 1
                };
                if under == scheduler {
                    match entry.status {
                        ActorStatus::Starting => {
                            runnable = runnable + 1;
                        },
                        ActorStatus::Runnable => {
                            runnable = runnable + 1;
                        },
                        ActorStatus::Running => {
                            runnable = runnable + 1;
                        },
                        ActorStatus::Waiting => {
                            waiting = waiting + 1;
                        },
                        _ => {},
                    }
                }
            }
            at = at + 1;
        }
        assert(ids@.take(at as int) =~= ids@);
        (runnable, waiting)
    }

    /// Returns the tracked supervisor state for a live supervisor actor.
    pub fn supervisor_snapshot(&mut self, actor: ActorId, now: Timestamp) -> (snapshot: Option<
        SupervisorSnapshot,
    >)
        requires
            old(self).wf(),
        ensures
            final(self).wf(),
            snapshot_taken(old(self)@, actor, now, snapshot, final(self)@),
    {
        match self.actors.take(actor) {
            Some(mut state) => {
                let snapshot = match &mut state.supervisor {
                    Some(supervisor) => Some(supervisor.snapshot(actor, now)),
                    None => None,
                };
                let ghost after = state@;
                self.actors.put(state);
                proof {
                    let before = old(self)@.actor(actor);
                    if before.supervisor is Some {
                        assert(after == window_pruned(before, now));
                        assert(self@.actors =~= old(self)@.with(after).actors);
                    } else {
                        assert(self@.actors =~= old(self)@.actors);
                    }
                }
                snapshot
            },
            None => None,
        }
    }
}

/// Which actors count as runnable or waiting on a scheduler: those under it that start, run or can
/// run, and those under it that wait; and an actor whose scheduler has no worker is counted under
/// the last one.
pub proof fn lemma_how_run_queues_are_counted(
    actors: Map<u64, ActorView>,
    ids: Seq<ActorId>,
    id: ActorId,
    workers: usize,
    scheduler: int,
)
    requires
        workers > 0,
        0 <= scheduler < workers,
    ensures
        ({
            let actor = actors[id.local_id];
            let here = (actor.scheduler_id < workers && actor.scheduler_id == scheduler) || (
            actor.scheduler_id >= workers && scheduler == workers - 1);
            let can_run = actor.status is Starting || actor.status is Runnable
                || actor.status is Running;
            &&& runnable_on(actors, ids.push(id), workers, scheduler) == runnable_on(
                actors,
                ids,
                workers,
                scheduler,
            ) + (if here && can_run {
                1int
            } else {
                0int
            })
            &&& waiting_on(actors, ids.push(id), workers, scheduler) == waiting_on(
                actors,
                ids,
                workers,
                scheduler,
            ) + (if here && actor.status is Waiting {
                1int
            } else {
                0int
            })
        }),
        runnable_on(actors, Seq::empty(), workers, scheduler) == 0,
        waiting_on(actors, Seq::empty(), workers, scheduler) == 0,
{
    assert(ids.push(id).drop_last() =~= ids);
}

/// What a snapshot tells of a live supervisor, and of no other actor: who it is, how it restarts,
/// its children with the actors that they run as, and how many restarts of its last period count.
/// Taking one changes nothing but the recorded restarts that count no longer.
pub proof fn lemma_what_a_supervisor_snapshot_tells(
    state: StateView,
    id: ActorId,
    now: Timestamp,
    snapshot: Option<SupervisorSnapshot>,
    after: StateView,
    other: ActorId,
)
    requires
        super::table::table_ok(state.actors),
        snapshot_taken(state, id, now, snapshot, after),
    ensures
        snapshot is Some <==> state.has(id) && state.actor(id).supervisor is Some,
        snapshot matches Some(found) ==> {
            let supervisor = state.actor(id).supervisor->0;
            &&& found.actor == id
            &&& found.flags == supervisor.flags
            &&& found.children@.len() == supervisor.child_specs.len()
            &&& forall|i: int|
                0 <= i < supervisor.child_specs.len() ==> (#[trigger] found.children@[i]).spec
                    == supervisor.child_specs[i]
            &&& found.active_restarts == crate::supervisor::intensity::pruned(
                supervisor.restarts,
                now,
                supervisor.window.period,
            ).len()
            &&& after.actor(id).mailbox == state.actor(id).mailbox
            &&& after.actor(id).status == state.actor(id).status
            &&& after.actor(id).supervisor->0.running == supervisor.running
        },
        snapshot is None ==> after == state,
        other.local_id != id.local_id && state.has(other) ==> after.has(other) && after.actor(other)
            == state.actor(other),
{
}

/// What the metrics of a runtime tell: every status is counted among the live actors, and the
/// counts of the schedulers are passed on as they are.
pub proof fn lemma_what_metrics_tell(
    metrics: RuntimeMetricsSnapshot,
    state: StateView,
    scheduler_metrics: SchedulerMetrics,
    run_queues: Vec<RunQueueSnapshot>,
    observed_at: Timestamp,
)
    requires
        metrics_match(metrics, state, scheduler_metrics, run_queues, observed_at),
    ensures
        metrics.starting_actors + metrics.runnable_actors + metrics.waiting_actors
            + metrics.running_actors + metrics.exiting_actors + metrics.dead_actors
            == metrics.live_actors,
        metrics.observed_at == observed_at,
        metrics.completed_actors == state.completed.dom().len(),
        metrics.scheduler_metrics == scheduler_metrics,
        metrics.run_queues == run_queues,
        ({
            let actors = super::table::table_snapshots(state.actors);
            &&& metrics.live_actors == actors.len()
            &&& metrics.starting_actors == actors.filter(
                |actor: SnapshotView| actor.status == ActorStatus::Starting,
            ).len()
            &&& metrics.runnable_actors == actors.filter(
                |actor: SnapshotView| actor.status == ActorStatus::Runnable,
            ).len()
            &&& metrics.waiting_actors == actors.filter(
                |actor: SnapshotView| actor.status == ActorStatus::Waiting,
            ).len()
            &&& metrics.running_actors == actors.filter(
                |actor: SnapshotView| actor.status == ActorStatus::Running,
            ).len()
            &&& metrics.exiting_actors == actors.filter(
                |actor: SnapshotView| actor.status == ActorStatus::Exiting,
            ).len()
            &&& metrics.dead_actors == actors.filter(
                |actor: SnapshotView| actor.status == ActorStatus::Dead,
            ).len()
        }),
{
    let actors = super::table::table_snapshots(state.actors);
    crate::observability::topology::lemma_statuses_add_up(actors);
    crate::observability::laws::lemma_how_statuses_are_counted(actors, ActorStatus::Starting);
    crate::observability::laws::lemma_how_statuses_are_counted(actors, ActorStatus::Runnable);
    crate::observability::laws::lemma_how_statuses_are_counted(actors, ActorStatus::Waiting);
    crate::observability::laws::lemma_how_statuses_are_counted(actors, ActorStatus::Running);
    crate::observability::laws::lemma_how_statuses_are_counted(actors, ActorStatus::Exiting);
    crate::observability::laws::lemma_how_statuses_are_counted(actors, ActorStatus::Dead);
}

} // verus!
