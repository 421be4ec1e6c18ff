//! Snapshots of the whole runtime.

use vstd::prelude::*;

use crate::scheduler::{RunQueueSnapshot, SchedulerMetrics};
use crate::snapshot::ActorSnapshot;
use crate::time::Timestamp;
use crate::types::ActorId;

verus! {

/// Parent-child actor relationships for observer-style UIs.
#[derive(Debug, Clone, PartialEq, Eq)]
pub struct ActorTreeNode {
    /// Actor snapshot for the node.
    pub actor: ActorSnapshot,
    /// Direct children in the supervision tree.
    pub children: Vec<ActorId>,
}

/// Runtime-wide actor tree snapshot.
#[derive(Debug, Clone, PartialEq, Eq)]
pub struct ActorTree {
    /// Root actors with no live parent in the snapshot.
    pub roots: Vec<ActorId>,
    /// Nodes ordered by actor id.
    pub nodes: Vec<ActorTreeNode>,
}

/// Aggregated runtime metrics safe to export to production monitoring.
#[derive(Debug, Clone, PartialEq, Eq)]
pub struct RuntimeMetricsSnapshot {
    /// Wall-clock capture time for the snapshot.
    pub observed_at: Timestamp,
    /// Number of live actors.
    pub live_actors: usize,
    /// Number of completed actors retained by the runtime.
    pub completed_actors: usize,
    /// Actors currently starting.
    pub starting_actors: usize,
    /// Actors ready to run.
    pub runnable_actors: usize,
    /// Actors waiting on work.
    pub waiting_actors: usize,
    /// Actors currently running.
    pub running_actors: usize,
    /// Actors exiting.
    pub exiting_actors: usize,
    /// Actors retained as dead snapshots.
    pub dead_actors: usize,
    /// Sum of live mailbox lengths.
    pub total_mailbox_len: usize,
    /// Largest live mailbox length.
    pub max_mailbox_len: usize,
    /// Aggregate scheduler metrics.
    pub scheduler_metrics: SchedulerMetrics,
    /// Per-scheduler queue snapshots.
    pub run_queues: Vec<RunQueueSnapshot>,
}

/// Runtime-wide snapshot combining topology and monitoring metrics.
#[derive(Debug, Clone, PartialEq, Eq)]
pub struct RuntimeIntrospection {
    /// Live actor snapshots with mailbox, link, and monitor metadata.
    pub actors: Vec<ActorSnapshot>,
    /// Parent-child actor tree for observer-style UIs.
    pub actor_tree: ActorTree,
    /// Aggregated runtime monitoring metrics.
    pub metrics: RuntimeMetricsSnapshot,
}

} // verus!
