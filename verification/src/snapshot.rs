//! Snapshots of actors and supervisors.

use vstd::prelude::*;

use crate::lifecycle::copy_ids;
use crate::types::{ActorId, ActorMetrics, ActorStatus, ChildSpec, Ref, SupervisorFlags};

verus! {

/// Snapshot of actor state exposed for runtime introspection and tests.
#[derive(Debug, PartialEq, Eq)]
pub struct ActorSnapshot {
    /// Runtime id for the actor instance.
    pub id: ActorId,
    /// Human-readable actor name used in traces and crash reports.
    pub name: &'static str,
    /// Optional registered name.
    pub registered_name: Option<String>,
    /// Parent actor in the supervision tree.
    pub parent: Option<ActorId>,
    /// Ancestor chain captured at spawn time.
    pub ancestors: Vec<ActorId>,
    /// Link set for the actor.
    pub links: Vec<ActorId>,
    /// Actors monitoring this actor by reference.
    pub monitors_in: Vec<(Ref, ActorId)>,
    /// Actors monitored by this actor by reference.
    pub monitors_out: Vec<(Ref, ActorId)>,
    /// Whether linked exits are trapped into the mailbox.
    pub trap_exit: bool,
    /// Current lifecycle status.
    pub status: ActorStatus,
    /// Runtime metrics for the actor.
    pub metrics: ActorMetrics,
}

/// What a snapshot says, with sequences in place of vectors.
pub struct SnapshotView {
    /// Runtime id for the actor instance.
    pub id: ActorId,
    /// Human-readable actor name.
    pub name: &'static str,
    /// Optional registered name.
    pub registered_name: Option<String>,
    /// Parent actor.
    pub parent: Option<ActorId>,
    /// Ancestor chain captured at spawn time.
    pub ancestors: Seq<ActorId>,
    /// Links in ascending order.
    pub links: Seq<ActorId>,
    /// Monitors on this actor in ascending order of their references.
    pub monitors_in: Seq<(Ref, ActorId)>,
    /// Monitors of this actor in ascending order of their references.
    pub monitors_out: Seq<(Ref, ActorId)>,
    /// Whether linked exits are trapped.
    pub trap_exit: bool,
    /// Current lifecycle status.
    pub status: ActorStatus,
    /// Runtime metrics.
    pub metrics: ActorMetrics,
}

impl View for ActorSnapshot {
    type V = SnapshotView;

    open spec fn view(&self) -> SnapshotView {
        SnapshotView {
            id: self.id,
            name: self.name,
            registered_name: self.registered_name,
            parent: self.parent,
            ancestors: self.ancestors@,
            links: self.links@,
            monitors_in: self.monitors_in@,
            monitors_out: self.monitors_out@,
            trap_exit: self.trap_exit,
            status: self.status,
            metrics: self.metrics,
        }
    }
}

fn copy_pairs(pairs: &Vec<(Ref, ActorId)>) -> (copy: Vec<(Ref, ActorId)>)
    ensures
        copy@ == pairs@,
{
    let mut copy: Vec<(Ref, ActorId)> = Vec::new();
    let mut at: usize = 0;
    while at < pairs.len()
        invariant
            at <= pairs@.len(),
            copy@ == pairs@.take(at as int),
        decreases pairs@.len() - at,
    {
        copy.push(pairs[at]);
        at = at + 1;
        assert(copy@ =~= pairs@.take(at as int));
    }
    assert(copy@ =~= pairs@);
    copy
}

impl Clone for ActorSnapshot {
    fn clone(&self) -> (copy: Self)
        ensures
            copy@ == self@,
    {
        ActorSnapshot {
            id: self.id,
            name: self.name,
            registered_name: self.registered_name.clone(),
            parent: self.parent,
            ancestors: copy_ids(&self.ancestors),
            links: copy_ids(&self.links),
            monitors_in: copy_pairs(&self.monitors_in),
            monitors_out: copy_pairs(&self.monitors_out),
            trap_exit: self.trap_exit,
            status: self.status,
            metrics: self.metrics.clone(),
        }
    }
}

/// Child state tracked by the runtime for a supervisor.
#[derive(Debug, Clone, Copy, PartialEq, Eq)]
pub struct SupervisorChildSnapshot {
    /// Static child spec.
    pub spec: ChildSpec,
    /// Running actor id for the child, if any.
    pub actor: Option<ActorId>,
}

/// Snapshot of live supervisor metadata tracked by the runtime.
#[derive(Debug, Clone, PartialEq, Eq)]
pub struct SupervisorSnapshot {
    /// Supervisor actor id.
    pub actor: ActorId,
    /// Supervisor restart flags.
    pub flags: SupervisorFlags,
    /// Ordered child specs with current running ids.
    pub children: Vec<SupervisorChildSnapshot>,
    /// Restarts currently inside the active intensity window.
    pub active_restarts: usize,
}

} // verus!
