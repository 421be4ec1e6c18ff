//! What the runtime knows of a supervisor.

use vstd::prelude::*;

use crate::collections::AssocMap;
use crate::snapshot::{SupervisorChildSnapshot, SupervisorSnapshot};
use crate::supervisor::RestartIntensity;
use crate::time::Timestamp;
use crate::types::{ActorId, ChildSpec, SupervisorFlags};

verus! {

/// Supervisor metadata kept by the runtime: flags, children and the restart window.
#[derive(Debug)]
pub struct SupervisorRuntimeState {
    /// Restart flags.
    pub flags: SupervisorFlags,
    /// Child specs in start order.
    pub child_specs: Vec<ChildSpec>,
    /// The running actor of each child.
    pub running: AssocMap<&'static str, ActorId>,
    /// The restart window.
    pub intensity: RestartIntensity,
}

/// What the runtime knows of a supervisor, with mathematical collections.
pub struct SupervisorView {
    /// Restart flags.
    pub flags: SupervisorFlags,
    /// Child specs in start order.
    pub child_specs: Seq<ChildSpec>,
    /// The running actor of each child.
    pub running: Map<Seq<char>, ActorId>,
    /// The restarts in the restart window.
    pub restarts: Seq<Timestamp>,
    /// The flags of the restart window.
    pub window: SupervisorFlags,
}

impl View for SupervisorRuntimeState {
    type V = SupervisorView;

    open spec fn view(&self) -> SupervisorView {
        SupervisorView {
            flags: self.flags,
            child_specs: self.child_specs@,
            running: self.running@,
            restarts: self.intensity@,
            window: self.intensity.spec_flags(),
        }
    }
}

/// The children of a supervisor with their running actors.
pub open spec fn child_snapshots(
    specs: Seq<ChildSpec>,
    running: Map<Seq<char>, ActorId>,
) -> Seq<SupervisorChildSnapshot> {
    specs.map_values(
        |spec: ChildSpec|
            SupervisorChildSnapshot {
                spec,
                actor: if running.contains_key(spec.id@) {
                    Some(running[spec.id@])
                } else {
                    None
                },
            },
    )
}

/// The running children that have a spec.
pub open spec fn with_specs(running: Map<Seq<char>, ActorId>, specs: Seq<ChildSpec>) -> Map<
    Seq<char>,
    ActorId,
> {
    Map::new(
        |child: Seq<char>|
            running.contains_key(child) && crate::supervisor::scope::has_spec(specs, child),
        |child: Seq<char>| running[child],
    )
}

impl SupervisorRuntimeState {
    /// Whether only the running children differ from another state.
    pub open spec fn same_but_running(self, other: SupervisorRuntimeState) -> bool {
        &&& self.flags == other.flags
        &&& self.child_specs == other.child_specs
        &&& self.intensity == other.intensity
    }

    /// Starts with no child running and an empty restart window.
    pub fn new(flags: SupervisorFlags, child_specs: Vec<ChildSpec>) -> (state: Self)
        ensures
            state.flags == flags,
            state.child_specs == child_specs,
            state.running@ == Map::<Seq<char>, ActorId>::empty(),
            state.intensity@ == Seq::<Timestamp>::empty(),
            state.intensity.spec_flags() == flags,
    {
        SupervisorRuntimeState {
            flags,
            child_specs,
            running: AssocMap::new(),
            intensity: RestartIntensity::new(flags),
        }
    }

    /// Notes that a child runs.
    pub fn set_running(&mut self, child_id: &'static str, actor: ActorId)
        ensures
            final(self).running@ == old(self).running@.insert(child_id@, actor),
            final(self).same_but_running(*old(self)),
    {
        self.running.insert(child_id, actor);
    }

    /// Notes that a child no longer runs, unless it runs as another actor by now.
    pub fn clear_running(&mut self, child_id: &'static str, actor: ActorId)
        ensures
            final(self).running@ == cleared(old(self).running@, child_id@, actor),
            final(self).same_but_running(*old(self)),
    {
        match self.running.get(child_id) {
            Some(current) => {
                if current == actor {
                    let _removed = self.running.remove(child_id);
                }
            },
            None => {},
        }
    }

    /// Takes a snapshot of the supervisor.
    pub fn snapshot(&mut self, actor: ActorId, now: Timestamp) -> (snapshot: SupervisorSnapshot)
        ensures
            snapshot.actor == actor,
            snapshot.flags == old(self).flags,
            snapshot.children@ == child_snapshots(old(self).child_specs@, old(self).running@),
            snapshot.active_restarts == final(self).intensity@.len(),
            final(self).intensity@ == crate::supervisor::intensity::pruned(
                old(self).intensity@,
                now,
                old(self).intensity.spec_flags().period,
            ),
            final(self).intensity.spec_flags() == old(self).intensity.spec_flags(),
            *final(self) == (SupervisorRuntimeState {
                intensity: final(self).intensity,
                ..*old(self)
            }),
    {
        let mut children: Vec<SupervisorChildSnapshot> = Vec::new();
        let mut at: usize = 0;
        while at < self.child_specs.len()
            invariant
                *self == *old(self),
                at <= self.child_specs@.len(),
                children@ == child_snapshots(self.child_specs@, self.running@).take(at as int),
            decreases self.child_specs@.len() - at,
        {
            let spec = self.child_specs[at];
            children.push(SupervisorChildSnapshot { spec, actor: self.running.get(spec.id) });
            at = at + 1;
            assert(children@ =~= child_snapshots(self.child_specs@, self.running@).take(at as int));
        }
        assert(children@ =~= child_snapshots(self.child_specs@, self.running@));
        SupervisorSnapshot {
            actor,
            flags: self.flags,
            children,
            active_restarts: self.intensity.active_restarts(now),
        }
    }

    /// Takes new flags and specs; children without a spec are no longer known to run.
    pub fn reconfigure(&mut self, flags: SupervisorFlags, child_specs: Vec<ChildSpec>)
        ensures
            final(self).flags == flags,
            final(self).child_specs == child_specs,
            final(self).running@ == with_specs(old(self).running@, child_specs@),
            final(self).intensity@ == old(self).intensity@,
            final(self).intensity.spec_flags() == flags,
    {
        let mut running: AssocMap<&'static str, ActorId> = AssocMap::new();
        let mut at: usize = 0;
        assert(running@ =~= with_specs(self.running@, child_specs@.take(0)));
        while at < child_specs.len()
            invariant
                *self == *old(self),
                at <= child_specs@.len(),
                running@ == with_specs(self.running@, child_specs@.take(at as int)),
            decreases child_specs@.len() - at,
        {
            let child_id = child_specs[at].id;
            let ghost before = running@;
            if let Some(actor) = self.running.get(child_id) {
                running.insert(child_id, actor);
            }
            proof {
                let fewer = child_specs@.take(at as int);
                let more = child_specs@.take(at + 1);
                assert forall|child: Seq<char>| #[trigger]
                    crate::supervisor::scope::has_spec(more, child) <==> (
                crate::supervisor::scope::has_spec(fewer, child) || child == child_id@) by {
                    if crate::supervisor::scope::has_spec(fewer, child) {
                        let i = choose|i: int|
                            0 <= i < fewer.len() && (#[trigger] fewer[i]).id@ == child;
                        assert(more[i].id@ == child);
                    }
                    if crate::supervisor::scope::has_spec(more, child) {
                        let i = choose|i: int|
                            0 <= i < more.len() && (#[trigger] more[i]).id@ == child;
                        if i < at {
                            assert(fewer[i].id@ == child);
                        }
                    }
                    assert(more[at as int].id@ == child_id@);
                }
                assert(running@ =~= with_specs(self.running@, more));
            }
            at = at + 1;
        }
        assert(child_specs@.take(child_specs@.len() as int) =~= child_specs@);
        self.flags = flags;
        self.child_specs = child_specs;
        self.running = running;
        self.intensity.reconfigure(flags);
    }
}

/// The running children once an exit is noted: the child goes, unless it runs as another actor.
pub open spec fn cleared(
    running: Map<Seq<char>, ActorId>,
    child: Seq<char>,
    actor: ActorId,
) -> Map<Seq<char>, ActorId> {
    if running.contains_key(child) && running[child] == actor {
        running.remove(child)
    } else {
        running
    }
}

} // verus!
