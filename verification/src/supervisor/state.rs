//! What a supervisor knows of its children.

use std::collections::VecDeque;

use vstd::prelude::*;

use crate::collections::AssocMap;
use crate::supervisor::plan::{RestartPlan, ShutdownPlan};
use crate::supervisor::scope::find_spec;
use crate::text::same_text;
use crate::types::{ActorId, ChildSpec, SupervisorFlags};

verus! {

/// Whether a text occurs in a list.
pub open spec fn mentions(list: Seq<&'static str>, text: Seq<char>) -> bool {
    exists|i: int| 0 <= i < list.len() && (#[trigger] list[i])@ == text
}

fn has_text(list: &[&'static str], text: &str) -> (found: bool)
    ensures
        found == mentions(list@, text@),
{
    let mut at: usize = 0;
    while at < list.len()
        invariant
            at <= list@.len(),
            forall|i: int| 0 <= i < at ==> (#[trigger] list@[i])@ != text@,
        decreases list@.len() - at,
    {
        if same_text(list[at], text) {
            return true;
        }
        at = at + 1;
    }
    false
}

/// The children among `requested`, in start order.
pub open spec fn in_start_order(specs: Seq<ChildSpec>, requested: Seq<&'static str>) -> Seq<
    &'static str,
> {
    crate::supervisor::scope::ids(specs).filter(|id: &'static str| mentions(requested, id@))
}

/// The running children among `wanted`, the one started last first.
pub open spec fn running_reversed(
    specs: Seq<ChildSpec>,
    running: Map<Seq<char>, ActorId>,
    wanted: Seq<&'static str>,
) -> Seq<&'static str> {
    crate::supervisor::scope::ids(specs).reverse().filter(
        |id: &'static str| mentions(wanted, id@) && running.contains_key(id@),
    )
}

/// All running children, the one started last first.
pub open spec fn all_running_reversed(
    specs: Seq<ChildSpec>,
    running: Map<Seq<char>, ActorId>,
) -> Seq<&'static str> {
    crate::supervisor::scope::ids(specs).reverse().filter(
        |id: &'static str| running.contains_key(id@),
    )
}

/// Children being stopped, either to start again or for good.
#[derive(Debug)]
pub enum SupervisorAction {
    /// Stop some children and start them again.
    Restart(RestartPlan),
    /// Stop all children and then the supervisor.
    Shutdown(ShutdownPlan),
}

/// The children of a supervisor: their specs, their running actors, and what is under way.
#[derive(Debug)]
pub struct SupervisorActorState {
    /// Restart flags of the supervisor.
    pub flags: SupervisorFlags,
    /// Child specs in start order.
    pub specs: Vec<ChildSpec>,
    /// The running actor of each child.
    pub running: AssocMap<&'static str, ActorId>,
    /// The child behind each running actor.
    pub by_actor: AssocMap<ActorId, &'static str>,
    /// The plan that waits for a child to exit.
    pub action: Option<SupervisorAction>,
}

impl SupervisorActorState {
    /// Whether every child that runs, and every actor that is tracked, has a spec.
    pub open spec fn has_specs(self) -> bool {
        &&& forall|child: Seq<char>| #[trigger]
            self.running@.contains_key(child) ==> crate::supervisor::scope::has_spec(
                self.specs@,
                child,
            )
        &&& forall|actor: ActorId| #[trigger]
            self.by_actor@.contains_key(actor) ==> crate::supervisor::scope::has_spec(
                self.specs@,
                self.by_actor@[actor]@,
            )
    }

    /// Whether the running actors and the tracked actors are two sides of one relation.
    pub open spec fn paired(self) -> bool {
        &&& forall|child: Seq<char>| #[trigger]
            self.running@.contains_key(child) ==> self.by_actor@.contains_key(self.running@[child])
                && self.by_actor@[self.running@[child]]@ == child
        &&& forall|actor: ActorId| #[trigger]
            self.by_actor@.contains_key(actor) ==> self.running@.contains_key(
                self.by_actor@[actor]@,
            ) && self.running@[self.by_actor@[actor]@] == actor
    }

    /// Starts with no child running.
    pub fn new(flags: SupervisorFlags, specs: Vec<ChildSpec>) -> (state: Self)
        ensures
            state.flags == flags,
            state.specs == specs,
            state.running@ == Map::<Seq<char>, ActorId>::empty(),
            state.by_actor@ == Map::<ActorId, &'static str>::empty(),
            state.action is None,
            state.has_specs(),
            state.paired(),
    {
        SupervisorActorState {
            flags,
            specs,
            running: AssocMap::new(),
            by_actor: AssocMap::new(),
            action: None,
        }
    }

    /// Returns the spec of a child.
    pub fn spec(&self, child_id: &'static str) -> (spec: Option<ChildSpec>)
        ensures
            spec == (if crate::supervisor::scope::has_spec(self.specs@, child_id@) {
                Some(
                    self.specs@[crate::supervisor::scope::first_place(
                        self.specs@,
                        child_id@,
                    ) as int],
                )
            } else {
                None
            }),
            spec matches Some(found) ==> found.id@ == child_id@,
    {
        proof {
            crate::supervisor::scope::lemma_first_place(self.specs@, child_id@);
        }
        match find_spec(self.specs.as_slice(), child_id) {
            Some(at) => Some(self.specs[at]),
            None => None,
        }
    }

    /// Returns the running actor of a child.
    pub fn running_actor(&self, child_id: &'static str) -> (actor: Option<ActorId>)
        ensures
            actor == (if self.running@.contains_key(child_id@) {
                Some(self.running@[child_id@])
            } else {
                None
            }),
    {
        self.running.get(child_id)
    }

    /// Tracks a child that has started.
    pub fn remember_child(&mut self, child_id: &'static str, actor: ActorId)
        ensures
            final(self).running@ == old(self).running@.insert(child_id@, actor),
            final(self).by_actor@ == old(self).by_actor@.insert(actor, child_id),
            final(self).flags == old(self).flags,
            final(self).specs == old(self).specs,
            final(self).action == old(self).action,
            old(self).has_specs() && crate::supervisor::scope::has_spec(
                old(self).specs@,
                child_id@,
            ) ==> final(self).has_specs(),
            old(self).paired() && !old(self).running@.contains_key(child_id@) && !old(
                self,
            ).by_actor@.contains_key(actor) ==> final(self).paired(),
    {
        self.running.insert(child_id, actor);
        self.by_actor.insert(actor, child_id);
    }

    /// Stops tracking an actor and returns the child that it ran as.
    pub fn forget_child_actor(&mut self, actor: ActorId) -> (child: Option<&'static str>)
        ensures
            child == (if old(self).by_actor@.contains_key(actor) {
                Some(old(self).by_actor@[actor])
            } else {
                None
            }),
            final(self).by_actor@ == old(self).by_actor@.remove(actor),
            final(self).running@ == (match child {
                Some(child_id) => old(self).running@.remove(child_id@),
                None => old(self).running@,
            }),
            final(self).flags == old(self).flags,
            final(self).specs == old(self).specs,
            final(self).action == old(self).action,
            old(self).has_specs() ==> final(self).has_specs(),
            old(self).paired() ==> final(self).paired(),
    {
        match self.by_actor.remove(actor) {
            Some(child_id) => {
                let _actor = self.running.remove(child_id);
                Some(child_id)
            },
            None => {
                assert(self.by_actor@ =~= old(self).by_actor@);
                None
            },
        }
    }

    /// Lists the requested children in start order.
    pub fn ordered_child_ids(&self, requested: &[&'static str]) -> (children: Vec<&'static str>)
        ensures
            children@ == in_start_order(self.specs@, requested@),
    {
        let ghost all = crate::supervisor::scope::ids(self.specs@);
        let ghost keep = |id: &'static str| mentions(requested@, id@);
        let mut children: Vec<&'static str> = Vec::new();
        let mut at: usize = 0;
        proof {
            crate::collections::lemma_filter_nothing(all, keep);
        }
        while at < self.specs.len()
            invariant
                at <= self.specs@.len(),
                all == crate::supervisor::scope::ids(self.specs@),
                keep == (|id: &'static str| mentions(requested@, id@)),
                children@ == all.take(at as int).filter(keep),
            decreases self.specs@.len() - at,
        {
            let id = self.specs[at].id;
            proof {
                crate::collections::lemma_filter_take(all, at as int, keep);
                assert(all[at as int] == id);
            }
            if has_text(requested, id) {
                children.push(id);
            }
            at = at + 1;
        }
        assert(all.take(all.len() as int) =~= all);
        children
    }

    /// Lists the running children among the given ones, the one started last first.
    pub fn running_children_reverse(&self, child_ids: &[&'static str]) -> (children: VecDeque<
        &'static str,
    >)
        ensures
            children@ == running_reversed(self.specs@, self.running@, child_ids@),
    {
        let ghost all = crate::supervisor::scope::ids(self.specs@).reverse();
        let ghost keep = |id: &'static str| mentions(child_ids@, id@) && self.running@.contains_key(id@);
        let mut children: VecDeque<&'static str> = VecDeque::new();
        let mut left: usize = self.specs.len();
        proof {
            crate::collections::lemma_filter_nothing(all, keep);
        }
        while left > 0
            invariant
                left <= self.specs@.len(),
                all == crate::supervisor::scope::ids(self.specs@).reverse(),
                keep == (|id: &'static str| mentions(child_ids@, id@) && self.running@.contains_key(id@)),
                children@ == all.take(self.specs@.len() - left).filter(keep),
            decreases left,
        {
            let ghost taken = self.specs@.len() - left;
            left = left - 1;
            let id = self.specs[left].id;
            proof {
                assert(all[taken] == id);
                crate::collections::lemma_filter_take(all, taken, keep);
            }
            if has_text(child_ids, id) && self.running.contains(id) {
                children.push_back(id);
            }
        }
        assert(all.take(all.len() as int) =~= all);
        children
    }

    /// Lists all running children, the one started last first.
    pub fn all_running_reverse(&self) -> (children: VecDeque<&'static str>)
        ensures
            children@ == all_running_reversed(self.specs@, self.running@),
    {
        let ghost all = crate::supervisor::scope::ids(self.specs@).reverse();
        let ghost keep = |id: &'static str| self.running@.contains_key(id@);
        let mut children: VecDeque<&'static str> = VecDeque::new();
        let mut left: usize = self.specs.len();
        proof {
            crate::collections::lemma_filter_nothing(all, keep);
        }
        while left > 0
            invariant
                left <= self.specs@.len(),
                all == crate::supervisor::scope::ids(self.specs@).reverse(),
                keep == (|id: &'static str| self.running@.contains_key(id@)),
                children@ == all.take(self.specs@.len() - left).filter(keep),
            decreases left,
        {
            let ghost taken = self.specs@.len() - left;
            left = left - 1;
            let id = self.specs[left].id;
            proof {
                assert(all[taken] == id);
                crate::collections::lemma_filter_take(all, taken, keep);
            }
            if self.running.contains(id) {
                children.push_back(id);
            }
        }
        assert(all.take(all.len() as int) =~= all);
        children
    }
}

} // verus!
