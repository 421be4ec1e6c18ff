//! Actors that are out of their place because a hook of theirs runs, or because they leave.

use vstd::prelude::*;

use crate::internal::turn::TurnEffects;
use crate::runtime::actor_state::{ActorState, ActorView};
use crate::types::{ActorId, ExitReason, Ref};

verus! {

/// What is left to do for an actor that leaves.
#[derive(Debug)]
pub struct Leaving {
    /// The reason with which the actor exits.
    pub reason: ExitReason,
    /// The reason that linked actors see.
    pub linked_reason: ExitReason,
    /// A notification that was sent and is not reported yet.
    pub owed: Option<(Ref, ActorId)>,
    /// Watchers that are not told yet, the next one last.
    pub watchers: Vec<(Ref, ActorId)>,
    /// Linked actors that are not told yet, the next one last.
    pub links: Vec<ActorId>,
}

/// What an actor on the stack is doing.
#[derive(Debug)]
pub enum Stage {
    /// A hook of the actor runs.
    Running,
    /// The actor has to exit; its termination hook has not run.
    Condemned(ExitReason),
    /// The termination hook of the actor runs.
    Terminating(ExitReason),
    /// The actor leaves.
    Leaving(Leaving),
}

/// An actor on the stack.
#[derive(Debug)]
pub struct Frame {
    /// The actor.
    pub actor: ActorState,
    /// What the actor asked for while its hook ran.
    pub effects: TurnEffects,
    /// What the actor is doing.
    pub stage: Stage,
}

/// What is left to do for an actor that leaves, with mathematical collections.
pub struct LeavingView {
    /// The reason with which the actor exits.
    pub reason: ExitReason,
    /// The reason that linked actors see.
    pub linked_reason: ExitReason,
    /// A notification that was sent and is not reported yet.
    pub owed: Option<(Ref, ActorId)>,
    /// Watchers that are not told yet, in the order in which they are told.
    pub watchers: Seq<(Ref, ActorId)>,
    /// Linked actors that are not told yet, in the order in which they are told.
    pub links: Seq<ActorId>,
}

/// What an actor on the stack is doing, with mathematical collections.
pub enum StageView {
    /// See [`Stage::Running`].
    Running,
    /// See [`Stage::Condemned`].
    Condemned(ExitReason),
    /// See [`Stage::Terminating`].
    Terminating(ExitReason),
    /// See [`Stage::Leaving`].
    Leaving(LeavingView),
}

/// An actor on the stack, with mathematical collections.
pub struct FrameView {
    /// The actor.
    pub actor: ActorView,
    /// What the actor asked for while its hook ran.
    pub effects: TurnEffects,
    /// What the actor is doing.
    pub stage: StageView,
}

impl View for Leaving {
    type V = LeavingView;

    open spec fn view(&self) -> LeavingView {
        LeavingView {
            reason: self.reason,
            linked_reason: self.linked_reason,
            owed: self.owed,
            watchers: self.watchers@.reverse(),
            links: self.links@.reverse(),
        }
    }
}

impl View for Stage {
    type V = StageView;

    open spec fn view(&self) -> StageView {
        match *self {
            Stage::Running => StageView::Running,
            Stage::Condemned(reason) => StageView::Condemned(reason),
            Stage::Terminating(reason) => StageView::Terminating(reason),
            Stage::Leaving(leaving) => StageView::Leaving(leaving@),
        }
    }
}

impl View for Frame {
    type V = FrameView;

    open spec fn view(&self) -> FrameView {
        FrameView { actor: self.actor@, effects: self.effects, stage: self.stage@ }
    }
}

impl FrameView {
    /// Whether a hook of the actor runs, so that the actor can act.
    pub open spec fn in_hook(self) -> bool {
        self.stage is Running || self.stage is Terminating
    }
}

/// Reverses a list of monitors.
pub(crate) fn reversed_pairs(pairs: &Vec<(Ref, ActorId)>) -> (reversed: Vec<(Ref, ActorId)>)
    ensures
        reversed@ == pairs@.reverse(),
        reversed@.reverse() == pairs@,
{
    let mut reversed: Vec<(Ref, ActorId)> = Vec::new();
    let mut left: usize = pairs.len();
    while left > 0
        invariant
            left <= pairs@.len(),
            reversed@.len() == pairs@.len() - left,
            forall|i: int|
                0 <= i < reversed@.len() ==> (#[trigger] reversed@[i]) == pairs@[pairs@.len() - 1
                    - i],
        decreases left,
    {
        left = left - 1;
        reversed.push(pairs[left]);
    }
    assert(reversed@ =~= pairs@.reverse());
    assert(reversed@.reverse() =~= pairs@);
    reversed
}

/// Reverses a list of actors.
pub(crate) fn reversed_ids(ids: &Vec<ActorId>) -> (reversed: Vec<ActorId>)
    ensures
        reversed@ == ids@.reverse(),
        reversed@.reverse() == ids@,
{
    let mut reversed: Vec<ActorId> = Vec::new();
    let mut left: usize = ids.len();
    while left > 0
        invariant
            left <= ids@.len(),
            reversed@.len() == ids@.len() - left,
            forall|i: int|
                0 <= i < reversed@.len() ==> (#[trigger] reversed@[i]) == ids@[ids@.len() - 1 - i],
        decreases left,
    {
        left = left - 1;
        reversed.push(ids[left]);
    }
    assert(reversed@ =~= ids@.reverse());
    assert(reversed@.reverse() =~= ids@);
    reversed
}

} // verus!
