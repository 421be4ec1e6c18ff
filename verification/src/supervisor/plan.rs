//! Ordered shutdown and restart plans.

use std::collections::VecDeque;

use vstd::prelude::*;

use crate::collections::AssocMap;
use crate::text::same_text;
use crate::types::{ActorId, ExitReason};

verus! {

/// The place of the first occurrence of a child in a queue; the queue's length when there is none.
pub open spec fn queue_place(queue: Seq<&'static str>, child: Seq<char>) -> nat
    decreases queue.len(),
{
    if queue.len() == 0 || queue[0]@ == child {
        0
    } else {
        1 + queue_place(queue.drop_first(), child)
    }
}

/// A queue without the first occurrence of a child.
pub open spec fn without(queue: Seq<&'static str>, child: Seq<char>) -> Seq<&'static str> {
    if queue_place(queue, child) < queue.len() {
        queue.remove(queue_place(queue, child) as int)
    } else {
        queue
    }
}

/// The first occurrence has nothing like it in front.
pub proof fn lemma_queue_place(queue: Seq<&'static str>, child: Seq<char>)
    ensures
        queue_place(queue, child) <= queue.len(),
        queue_place(queue, child) < queue.len() ==> queue[queue_place(queue, child) as int]@
            == child,
        forall|i: int| 0 <= i < queue_place(queue, child) ==> (#[trigger] queue[i])@ != child,
    decreases queue.len(),
{
    if queue.len() > 0 && queue[0]@ != child {
        let rest = queue.drop_first();
        lemma_queue_place(rest, child);
        assert forall|i: int| 0 <= i < queue_place(queue, child) implies (
        #[trigger] queue[i])@ != child by {
            if i > 0 {
                assert(rest[i - 1] == queue[i]);
            }
        }
    }
}

proof fn lemma_is_queue_place(queue: Seq<&'static str>, child: Seq<char>, at: int)
    requires
        0 <= at <= queue.len(),
        at < queue.len() ==> queue[at]@ == child,
        forall|i: int| 0 <= i < at ==> (#[trigger] queue[i])@ != child,
    ensures
        queue_place(queue, child) == at,
{
    lemma_queue_place(queue, child);
    let first = queue_place(queue, child) as int;
    if first < at {
        assert(queue[first]@ != child);
    }
    if at < first {
        assert(queue[at]@ != child);
    }
}

/// Takes the first occurrence of a child out of a queue and tells whether there was one.
pub(crate) fn take_out(queue: &mut VecDeque<&'static str>, child: &str) -> (found: bool)
    ensures
        final(queue)@ == without(old(queue)@, child@),
        found == (queue_place(old(queue)@, child@) < old(queue)@.len()),
{
    let mut at: usize = 0;
    while at < queue.len()
        invariant
            *queue == *old(queue),
            at <= queue@.len(),
            forall|i: int| 0 <= i < at ==> (#[trigger] queue@[i])@ != child@,
        decreases queue@.len() - at,
    {
        if same_text(queue[at], child) {
            proof {
                lemma_is_queue_place(queue@, child@, at as int);
            }
            let _removed = queue.remove(at);
            return true;
        }
        at = at + 1;
    }
    proof {
        lemma_is_queue_place(queue@, child@, queue@.len() as int);
    }
    false
}

/// Whether an optional child is the given one.
pub open spec fn is_child(active: Option<&'static str>, child: Seq<char>) -> bool {
    active matches Some(id) && id@ == child
}

fn matches_child(active: Option<&'static str>, child: &str) -> (same: bool)
    ensures
        same == is_child(active, child@),
{
    match active {
        Some(id) => same_text(id, child),
        None => false,
    }
}

/// A child exit that no step of a restart plan expects.
#[derive(Debug, Clone, Copy, PartialEq, Eq)]
pub enum RestartPlanError {
    /// The child is not being shut down and is not waiting for it.
    UnexpectedChild(&'static str),
}

/// Children to stop, one after the other, and then to start again.
#[derive(Debug)]
pub struct RestartPlan {
    /// The child that was asked to stop.
    pub active_shutdown: Option<&'static str>,
    /// The children to stop after it.
    pub shutdown_queue: VecDeque<&'static str>,
    /// The children to start once all have stopped.
    pub restart_queue: VecDeque<&'static str>,
    /// The actors that the children ran as.
    pub old_children: AssocMap<&'static str, Option<ActorId>>,
}

impl RestartPlan {
    /// Notes that a child has stopped.
    pub fn complete_shutdown(&mut self, child_id: &'static str) -> (outcome: Result<
        (),
        RestartPlanError,
    >)
        ensures
            if is_child(old(self).active_shutdown, child_id@) {
                &&& outcome is Ok
                &&& final(self).active_shutdown is None
                &&& final(self).shutdown_queue@ == old(self).shutdown_queue@
            } else if queue_place(old(self).shutdown_queue@, child_id@) < old(
                self,
            ).shutdown_queue@.len() {
                &&& outcome is Ok
                &&& final(self).active_shutdown == old(self).active_shutdown
                &&& final(self).shutdown_queue@ == without(old(self).shutdown_queue@, child_id@)
            } else {
                &&& outcome == Err::<(), RestartPlanError>(
                    RestartPlanError::UnexpectedChild(child_id),
                )
                &&& final(self).active_shutdown == old(self).active_shutdown
                &&& final(self).shutdown_queue@ == old(self).shutdown_queue@
            },
            final(self).restart_queue == old(self).restart_queue,
            final(self).old_children == old(self).old_children,
    {
        if matches_child(self.active_shutdown, child_id) {
            self.active_shutdown = None;
            return Ok(());
        }
        if take_out(&mut self.shutdown_queue, child_id) {
            return Ok(());
        }
        Err(RestartPlanError::UnexpectedChild(child_id))
    }

    /// Moves on to the next child to stop.
    pub fn next_shutdown(&mut self) -> (next: Option<&'static str>)
        ensures
            next == (if old(self).shutdown_queue@.len() > 0 {
                Some(old(self).shutdown_queue@[0])
            } else {
                None
            }),
            final(self).active_shutdown == next,
            final(self).shutdown_queue@ == (if old(self).shutdown_queue@.len() > 0 {
                old(self).shutdown_queue@.drop_first()
            } else {
                old(self).shutdown_queue@
            }),
            final(self).restart_queue == old(self).restart_queue,
            final(self).old_children == old(self).old_children,
    {
        let next = self.shutdown_queue.pop_front();
        proof {
            if old(self).shutdown_queue@.len() > 0 {
                assert(self.shutdown_queue@ =~= old(self).shutdown_queue@.drop_first());
            }
        }
        self.active_shutdown = next;
        next
    }
}

/// Children to stop, one after the other, before the supervisor itself stops.
#[derive(Debug)]
pub struct ShutdownPlan {
    /// The child that was asked to stop.
    pub active_child: Option<&'static str>,
    /// The children to stop after it.
    pub shutdown_queue: VecDeque<&'static str>,
    /// The reason with which the supervisor stops in the end.
    pub final_reason: ExitReason,
}

impl ShutdownPlan {
    /// Notes that a child has stopped.
    pub fn complete_child(&mut self, child_id: &'static str)
        ensures
            if is_child(old(self).active_child, child_id@) {
                &&& final(self).active_child is None
                &&& final(self).shutdown_queue@ == old(self).shutdown_queue@
            } else {
                &&& final(self).active_child == old(self).active_child
                &&& final(self).shutdown_queue@ == without(old(self).shutdown_queue@, child_id@)
            },
            final(self).final_reason == old(self).final_reason,
    {
        if matches_child(self.active_child, child_id) {
            self.active_child = None;
            return ;
        }
        let _found = take_out(&mut self.shutdown_queue, child_id);
    }

    /// Moves on to the next child to stop.
    pub fn next_child(&mut self) -> (next: Option<&'static str>)
        ensures
            next == (if old(self).shutdown_queue@.len() > 0 {
                Some(old(self).shutdown_queue@[0])
            } else {
                None
            }),
            final(self).active_child == next,
            final(self).shutdown_queue@ == (if old(self).shutdown_queue@.len() > 0 {
                old(self).shutdown_queue@.drop_first()
            } else {
                old(self).shutdown_queue@
            }),
            final(self).final_reason == old(self).final_reason,
    {
        let next = self.shutdown_queue.pop_front();
        proof {
            if old(self).shutdown_queue@.len() > 0 {
                assert(self.shutdown_queue@ =~= old(self).shutdown_queue@.drop_first());
            }
        }
        self.active_child = next;
        next
    }
}

} // verus!
