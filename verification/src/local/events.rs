//! What reaches actors of the single-threaded runtime from outside.

use vstd::prelude::*;

use crate::context::SendError;
use crate::envelope::{CallTimedOut, Envelope, TaskCompleted, TimerFired};
use crate::internal::error::mailbox_overflow_reason;
use crate::internal::turn::TurnEffects;
use crate::lifecycle::{LifecycleEvent, LifecycleView, ShutdownPhase};
use crate::runtime::state::StateView;
use crate::types::{ActorId, ActorStatus, ExitReason, Ref, TimerToken};

use super::frame::{Frame, Stage, StageView};
use super::machine::LocalRuntime;
use super::spec::LocalView;

verus! {

/// Whether the same actors are in their places and on the stack.
pub open spec fn same_actors(before: LocalView, after: LocalView) -> bool {
    &&& forall|slot: u64| #[trigger]
        after.state.actors.contains_key(slot) ==> before.state.actors.contains_key(slot)
            && after.state.actors[slot].id == before.state.actors[slot].id
    &&& after.stack.len() == before.stack.len()
    &&& forall|i: int|
        0 <= i < after.stack.len() ==> (#[trigger] after.stack[i]).actor.id
            == before.stack[i].actor.id && after.stack[i].actor.wf()
}

/// Ids stay in order as long as the actors are the same.
pub(crate) proof fn lemma_same_actors(
    ids: crate::internal::id::ActorSlotAllocator,
    before: LocalView,
    after: LocalView,
)
    requires
        super::machine::ids_ok(ids, before),
        same_actors(before, after),
    ensures
        super::machine::ids_ok(ids, after),
{
    assert forall|i: int| 0 <= i < after.stack.len() implies {
        &&& ids.live((#[trigger] after.stack[i]).actor.id)
        &&& !after.state.actors.contains_key(after.stack[i].actor.id.local_id)
        &&& after.stack[i].actor.wf()
    } by {
        assert(ids.live(before.stack[i].actor.id));
    }
    assert forall|i: int, j: int| 0 <= i < j < after.stack.len() implies (
    #[trigger] after.stack[i]).actor.id != (#[trigger] after.stack[j]).actor.id by {
        assert(before.stack[i].actor.id != before.stack[j].actor.id);
    }
}

/// Ids stay in order when an actor moves from its place to the stack.
pub(crate) proof fn lemma_condemned_ids(
    ids: crate::internal::id::ActorSlotAllocator,
    before: LocalView,
    id: ActorId,
    reason: ExitReason,
)
    requires
        super::machine::ids_ok(ids, before),
        crate::runtime::table::table_ok(before.state.actors),
    ensures
        super::machine::ids_ok(ids, before.condemned(id, reason)),
{
    let after = before.condemned(id, reason);
    if before.state.has(id) {
        let last = before.stack.len() as int;
        assert(ids.live(before.state.actors[id.local_id].id));
        assert forall|i: int| 0 <= i < after.stack.len() implies {
            &&& ids.live((#[trigger] after.stack[i]).actor.id)
            &&& !after.state.actors.contains_key(after.stack[i].actor.id.local_id)
            &&& after.stack[i].actor.wf()
        } by {
            if i < last {
                assert(after.stack[i] == before.stack[i]);
            }
        }
        assert forall|i: int, j: int| 0 <= i < j < after.stack.len() implies (
        #[trigger] after.stack[i]).actor.id != (#[trigger] after.stack[j]).actor.id by {
            assert(after.stack[i] == before.stack[i]);
            if j < last {
                assert(after.stack[j] == before.stack[j]);
            } else {
                assert(!before.state.actors.contains_key(before.stack[i].actor.id.local_id));
            }
        }
    }
}

impl LocalRuntime {
    /// Delivers an envelope to an actor in its place.
    pub(crate) fn push_to(&mut self, to: ActorId, envelope: Envelope) -> (outcome: Result<
        (),
        SendError,
    >)
        requires
            old(self).sound(),
        ensures
            final(self).sound(),
            final(self).same_setup(*old(self)),
            outcome == super::spec::send_answer(old(self)@.state, to, envelope),
            final(self)@ == old(self)@.pushed(to, envelope),
    {
        match self.state.actors.take(to) {
            Some(mut target) => {
                let outcome = target.push_envelope(envelope);
                self.state.actors.put(target);
                let scheduled = match outcome {
                    Ok(scheduled) => scheduled,
                    Err(_) => false,
                };
                if scheduled {
                    self.run_queue.push_back(to);
                }
                proof {
                    let after = old(self)@.pushed(to, envelope);
                    assert(self@.state.actors =~= after.state.actors);
                    assert(self@.stack =~= after.stack);
                    assert(self@ == after);
                    lemma_same_actors(self.ids, old(self)@, self@);
                }
                match outcome {
                    Ok(_) => Ok(()),
                    Err(error) => Err(error),
                }
            },
            None => Err(SendError::NoProc(to)),
        }
    }

    /// Sends an envelope from outside the runtime.
    pub fn send_envelope(&mut self, to: ActorId, envelope: Envelope) -> (outcome: Result<
        (),
        SendError,
    >)
        requires
            old(self).wf(),
        ensures
            final(self).wf(),
            final(self).same_setup(*old(self)),
            outcome == super::spec::send_answer(old(self)@.state, to, envelope),
            final(self)@ == old(self)@.sent(to, envelope),
            !old(self)@.state.has(to) ==> outcome == Err::<(), SendError>(SendError::NoProc(to)),
            old(self)@.state.has(to) ==> {
                let was = old(self)@.state.actor(to).mailbox;
                let now = final(self)@.state.actor(to).mailbox;
                let room = was.capacity == usize::MAX || (if envelope is User
                    || envelope is Request {
                    was.queue.len() + was.reserve < was.capacity
                } else {
                    was.queue.len() < was.capacity
                });
                &&& outcome is Ok <==> room
                &&& room ==> super::step_laws::has_got(was, now, envelope)
                &&& !room ==> now == was && outcome == Err::<(), SendError>(
                    SendError::MailboxFull { actor: to, capacity: was.capacity },
                )
            },
    {
        proof {
            crate::concurrent::turn_laws::lemma_what_a_send_does(self@.state, to, envelope);
            if self@.state.has(to) {
                super::step_laws::lemma_what_a_delivery_puts(self@, to, envelope);
            }
        }
        if let Envelope::Reply { reference, .. } = &envelope {
            let _cancelled = self.state.calls.remove(to, *reference);
        }
        proof {
            let settled = old(self)@.with_state(
                crate::concurrent::spec::call_settled(old(self)@.state, to, envelope),
            );
            assert(self@.stack =~= settled.stack);
            assert(self@ == settled);
            lemma_same_actors(self.ids, old(self)@, self@);
        }
        self.push_to(to, envelope)
    }

    /// Forces an actor to exit and tells whether it is in its place. The exit is carried out by
    /// [`LocalRuntime::step`].
    pub fn exit_actor(&mut self, actor: ActorId, reason: ExitReason) -> (found: bool)
        requires
            old(self).wf(),
        ensures
            final(self).wf(),
            final(self).same_setup(*old(self)),
            found == old(self)@.state.has(actor),
            final(self)@ == old(self)@.condemned(actor, reason),
            found ==> {
                let frame = final(self)@.stack.last();
                &&& !final(self)@.state.has(actor)
                &&& final(self)@.stack.len() == old(self)@.stack.len() + 1
                &&& frame.stage == StageView::Condemned(reason)
                &&& frame.actor.id == actor
                &&& frame.actor.mailbox == old(self)@.state.actor(actor).mailbox
            },
    {
        match self.state.actors.take(actor) {
            Some(mut entry) => {
                entry.status = ActorStatus::Exiting;
                entry.metrics.scheduler_id = Some(0);
                self.stack.push(
                    Frame {
                        actor: entry,
                        effects: TurnEffects::new(),
                        stage: Stage::Condemned(reason),
                    },
                );
                proof {
                    let after = old(self)@.condemned(actor, reason);
                    assert(self@.state.actors =~= after.state.actors);
                    assert(self@.stack =~= after.stack);
                    lemma_condemned_ids(self.ids, old(self)@, actor, reason);
                }
                true
            },
            None => false,
        }
    }

    /// Delivers an envelope of the runtime itself and tells whether the actor is in its place. An
    /// actor whose mailbox has no room for it has to exit.
    pub(crate) fn enqueue_runtime_envelope(
        &mut self,
        actor: ActorId,
        envelope: Envelope,
        label: &'static str,
    ) -> (found: bool)
        requires
            old(self).wf(),
        ensures
            final(self).wf(),
            final(self).same_setup(*old(self)),
            found == old(self)@.state.has(actor),
            old(self)@.runtime_sent(actor, envelope, label@, final(self)@),
    {
        match self.send_envelope(actor, envelope) {
            Ok(()) => true,
            Err(SendError::MailboxFull { .. }) => {
                let reason = mailbox_overflow_reason(actor, label);
                assert(crate::internal::error::is_overflow(reason, actor, label@));
                self.exit_actor(actor, reason)
            },
            Err(SendError::NoProc(_)) => false,
        }
    }

    /// Lets a timer fire and tells whether that concerned an actor in its place. A timer that was
    /// cancelled does nothing.
    pub fn timer_fired(&mut self, target: ActorId, token: TimerToken) -> (handled: bool)
        requires
            old(self).wf(),
        ensures
            final(self).wf(),
            final(self).same_setup(*old(self)),
            ({
                let before = old(self)@;
                let entry = (target, token.spec_ref());
                if before.state.timers.contains(entry) {
                    &&& handled == before.state.has(target)
                    &&& before.with_state(
                        (StateView { timers: before.state.timers.remove(entry), ..before.state }),
                    ).runtime_sent(
                        target,
                        Envelope::Timer(TimerFired { token }),
                        "timer"@,
                        final(self)@,
                    )
                } else {
                    !handled && final(self)@ == before
                }
            }),
            handled ==> {
                let was = old(self)@.state.actor(target).mailbox;
                if super::step_laws::is_full(was) {
                    &&& !final(self)@.state.has(target)
                    &&& final(self)@.stack.last().stage matches StageView::Condemned(reason)
                        && crate::concurrent::turn_laws::overflowed(reason, target, "timer"@)
                } else {
                    &&& final(self)@.state.has(target)
                    &&& super::step_laws::has_got(
                        was,
                        final(self)@.state.actor(target).mailbox,
                        Envelope::Timer(TimerFired { token }),
                    )
                }
            },
    {
        if !self.state.timers.remove(target, token.as_ref()) {
            assert(self.state@.timers =~= old(self)@.state.timers);
            assert(self@ == old(self)@);
            return false;
        }
        proof {
            lemma_same_actors(self.ids, old(self)@, self@);
        }
        let ghost dropped = self@;
        let handled = self.enqueue_runtime_envelope(
            target,
            Envelope::Timer(TimerFired { token }),
            "timer",
        );
        proof {
            if dropped.state.has(target) {
                super::step_laws::lemma_what_a_runtime_envelope_does(
                    dropped,
                    target,
                    Envelope::Timer(TimerFired { token }),
                    "timer"@,
                    self@,
                );
            }
        }
        handled
    }

    /// Delivers the completion of a blocking task and tells whether the actor is in its place.
    pub fn task_completed(&mut self, target: ActorId, task: TaskCompleted) -> (handled: bool)
        requires
            old(self).wf(),
        ensures
            final(self).wf(),
            final(self).same_setup(*old(self)),
            handled == old(self)@.state.has(target),
            old(self)@.runtime_sent(target, Envelope::Task(task), "task"@, final(self)@),
            handled ==> {
                let was = old(self)@.state.actor(target).mailbox;
                if super::step_laws::is_full(was) {
                    &&& !final(self)@.state.has(target)
                    &&& final(self)@.stack.last().stage matches StageView::Condemned(reason)
                        && crate::concurrent::turn_laws::overflowed(reason, target, "task"@)
                } else {
                    &&& final(self)@.state.has(target)
                    &&& super::step_laws::has_got(
                        was,
                        final(self)@.state.actor(target).mailbox,
                        Envelope::Task(task),
                    )
                }
            },
    {
        let ghost before = self@;
        let handled = self.enqueue_runtime_envelope(target, Envelope::Task(task), "task");
        proof {
            if before.state.has(target) {
                super::step_laws::lemma_what_a_runtime_envelope_does(
                    before,
                    target,
                    Envelope::Task(task),
                    "task"@,
                    self@,
                );
            }
        }
        handled
    }

    /// Lets the timeout of a call fire and tells whether that concerned an actor in its place. A
    /// timeout that a reply has cancelled does nothing.
    pub fn call_timed_out(&mut self, target: ActorId, reference: Ref) -> (handled: bool)
        requires
            old(self).wf(),
        ensures
            final(self).wf(),
            final(self).same_setup(*old(self)),
            ({
                let before = old(self)@;
                let entry = (target, reference);
                if before.state.calls.contains(entry) {
                    &&& handled == before.state.has(target)
                    &&& before.with_state(
                        (StateView { calls: before.state.calls.remove(entry), ..before.state }),
                    ).runtime_sent(
                        target,
                        Envelope::CallTimeout(CallTimedOut { reference }),
                        "call timeout"@,
                        final(self)@,
                    )
                } else {
                    !handled && final(self)@ == before
                }
            }),
            handled ==> {
                let was = old(self)@.state.actor(target).mailbox;
                if super::step_laws::is_full(was) {
                    &&& !final(self)@.state.has(target)
                    &&& final(self)@.stack.last().stage matches StageView::Condemned(reason)
                        && crate::concurrent::turn_laws::overflowed(reason, target, "call timeout"@)
                } else {
                    &&& final(self)@.state.has(target)
                    &&& super::step_laws::has_got(
                        was,
                        final(self)@.state.actor(target).mailbox,
                        Envelope::CallTimeout(CallTimedOut { reference }),
                    )
                }
            },
    {
        if !self.state.calls.remove(target, reference) {
            assert(self.state@.calls =~= old(self)@.state.calls);
            assert(self@ == old(self)@);
            return false;
        }
        proof {
            lemma_same_actors(self.ids, old(self)@, self@);
        }
        let ghost dropped = self@;
        let handled = self.enqueue_runtime_envelope(
            target,
            Envelope::call_timeout(reference),
            "call timeout",
        );
        proof {
            if dropped.state.has(target) {
                super::step_laws::lemma_what_a_runtime_envelope_does(
                    dropped,
                    target,
                    Envelope::CallTimeout(CallTimedOut { reference }),
                    "call timeout"@,
                    self@,
                );
            }
        }
        handled
    }

    /// Enforces a shutdown that has taken too long and tells whether one was requested.
    pub fn shutdown_timed_out(&mut self, target: ActorId) -> (handled: bool)
        requires
            old(self).wf(),
        ensures
            final(self).wf(),
            final(self).same_setup(*old(self)),
            ({
                let before = old(self)@;
                if before.state.has(target) && before.state.actor(target).shutdown is Some {
                    let tracker = before.state.actor(target).shutdown->0;
                    &&& handled
                    &&& final(self)@ == before.with_state(
                        before.state.logged(
                            LifecycleView::Shutdown {
                                requester: tracker.requester,
                                actor: target,
                                policy: tracker.policy,
                                phase: ShutdownPhase::TimedOut,
                                reason: Some(ExitReason::Kill),
                            },
                        ),
                    ).condemned(target, ExitReason::Kill)
                } else {
                    !handled && final(self)@ == before
                }
            }),
            handled ==> {
                let frame = final(self)@.stack.last();
                &&& !final(self)@.state.has(target)
                &&& frame.stage == StageView::Condemned(ExitReason::Kill)
                &&& frame.actor.id == target
                &&& final(self)@.state.log.len() == old(self)@.state.log.len() + 1
            },
    {
        let tracker = match self.state.actors.get(target) {
            Some(entry) => match entry.shutdown {
                Some(tracker) => tracker,
                None => {
                    return false;
                },
            },
            None => {
                return false;
            },
        };
        self.state.record_lifecycle_event(
            LifecycleEvent::Shutdown {
                requester: tracker.requester,
                actor: target,
                policy: tracker.policy,
                phase: ShutdownPhase::TimedOut,
                reason: Some(ExitReason::Kill),
            },
        );
        proof {
            lemma_same_actors(self.ids, old(self)@, self@);
        }
        self.exit_actor(target, ExitReason::Kill)
    }
}

} // verus!
