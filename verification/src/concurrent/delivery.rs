//! How envelopes and timers reach actors of the multicore runtime.

use std::time::Duration;

use vstd::prelude::*;

use crate::context::{PendingCall, SendError};
use crate::envelope::{Envelope, Payload, ReplyToken, TaskCompleted, TimerFired};
use crate::internal::error::mailbox_overflow_reason;
use crate::runtime::state::StateView;
use crate::scheduler::ScheduleError;
use crate::types::{ActorId, ActorStatus, ExitReason, Ref, TimerToken};

use super::state::ConcurrentRuntime;

verus! {

impl ConcurrentRuntime {
    /// Sends an envelope to an actor.
    pub fn send_envelope(&mut self, to: ActorId, envelope: Envelope) -> (outcome: Result<
        (),
        SendError,
    >)
        requires
            old(self).wf(),
        ensures
            final(self).wf(),
            final(self).same_setup(*old(self)),
            outcome == super::spec::send_answer(old(self).state@, to, envelope),
            final(self).state@ == super::spec::sent(old(self).state@, to, envelope),
            !old(self).state@.has(to) ==> outcome == Err::<(), SendError>(SendError::NoProc(to)),
            old(self).state@.has(to) ==> {
                let was = old(self).state@.actor(to).mailbox;
                let now = final(self).state@.actor(to).mailbox;
                let room = was.capacity == usize::MAX || (if envelope is User
                    || envelope is Request {
                    was.queue.len() + was.reserve < was.capacity
                } else {
                    was.queue.len() < was.capacity
                });
                &&& outcome is Ok <==> room
                &&& room ==> crate::local::step_laws::has_got(was, now, envelope)
                &&& !room ==> now == was && outcome == Err::<(), SendError>(
                    SendError::MailboxFull { actor: to, capacity: was.capacity },
                )
            },
    {
        proof {
            super::turn_laws::lemma_what_a_send_does(self.state@, to, envelope);
        }
        if let Envelope::Reply { reference, .. } = &envelope {
            let _cancelled = self.state.calls.remove(to, *reference);
        }
        let ghost settled = self.state@;
        assert(settled == super::spec::call_settled(old(self).state@, to, envelope));
        match self.state.actors.take(to) {
            Some(mut target) => {
                let outcome = target.deliver(envelope);
                self.state.actors.put(target);
                assert(self.state@.actors =~= settled.with(
                    settled.actor(to).delivered(envelope),
                ).actors);
                outcome
            },
            None => Err(SendError::NoProc(to)),
        }
    }

    /// Sends a request on behalf of an actor. Nothing happens when the asking actor is gone.
    pub fn ask(
        &mut self,
        actor: ActorId,
        to: ActorId,
        reference: Ref,
        message: Payload,
        timeout: Option<Duration>,
    ) -> (outcome: Option<Result<PendingCall, SendError>>)
        requires
            old(self).wf(),
        ensures
            final(self).wf(),
            final(self).same_setup(*old(self)),
            outcome is Some <==> old(self).state@.has(actor),
            outcome is None ==> final(self).state@ == old(self).state@,
            outcome matches Some(outcome) ==> {
                let before = old(self).state@;
                let token = ReplyToken { from: actor, reference };
                let request = Envelope::Request { token, message };
                let after = super::spec::sent(before, to, request);
                match super::spec::send_answer(before, to, request) {
                    Ok(()) => {
                        &&& outcome matches Ok(call) && call.reference == reference
                            && call.reply_to == token && call.timeout == timeout
                            && call.mailbox_watermark.spec_sequence() == before.actor(
                            actor,
                        ).mailbox.next_sequence
                        &&& final(self).state@ == (if timeout is Some {
                            StateView { calls: after.calls.insert((actor, reference)), ..after }
                        } else {
                            after
                        })
                    },
                    Err(error) => outcome == Err::<PendingCall, SendError>(error)
                        && final(self).state@ == after,
                }
            },
    {
        let watermark = match self.state.actors.get(actor) {
            Some(entry) => entry.mailbox.watermark(),
            None => {
                return None;
            },
        };
        let reply_to = ReplyToken::new(actor, reference);
        match self.send_envelope(to, Envelope::Request { token: reply_to, message }) {
            Ok(()) => {},
            Err(error) => {
                return Some(Err(error));
            },
        }
        if timeout.is_some() {
            let _set = self.set_call_timeout(actor, reference);
        }
        Some(Ok(PendingCall::new(reply_to, watermark, timeout)))
    }

    /// Tells whether an actor can be woken.
    pub fn enqueue(&self, actor: ActorId) -> (outcome: Result<(), ScheduleError>)
        ensures
            outcome == (if self.state@.has(actor) {
                Ok(())
            } else {
                Err(ScheduleError::NoProc(actor))
            }),
    {
        if self.state.actors.contains(actor) {
            Ok(())
        } else {
            Err(ScheduleError::NoProc(actor))
        }
    }

    /// Makes an actor exit at its next scheduling boundary and tells whether it is live.
    pub fn exit_actor(&mut self, actor: ActorId, reason: ExitReason) -> (found: bool)
        requires
            old(self).wf(),
        ensures
            final(self).wf(),
            final(self).same_setup(*old(self)),
            found == old(self).state@.has(actor),
            final(self).state@ == super::spec::doomed(old(self).state@, actor, reason),
            found ==> {
                let now = final(self).state@.actor(actor);
                &&& now.forced_exit == Some(reason)
                &&& now.status is Exiting
                &&& now.mailbox == old(self).state@.actor(actor).mailbox
            },
    {
        match self.state.actors.take(actor) {
            Some(mut target) => {
                target.forced_exit = Some(reason);
                target.status = ActorStatus::Exiting;
                target.metrics.scheduler_id = Some(target.scheduler_id);
                self.state.actors.put(target);
                assert(self.state@.actors =~= super::spec::doomed(
                    old(self).state@,
                    actor,
                    reason,
                ).actors);
                true
            },
            None => false,
        }
    }

    /// Delivers an envelope of the runtime itself and tells whether the actor is live. An actor
    /// whose mailbox has no room for it has to exit.
    pub(crate) fn enqueue_runtime_envelope(
        &mut self,
        actor: ActorId,
        envelope: Envelope,
        label: &'static str,
    ) -> (found: bool)
        requires
            old(self).wf(),
        ensures
            final(self).wf(),
            final(self).same_setup(*old(self)),
            found == old(self).state@.has(actor),
            super::spec::runtime_sent(
                old(self).state@,
                actor,
                envelope,
                label@,
                final(self).state@,
            ),
    {
        match self.send_envelope(actor, envelope) {
            Ok(()) => true,
            Err(SendError::MailboxFull { .. }) => {
                let reason = mailbox_overflow_reason(actor, label);
                assert(crate::internal::error::is_overflow(reason, actor, label@));
                self.exit_actor(actor, reason)
            },
            Err(SendError::NoProc(_)) => false,
        }
    }

    /// Delivers the completion of a blocking task and tells whether the actor is live.
    pub fn complete_task(&mut self, actor: ActorId, task: TaskCompleted) -> (found: bool)
        requires
            old(self).wf(),
        ensures
            final(self).wf(),
            final(self).same_setup(*old(self)),
            found == old(self).state@.has(actor),
            super::spec::runtime_sent(
                old(self).state@,
                actor,
                Envelope::Task(task),
                "task"@,
                final(self).state@,
            ),
            found ==> {
                let was = old(self).state@.actor(actor);
                let now = final(self).state@.actor(actor);
                if crate::local::step_laws::is_full(was.mailbox) {
                    &&& now.forced_exit is Some
                    &&& super::turn_laws::overflowed(now.forced_exit->0, actor, "task"@)
                    &&& now.mailbox == was.mailbox
                } else {
                    &&& now.forced_exit == was.forced_exit
                    &&& crate::local::step_laws::has_got(was.mailbox, now.mailbox, Envelope::Task(task))
                }
            },
    {
        let ghost before = self.state@;
        let found = self.enqueue_runtime_envelope(actor, Envelope::Task(task), "task");
        proof {
            if found {
                super::turn_laws::lemma_what_an_envelope_of_the_runtime_does(
                    before,
                    actor,
                    Envelope::Task(task),
                    "task"@,
                    self.state@,
                );
            }
        }
        found
    }

    /// Sets a timer for an actor and tells whether the actor is live, that is whether the timer
    /// counts.
    pub fn set_timer(&mut self, actor: ActorId, token: TimerToken) -> (set: bool)
        requires
            old(self).wf(),
        ensures
            final(self).wf(),
            final(self).same_setup(*old(self)),
            set == old(self).state@.has(actor),
            final(self).state@ == (if set {
                StateView {
                    timers: old(self).state@.timers.insert((actor, token.spec_ref())),
                    ..old(self).state@
                }
            } else {
                old(self).state@
            }),
    {
        if self.state.actors.contains(actor) {
            self.state.timers.insert(actor, token.as_ref());
            true
        } else {
            false
        }
    }

    /// Cancels a timer of an actor and tells whether there was anything to cancel. Firings that
    /// wait in the mailbox are withdrawn.
    pub fn cancel_timer(&mut self, actor: ActorId, token: TimerToken) -> (cancelled: bool)
        requires
            old(self).wf(),
        ensures
            final(self).wf(),
            final(self).same_setup(*old(self)),
            ({
                let before = old(self).state@;
                &&& cancelled == (before.timers.contains((actor, token.spec_ref())) || (before.has(
                    actor,
                ) && before.actor(actor).has_firing(token)))
                &&& final(self).state@ == before.timer_cancelled(actor, token)
            }),
    {
        let pending = self.state.timers.remove(actor, token.as_ref());
        let ghost dropped = self.state@;
        match self.state.actors.take(actor) {
            Some(mut target) => {
                let withdrawn = target.withdraw_timer(token);
                self.state.actors.put(target);
                assert(self.state@.actors =~= dropped.with(
                    dropped.actor(actor).withdrawn(token),
                ).actors);
                pending || withdrawn
            },
            None => pending,
        }
    }

    /// Lets a timer fire. A timer that was cancelled does nothing.
    pub fn fire_timer(&mut self, actor: ActorId, token: TimerToken)
        requires
            old(self).wf(),
        ensures
            final(self).wf(),
            final(self).same_setup(*old(self)),
            ({
                let before = old(self).state@;
                let entry = (actor, token.spec_ref());
                if before.timers.contains(entry) {
                    super::spec::runtime_sent(
                        StateView { timers: before.timers.remove(entry), ..before },
                        actor,
                        Envelope::Timer(TimerFired { token }),
                        "timer"@,
                        final(self).state@,
                    )
                } else {
                    final(self).state@ == before
                }
            }),
            !final(self).state@.timers.contains((actor, token.spec_ref())),
            old(self).state@.timers.contains((actor, token.spec_ref())) && old(self).state@.has(
                actor,
            ) ==> {
                let was = old(self).state@.actor(actor);
                let now = final(self).state@.actor(actor);
                if crate::local::step_laws::is_full(was.mailbox) {
                    &&& now.forced_exit is Some
                    &&& super::turn_laws::overflowed(now.forced_exit->0, actor, "timer"@)
                    &&& now.mailbox == was.mailbox
                } else {
                    &&& now.forced_exit == was.forced_exit
                    &&& crate::local::step_laws::has_got(
                        was.mailbox,
                        now.mailbox,
                        Envelope::Timer(TimerFired { token }),
                    )
                }
            },
    {
        if self.state.timers.remove(actor, token.as_ref()) {
            let ghost dropped = self.state@;
            let _found = self.enqueue_runtime_envelope(
                actor,
                Envelope::Timer(TimerFired { token }),
                "timer",
            );
            proof {
                if dropped.has(actor) {
                    super::turn_laws::lemma_what_an_envelope_of_the_runtime_does(
                        dropped,
                        actor,
                        Envelope::Timer(TimerFired { token }),
                        "timer"@,
                        self.state@,
                    );
                }
            }
        } else {
            assert(self.state@.timers =~= old(self).state@.timers);
        }
    }

    /// Sets the timeout of a call and tells whether the actor is live, that is whether the
    /// timeout counts.
    pub fn set_call_timeout(&mut self, actor: ActorId, reference: Ref) -> (set: bool)
        requires
            old(self).wf(),
        ensures
            final(self).wf(),
            final(self).same_setup(*old(self)),
            set == old(self).state@.has(actor),
            final(self).state@ == (if set {
                StateView {
                    calls: old(self).state@.calls.insert((actor, reference)),
                    ..old(self).state@
                }
            } else {
                old(self).state@
            }),
    {
        if self.state.actors.contains(actor) {
            self.state.calls.insert(actor, reference);
            true
        } else {
            false
        }
    }

    /// Lets the timeout of a call fire. One that a reply has cancelled does nothing.
    pub fn fire_call_timeout(&mut self, actor: ActorId, reference: Ref)
        requires
            old(self).wf(),
        ensures
            final(self).wf(),
            final(self).same_setup(*old(self)),
            ({
                let before = old(self).state@;
                let entry = (actor, reference);
                if before.calls.contains(entry) {
                    super::spec::runtime_sent(
                        StateView { calls: before.calls.remove(entry), ..before },
                        actor,
                        Envelope::CallTimeout(crate::envelope::CallTimedOut { reference }),
                        "call timeout"@,
                        final(self).state@,
                    )
                } else {
                    final(self).state@ == before
                }
            }),
            !final(self).state@.calls.contains((actor, reference)),
            old(self).state@.calls.contains((actor, reference)) && old(self).state@.has(actor)
                ==> {
                let was = old(self).state@.actor(actor);
                let now = final(self).state@.actor(actor);
                if crate::local::step_laws::is_full(was.mailbox) {
                    &&& now.forced_exit is Some
                    &&& super::turn_laws::overflowed(now.forced_exit->0, actor, "call timeout"@)
                    &&& now.mailbox == was.mailbox
                } else {
                    &&& now.forced_exit == was.forced_exit
                    &&& crate::local::step_laws::has_got(
                        was.mailbox,
                        now.mailbox,
                        Envelope::CallTimeout(crate::envelope::CallTimedOut { reference }),
                    )
                }
            },
    {
        if self.state.calls.remove(actor, reference) {
            let ghost dropped = self.state@;
            let _found = self.enqueue_runtime_envelope(
                actor,
                Envelope::call_timeout(reference),
                "call timeout",
            );
            proof {
                if dropped.has(actor) {
                    super::turn_laws::lemma_what_an_envelope_of_the_runtime_does(
                        dropped,
                        actor,
                        Envelope::CallTimeout(crate::envelope::CallTimedOut { reference }),
                        "call timeout"@,
                        self.state@,
                    );
                }
            }
        } else {
            assert(self.state@.calls =~= old(self).state@.calls);
        }
    }
}

} // verus!
