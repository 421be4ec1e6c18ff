//! What an actor of the single-threaded runtime does while a hook of its runs.

use vstd::prelude::*;

use crate::context::{LinkError, MonitorError, SendError};
use crate::envelope::{DownMessage, Envelope, ExitSignal};
use crate::internal::error::mailbox_overflow_reason;
use crate::internal::exit_signal::{classify_exit_signal, ExitDisposition};
use crate::internal::id::ActorSlotAllocator;
use crate::internal::turn::TurnEffects;
use crate::runtime::actor_state::ActorView;
use crate::types::{ActorId, ExitReason, Ref};

use super::exits::ShutdownTicket;
use super::frame::FrameView;
use super::machine::LocalRuntime;
use super::spec::LocalView;

verus! {

/// Ids stay in order when the frame on top of the stack changes and the actors in their places
/// stay the same.
pub(crate) proof fn lemma_top_ids(
    ids: ActorSlotAllocator,
    before: LocalView,
    after: LocalView,
    frame: FrameView,
)
    requires
        super::machine::ids_ok(ids, before),
        before.stack.len() > 0,
        after.stack =~= before.stack.drop_last().push(frame),
        frame.actor.id == before.top().actor.id,
        frame.actor.wf(),
        forall|slot: u64| #[trigger]
            after.state.actors.contains_key(slot) ==> before.state.actors.contains_key(slot)
                && after.state.actors[slot].id == before.state.actors[slot].id,
    ensures
        super::machine::ids_ok(ids, after),
{
    assert forall|i: int| 0 <= i < after.stack.len() implies (#[trigger] after.stack[i]).actor.id
        == before.stack[i].actor.id && after.stack[i].actor.wf() by {
        assert(before.stack[i].actor.wf());
    }
    super::events::lemma_same_actors(ids, before, after);
}

impl LocalRuntime {
    /// Returns the id of the actor whose hook runs.
    pub fn actor_id(&self) -> (id: ActorId)
        requires
            self@.in_hook(),
        ensures
            id == self@.top().actor.id,
    {
        let top: usize = self.stack.len() - 1;
        self.stack[top].actor.id
    }

    /// Turns trapping of exits on or off for the current actor.
    pub fn set_trap_exit(&mut self, enabled: bool)
        requires
            old(self).wf(),
            old(self)@.in_hook(),
        ensures
            final(self).wf(),
            final(self).same_setup(*old(self)),
            final(self)@ == old(self)@.with_current(
                (ActorView { trap_exit: enabled, ..old(self)@.top().actor }),
            ),
    {
        let top: usize = self.stack.len() - 1;
        assert(self@.top() == self.stack@[top as int]@);
        self.stack[top].actor.trap_exit = enabled;
        proof {
            let after = old(self)@.with_current(
                (ActorView { trap_exit: enabled, ..old(self)@.top().actor }),
            );
            assert(self@.stack =~= after.stack);
            assert(old(self)@.stack[top as int].actor.wf());
            lemma_top_ids(self.ids, old(self)@, self@, after.top());
        }
    }

    /// Delivers an envelope to the current actor and tells whether there was room for it.
    fn push_to_self(&mut self, envelope: Envelope) -> (outcome: Result<(), SendError>)
        requires
            old(self).wf(),
            old(self)@.in_hook(),
        ensures
            final(self).wf(),
            final(self).same_setup(*old(self)),
            final(self)@ == old(self)@.self_sent(envelope),
            outcome == (if old(self)@.top().actor.mailbox.refuses(envelope) {
                Err(old(self)@.top().actor.full_error())
            } else {
                Ok(())
            }),
    {
        let top: usize = self.stack.len() - 1;
        assert(self@.top() == self.stack@[top as int]@);
        assert(self@.stack[top as int].actor.wf());
        let id = self.stack[top].actor.id;
        let outcome = self.stack[top].actor.push_envelope(envelope);
        let scheduled = match outcome {
            Ok(scheduled) => scheduled,
            Err(_) => false,
        };
        if scheduled {
            self.run_queue.push_back(id);
        }
        proof {
            let after = old(self)@.self_sent(envelope);
            assert(self@.stack =~= after.stack);
            assert(self@ == after);
            lemma_top_ids(self.ids, old(self)@, self@, after.top());
        }
        match outcome {
            Ok(_) => Ok(()),
            Err(error) => Err(error),
        }
    }

    /// Sends an envelope on behalf of the current actor.
    pub fn send_to(&mut self, to: ActorId, envelope: Envelope) -> (outcome: Result<(), SendError>)
        requires
            old(self).wf(),
            old(self)@.in_hook(),
        ensures
            final(self).wf(),
            final(self).same_setup(*old(self)),
            if to == old(self)@.top().actor.id {
                &&& final(self)@ == old(self)@.self_sent(envelope)
                &&& outcome == (if old(self)@.top().actor.mailbox.refuses(envelope) {
                    Err(old(self)@.top().actor.full_error())
                } else {
                    Ok(())
                })
            } else {
                &&& final(self)@ == old(self)@.sent(to, envelope)
                &&& outcome == super::spec::send_answer(old(self)@.state, to, envelope)
            },
    {
        if to == self.actor_id() {
            self.push_to_self(envelope)
        } else {
            self.send_envelope(to, envelope)
        }
    }

    /// Notes that the current actor asks to exit.
    pub fn exit(&mut self, reason: ExitReason)
        requires
            old(self).wf(),
            old(self)@.in_hook(),
        ensures
            final(self).wf(),
            final(self).same_setup(*old(self)),
            final(self)@ == old(self)@.exit_asked(reason),
    {
        let top: usize = self.stack.len() - 1;
        assert(self@.top() == self.stack@[top as int]@);
        self.stack[top].effects.exit_reason = Some(reason);
        proof {
            let after = old(self)@.exit_asked(reason);
            assert(self@.stack =~= after.stack);
            assert(old(self)@.stack[top as int].actor.wf());
            lemma_top_ids(self.ids, old(self)@, self@, after.top());
        }
    }

    /// Notes that the current actor gives up the scheduler after its turn.
    pub fn yield_now(&mut self)
        requires
            old(self).wf(),
            old(self)@.in_hook(),
        ensures
            final(self).wf(),
            final(self).same_setup(*old(self)),
            final(self)@ == old(self)@.with_top(
                (FrameView {
                    effects: (TurnEffects { yielded: true, ..old(self)@.top().effects }),
                    ..old(self)@.top()
                }),
            ),
    {
        let top: usize = self.stack.len() - 1;
        assert(self@.top() == self.stack@[top as int]@);
        self.stack[top].effects.yielded = true;
        proof {
            let after = old(self)@.with_top(
                (FrameView {
                    effects: (TurnEffects { yielded: true, ..old(self)@.top().effects }),
                    ..old(self)@.top()
                }),
            );
            assert(self@.stack =~= after.stack);
            assert(old(self)@.stack[top as int].actor.wf());
            lemma_top_ids(self.ids, old(self)@, self@, after.top());
        }
    }

    /// Delivers a runtime envelope to the current actor, which has to exit when its mailbox has
    /// no room for it.
    fn enqueue_self_runtime_envelope(&mut self, envelope: Envelope, label: &'static str)
        requires
            old(self).wf(),
            old(self)@.in_hook(),
        ensures
            final(self).wf(),
            final(self).same_setup(*old(self)),
            old(self)@.self_notified(envelope, label@, final(self)@),
    {
        let id = self.actor_id();
        match self.push_to_self(envelope) {
            Ok(()) => {},
            Err(_) => {
                let reason = mailbox_overflow_reason(id, label);
                assert(crate::internal::error::is_overflow(reason, id, label@));
                self.exit(reason);
            },
        }
    }

    /// Sends an exit signal to the current actor.
    fn signal_self(&mut self, signal: ExitSignal)
        requires
            old(self).wf(),
            old(self)@.in_hook(),
        ensures
            final(self).wf(),
            final(self).same_setup(*old(self)),
            old(self)@.self_signalled(signal, final(self)@),
    {
        let top: usize = self.stack.len() - 1;
        assert(self@.top() == self.stack@[top as int]@);
        match classify_exit_signal(self.stack[top].actor.trap_exit, &signal) {
            ExitDisposition::KillNow => {
                self.exit(signal.reason);
            },
            ExitDisposition::Ignore => {},
            ExitDisposition::Enqueue => {
                self.enqueue_self_runtime_envelope(Envelope::Exit(signal), "exit");
            },
        }
    }

    /// Tells whether an actor is on the stack.
    fn on_stack(&self, actor: ActorId) -> (found: bool)
        ensures
            found == on_stack(self@, actor),
    {
        let mut at: usize = 0;
        while at < self.stack.len()
            invariant
                at <= self.stack@.len(),
                forall|i: int| 0 <= i < at ==> (#[trigger] self@.stack[i]).actor.id != actor,
            decreases self.stack@.len() - at,
        {
            assert(self@.stack[at as int] == self.stack@[at as int]@);
            if self.stack[at].actor.id == actor {
                return true;
            }
            at = at + 1;
        }
        false
    }

    /// Ends a shutdown that the current actor has requested. When it was linked with the actor,
    /// which is gone by now, it gets the exit signal that the link stands for.
    pub fn shutdown_settled(&mut self, ticket: ShutdownTicket)
        requires
            old(self).wf(),
            old(self)@.in_hook(),
        ensures
            final(self).wf(),
            final(self).same_setup(*old(self)),
            if ticket.linked && !old(self)@.state.has(ticket.actor) && !on_stack(
                old(self)@,
                ticket.actor,
            ) {
                let current = old(self)@.top().actor;
                old(self)@.with_current(
                    (ActorView { links: current.links.remove(ticket.actor), ..current }),
                ).self_signalled(
                    ExitSignal {
                        from: ticket.actor,
                        reason: ExitReason::Shutdown,
                        linked: true,
                    },
                    final(self)@,
                )
            } else {
                final(self)@ == old(self)@
            },
    {
        if ticket.linked && !self.state.actors.contains(ticket.actor) && !self.on_stack(
            ticket.actor,
        ) {
            let top: usize = self.stack.len() - 1;
            assert(self@.top() == self.stack@[top as int]@);
            let _removed = self.stack[top].actor.links.remove(ticket.actor);
            proof {
                let current = old(self)@.top().actor;
                let after = old(self)@.with_current(
                    (ActorView { links: current.links.remove(ticket.actor), ..current }),
                );
                assert(self@.stack =~= after.stack);
                assert(self@ == after);
                assert(old(self)@.stack[top as int].actor.wf());
                lemma_top_ids(self.ids, old(self)@, self@, after.top());
            }
            self.signal_self(
                ExitSignal { from: ticket.actor, reason: ExitReason::Shutdown, linked: true },
            );
        }
    }

    /// Links the current actor with another one. Linking with itself does nothing.
    pub fn link(&mut self, other: ActorId) -> (outcome: Result<(), LinkError>)
        requires
            old(self).wf(),
            old(self)@.in_hook(),
        ensures
            final(self).wf(),
            final(self).same_setup(*old(self)),
            ({
                let before = old(self)@;
                let current = before.top().actor;
                &&& outcome == (if other == current.id {
                    Ok(())
                } else if !before.state.has(other) {
                    Err(LinkError::NoProc(other))
                } else if current.links.contains(other) {
                    Err(LinkError::AlreadyLinked(other))
                } else {
                    Ok(())
                })
                &&& final(self)@ == (if outcome is Ok && other != current.id {
                    before.linked(other)
                } else {
                    before
                })
            }),
    {
        let top: usize = self.stack.len() - 1;
        assert(self@.top() == self.stack@[top as int]@);
        let id = self.stack[top].actor.id;
        if other == id {
            return Ok(());
        }
        if !self.state.actors.contains(other) {
            return Err(LinkError::NoProc(other));
        }
        if self.stack[top].actor.links.contains(other) {
            return Err(LinkError::AlreadyLinked(other));
        }
        let _added = self.stack[top].actor.links.insert(other);
        let _mirrored = self.state.add_link(other, id);
        proof {
            let current = old(self)@.top().actor;
            let after = old(self)@.linked(other);
            assert(self@.stack =~= after.stack);
            assert(self@ == after);
            assert(old(self)@.stack[top as int].actor.wf());
            lemma_top_ids(self.ids, old(self)@, self@, after.top());
        }
        Ok(())
    }

    /// Unlinks the current actor from another one. Unlinking from itself does nothing.
    pub fn unlink(&mut self, other: ActorId) -> (outcome: Result<(), LinkError>)
        requires
            old(self).wf(),
            old(self)@.in_hook(),
        ensures
            final(self).wf(),
            final(self).same_setup(*old(self)),
            ({
                let before = old(self)@;
                let current = before.top().actor;
                &&& outcome == (if other == current.id {
                    Ok(())
                } else if !before.state.has(other) {
                    Err(LinkError::NoProc(other))
                } else if !current.links.contains(other) {
                    Err(LinkError::NotLinked(other))
                } else {
                    Ok(())
                })
                &&& final(self)@ == (if outcome is Ok && other != current.id {
                    before.unlinked(other)
                } else {
                    before
                })
            }),
    {
        let top: usize = self.stack.len() - 1;
        assert(self@.top() == self.stack@[top as int]@);
        let id = self.stack[top].actor.id;
        if other == id {
            return Ok(());
        }
        if !self.state.actors.contains(other) {
            return Err(LinkError::NoProc(other));
        }
        if !self.stack[top].actor.links.contains(other) {
            return Err(LinkError::NotLinked(other));
        }
        let _removed = self.stack[top].actor.links.remove(other);
        let _mirrored = self.state.remove_link(other, id);
        proof {
            let current = old(self)@.top().actor;
            let after = old(self)@.unlinked(other);
            assert(self@.stack =~= after.stack);
            assert(self@ == after);
            assert(old(self)@.stack[top as int].actor.wf());
            lemma_top_ids(self.ids, old(self)@, self@, after.top());
        }
        Ok(())
    }

    /// Makes the current actor monitor another one under a reference. Monitoring an actor that
    /// does not exist brings a notification at once.
    pub fn monitor(&mut self, other: ActorId, reference: Ref)
        requires
            old(self).wf(),
            old(self)@.in_hook(),
        ensures
            final(self).wf(),
            final(self).same_setup(*old(self)),
            ({
                let before = old(self)@;
                let current = before.top().actor;
                if other == current.id {
                    final(self)@ == before.with_current(
                        (ActorView {
                            monitors_in: current.monitors_in.insert(reference, other),
                            monitors_out: current.monitors_out.insert(reference, other),
                            ..current
                        }),
                    )
                } else if before.state.has(other) {
                    final(self)@ == before.with_current(
                        (ActorView {
                            monitors_out: current.monitors_out.insert(reference, other),
                            ..current
                        }),
                    ).with_state(before.state.watch_added(other, reference, current.id))
                } else {
                    before.self_notified(
                        Envelope::Down(
                            DownMessage { reference, actor: other, reason: ExitReason::NoProc },
                        ),
                        "down"@,
                        final(self)@,
                    )
                }
            }),
            other != old(self)@.top().actor.id && !old(self)@.state.has(other) ==> {
                let was = old(self)@.top().actor;
                if super::step_laws::is_full(was.mailbox) {
                    &&& final(self)@.top().effects.exit_reason is Some
                    &&& crate::concurrent::turn_laws::overflowed(
                        final(self)@.top().effects.exit_reason->0,
                        was.id,
                        "down"@,
                    )
                } else {
                    super::step_laws::has_got(
                        was.mailbox,
                        final(self)@.top().actor.mailbox,
                        Envelope::Down(
                            DownMessage { reference, actor: other, reason: ExitReason::NoProc },
                        ),
                    )
                }
            },
    {
        let top: usize = self.stack.len() - 1;
        assert(self@.top() == self.stack@[top as int]@);
        let id = self.stack[top].actor.id;
        if other == id {
            self.stack[top].actor.monitors_in.insert(reference, id);
            self.stack[top].actor.monitors_out.insert(reference, id);
            proof {
                let current = old(self)@.top().actor;
                let after = old(self)@.with_current(
                    (ActorView {
                        monitors_in: current.monitors_in.insert(reference, other),
                        monitors_out: current.monitors_out.insert(reference, other),
                        ..current
                    }),
                );
                assert(self@.stack =~= after.stack);
                assert(old(self)@.stack[top as int].actor.wf());
                lemma_top_ids(self.ids, old(self)@, self@, after.top());
            }
        } else if self.state.actors.contains(other) {
            self.stack[top].actor.monitors_out.insert(reference, other);
            self.state.add_watch(other, reference, id);
            proof {
                let current = old(self)@.top().actor;
                let after = old(self)@.with_current(
                    (ActorView {
                        monitors_out: current.monitors_out.insert(reference, other),
                        ..current
                    }),
                ).with_state(old(self)@.state.watch_added(other, reference, id));
                assert(self@.stack =~= after.stack);
                assert(self@ == after);
                assert(old(self)@.stack[top as int].actor.wf());
                lemma_top_ids(self.ids, old(self)@, self@, after.top());
            }
        } else {
            self.enqueue_self_runtime_envelope(
                Envelope::Down(
                    DownMessage { reference, actor: other, reason: ExitReason::NoProc },
                ),
                "down",
            );
            proof {
                super::step_laws::lemma_what_a_runtime_envelope_to_oneself_does(
                    old(self)@,
                    Envelope::Down(
                        DownMessage { reference, actor: other, reason: ExitReason::NoProc },
                    ),
                    "down"@,
                    self@,
                );
            }
        }
    }

    /// Ends a monitor of the current actor.
    pub fn demonitor(&mut self, reference: Ref) -> (outcome: Result<(), MonitorError>)
        requires
            old(self).wf(),
            old(self)@.in_hook(),
        ensures
            final(self).wf(),
            final(self).same_setup(*old(self)),
            ({
                let before = old(self)@;
                let current = before.top().actor;
                if !current.monitors_out.contains_key(reference) {
                    &&& outcome == Err::<(), MonitorError>(MonitorError::UnknownRef(reference))
                    &&& final(self)@ == before
                } else {
                    let target = current.monitors_out[reference];
                    let freed = ActorView {
                        monitors_out: current.monitors_out.remove(reference),
                        ..current
                    };
                    &&& outcome == Ok::<(), MonitorError>(())
                    &&& final(self)@ == (if target == current.id {
                        before.with_current(
                            (ActorView {
                                monitors_in: current.monitors_in.remove(reference),
                                ..freed
                            }),
                        )
                    } else {
                        before.with_current(freed).with_state(
                            before.state.watch_removed(target, reference),
                        )
                    })
                }
            }),
    {
        let top: usize = self.stack.len() - 1;
        assert(self@.top() == self.stack@[top as int]@);
        let id = self.stack[top].actor.id;
        match self.stack[top].actor.monitors_out.remove(reference) {
            Some(target) => {
                if target == id {
                    let _watcher = self.stack[top].actor.monitors_in.remove(reference);
                } else {
                    self.state.remove_watch(target, reference);
                }
                proof {
                    let current = old(self)@.top().actor;
                    let freed = ActorView {
                        monitors_out: current.monitors_out.remove(reference),
                        ..current
                    };
                    let after = if target == id {
                        old(self)@.with_current(
                            (ActorView {
                                monitors_in: current.monitors_in.remove(reference),
                                ..freed
                            }),
                        )
                    } else {
                        old(self)@.with_current(freed).with_state(
                            old(self)@.state.watch_removed(target, reference),
                        )
                    };
                    assert(self@.stack =~= after.stack);
                    assert(self@ == after);
                    assert(old(self)@.stack[top as int].actor.wf());
                    lemma_top_ids(self.ids, old(self)@, self@, after.top());
                }
                Ok(())
            },
            None => {
                proof {
                    let current = old(self)@.top().actor;
                    assert(current.monitors_out.remove(reference) =~= current.monitors_out);
                    assert(self@.stack =~= old(self)@.stack);
                }
                Err(MonitorError::UnknownRef(reference))
            },
        }
    }
}

/// Whether an actor is on the stack.
pub open spec fn on_stack(view: LocalView, actor: ActorId) -> bool {
    exists|i: int| 0 <= i < view.stack.len() && (#[trigger] view.stack[i]).actor.id == actor
}

} // verus!
