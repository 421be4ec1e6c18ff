//! What the operations of the single-threaded runtime do to its state.

use vstd::prelude::*;

use crate::context::SendError;
use crate::envelope::{DownMessage, Envelope, ExitSignal};
use crate::internal::exit_signal::ExitDisposition;
use crate::internal::turn::TurnEffects;
use crate::lifecycle::LifecycleView;
use crate::mailbox::QueuedEnvelope;
use crate::runtime::actor_state::ActorView;
use crate::runtime::state::StateView;
use crate::types::{ActorId, ActorStatus, ExitReason, Ref, Shutdown, TimerToken};

use super::frame::{FrameView, LeavingView, StageView};

verus! {

/// What the single-threaded runtime knows, which actors wait for a turn, and which are on the
/// stack.
pub struct LocalView {
    /// What the runtime knows.
    pub state: StateView,
    /// Actors that wait for a turn, the next one first.
    pub queue: Seq<ActorId>,
    /// Actors out of their place, the innermost one last.
    pub stack: Seq<FrameView>,
}

/// The actor as one whose hook runs on the only scheduler.
pub open spec fn at_work(actor: ActorView, status: ActorStatus) -> ActorView {
    ActorView { status, ..actor }.on_scheduler(Some(0))
}

impl LocalView {
    /// The actor on top of the stack.
    pub open spec fn top(self) -> FrameView {
        self.stack.last()
    }

    /// Whether a hook of the actor on top of the stack runs.
    pub open spec fn in_hook(self) -> bool {
        self.stack.len() > 0 && self.top().in_hook()
    }

    /// The runtime with another state.
    pub open spec fn with_state(self, state: StateView) -> LocalView {
        LocalView { state, ..self }
    }

    /// The runtime with the frame on top of the stack replaced.
    pub open spec fn with_top(self, frame: FrameView) -> LocalView {
        LocalView { stack: self.stack.drop_last().push(frame), ..self }
    }

    /// The runtime with the actor on top of the stack replaced.
    pub open spec fn with_current(self, actor: ActorView) -> LocalView {
        self.with_top(FrameView { actor, ..self.top() })
    }

    /// The runtime with the top of the stack put aside.
    pub open spec fn popped(self) -> LocalView {
        LocalView { stack: self.stack.drop_last(), ..self }
    }

    /// The runtime with an actor put into the run queue, if that is asked for.
    pub open spec fn queued(self, id: ActorId, wanted: bool) -> LocalView {
        if wanted {
            LocalView { queue: self.queue.push(id), ..self }
        } else {
            self
        }
    }

    /// The runtime after the delivery of an envelope to an actor in its place.
    pub open spec fn pushed(self, to: ActorId, envelope: Envelope) -> LocalView {
        if self.state.has(to) {
            let actor = self.state.actor(to);
            self.with_state(self.state.with(actor.pushed(envelope))).queued(
                to,
                !actor.mailbox.refuses(envelope) && actor.schedulable(),
            )
        } else {
            self
        }
    }

    /// The runtime after an envelope was sent to an actor in its place.
    pub open spec fn sent(self, to: ActorId, envelope: Envelope) -> LocalView {
        self.with_state(
            crate::concurrent::spec::call_settled(self.state, to, envelope),
        ).pushed(to, envelope)
    }

    /// The runtime once an actor in its place has to exit.
    pub open spec fn condemned(self, id: ActorId, reason: ExitReason) -> LocalView {
        if self.state.has(id) {
            LocalView {
                state: self.state.without(id),
                stack: self.stack.push(
                    FrameView {
                        actor: at_work(self.state.actor(id), ActorStatus::Exiting),
                        effects: TurnEffects::none(),
                        stage: StageView::Condemned(reason),
                    },
                ),
                ..self
            }
        } else {
            self
        }
    }

    /// Whether a runtime follows from this one by the delivery of a runtime envelope: an actor
    /// whose mailbox has no room for it has to exit.
    pub open spec fn runtime_sent(
        self,
        to: ActorId,
        envelope: Envelope,
        label: Seq<char>,
        after: LocalView,
    ) -> bool {
        if self.state.has(to) && self.state.actor(to).mailbox.refuses(envelope) {
            exists|reason: ExitReason| #[trigger]
                crate::internal::error::is_overflow(reason, to, label) && after == self.sent(
                    to,
                    envelope,
                ).condemned(to, reason)
        } else {
            after == self.sent(to, envelope)
        }
    }

    /// Whether a runtime follows from this one by an exit signal to an actor in its place.
    pub open spec fn signalled(
        self,
        target: ActorId,
        signal: ExitSignal,
        after: LocalView,
    ) -> bool {
        if !self.state.has(target) {
            after == self
        } else {
            match crate::internal::exit_signal::disposition(
                self.state.actor(target).trap_exit,
                signal,
            ) {
                ExitDisposition::KillNow => after == self.condemned(target, signal.reason),
                ExitDisposition::Ignore => after == self,
                ExitDisposition::Enqueue => self.runtime_sent(
                    target,
                    Envelope::Exit(signal),
                    "exit"@,
                    after,
                ),
            }
        }
    }

    /// The runtime once the current actor has put an envelope into its own mailbox.
    pub open spec fn self_sent(self, envelope: Envelope) -> LocalView {
        let actor = self.top().actor;
        self.with_current(actor.pushed(envelope)).queued(
            actor.id,
            !actor.mailbox.refuses(envelope) && actor.schedulable(),
        )
    }

    /// The runtime once the current actor has asked to exit.
    pub open spec fn exit_asked(self, reason: ExitReason) -> LocalView {
        self.with_top(
            FrameView {
                effects: (TurnEffects { exit_reason: Some(reason), ..self.top().effects }),
                ..self.top()
            },
        )
    }

    /// Whether a runtime follows from this one by a runtime envelope to the current actor, which
    /// has to exit when its mailbox has no room for it.
    pub open spec fn self_notified(
        self,
        envelope: Envelope,
        label: Seq<char>,
        after: LocalView,
    ) -> bool {
        let actor = self.top().actor;
        if actor.mailbox.refuses(envelope) {
            exists|reason: ExitReason| #[trigger]
                crate::internal::error::is_overflow(reason, actor.id, label) && after
                    == self.self_sent(envelope).exit_asked(reason)
        } else {
            after == self.self_sent(envelope)
        }
    }

    /// Whether a runtime follows from this one by an exit signal to the current actor.
    pub open spec fn self_signalled(self, signal: ExitSignal, after: LocalView) -> bool {
        match crate::internal::exit_signal::disposition(self.top().actor.trap_exit, signal) {
            ExitDisposition::KillNow => after == self.exit_asked(signal.reason),
            ExitDisposition::Ignore => after == self,
            ExitDisposition::Enqueue => self.self_notified(
                Envelope::Exit(signal),
                "exit"@,
                after,
            ),
        }
    }

    /// The runtime once the actor on top of the stack has to exit.
    pub open spec fn doomed(self, reason: ExitReason) -> LocalView {
        self.with_top(
            FrameView {
                actor: at_work(self.top().actor, ActorStatus::Exiting),
                effects: TurnEffects::none(),
                stage: StageView::Condemned(reason),
            },
        )
    }

    /// The runtime once the actor on top of the stack is back in its place: it waits when its
    /// mailbox is empty, and is put into the run queue otherwise.
    pub open spec fn returned(self) -> LocalView {
        let actor = self.top().actor.counted().on_scheduler(None);
        let placed = if actor.mailbox.queue.len() == 0 {
            actor.parked()
        } else {
            ActorView { status: ActorStatus::Runnable, has_claimed: false, ..actor }.marked()
        };
        LocalView {
            state: self.state.with(placed),
            stack: self.stack.drop_last(),
            ..self
        }.queued(actor.id, actor.mailbox.queue.len() > 0 && !actor.scheduled)
    }

    /// The runtime once the termination hook of the actor on top of the stack is over.
    pub open spec fn terminated(self, reason: ExitReason) -> LocalView {
        let actor = self.top().actor;
        LocalView {
            state: self.state.released(actor.id).renounced(actor).watches_dropped(
                actor.id,
                crate::collections::ascending_pairs(actor.monitors_out),
            ),
            ..self
        }.with_top(
            FrameView {
                stage: StageView::Leaving(
                    LeavingView {
                        reason,
                        linked_reason: crate::internal::shutdown::link_reason(
                            actor.shutdown is Some,
                            reason,
                        ),
                        owed: None,
                        watchers: crate::collections::ascending_pairs(actor.monitors_in),
                        links: crate::collections::ascending(actor.links),
                    },
                ),
                ..self.top()
            },
        )
    }

    /// The runtime with other things left to do for the actor on top of the stack.
    pub open spec fn left(self, leaving: LeavingView) -> LocalView {
        self.with_top(FrameView { stage: StageView::Leaving(leaving), ..self.top() })
    }

    /// The runtime once a notification is reported.
    pub open spec fn reported(self, watch: (Ref, ActorId), reason: ExitReason) -> LocalView {
        self.with_state(
            self.state.logged(
                LifecycleView::Down {
                    watcher: watch.1,
                    actor: self.top().actor.id,
                    reference: watch.0,
                    reason,
                },
            ),
        )
    }

    /// Whether a runtime follows from this one once the next watcher of the actor on top of the
    /// stack is told. A watcher whose mailbox has no room for it has to exit first, and the
    /// notification is reported afterwards.
    pub open spec fn watcher_told(self, leaving: LeavingView, after: LocalView) -> bool {
        let actor = self.top().actor.id;
        let (reference, watcher) = leaving.watchers[0];
        let rest = LeavingView { watchers: leaving.watchers.drop_first(), ..leaving };
        if watcher == actor {
            after == self.left(rest)
        } else {
            let down = Envelope::Down(
                DownMessage { reference, actor, reason: leaving.reason },
            );
            let freed = self.with_state(self.state.watching_removed(watcher, reference));
            if self.state.has(watcher) && self.state.actor(watcher).mailbox.refuses(down) {
                exists|reason: ExitReason| #[trigger]
                    crate::internal::error::is_overflow(reason, watcher, "down"@) && after
                        == freed.pushed(watcher, down).left(
                        LeavingView { owed: Some((reference, watcher)), ..rest },
                    ).condemned(watcher, reason)
            } else {
                after == freed.pushed(watcher, down).reported(
                    (reference, watcher),
                    leaving.reason,
                ).left(rest)
            }
        }
    }

    /// Whether a runtime follows from this one once the next linked actor of the actor on top of
    /// the stack is told.
    pub open spec fn linked_told(self, leaving: LeavingView, after: LocalView) -> bool {
        let actor = self.top().actor.id;
        let other = leaving.links[0];
        let rest = self.left(LeavingView { links: leaving.links.drop_first(), ..leaving });
        if other == actor {
            after == rest
        } else {
            rest.with_state(rest.state.link_removed(other, actor)).signalled(
                other,
                ExitSignal { from: actor, reason: leaving.linked_reason, linked: true },
                after,
            )
        }
    }

    /// The runtime once the actor on top of the stack is gone.
    pub open spec fn gone(self, leaving: LeavingView) -> LocalView {
        let actor = self.top().actor;
        self.popped().with_state(
            self.state.shut_down(actor, leaving.reason).exited(actor, leaving.reason).archived(
                actor.buried(leaving.reason),
            ),
        )
    }

    /// Whether a runtime follows from this one by one step of the actor on top of the stack,
    /// which leaves: a notification that is owed is reported first, then its watchers are told,
    /// then its links, and then it is gone.
    pub open spec fn leave_step(self, leaving: LeavingView, after: LocalView) -> bool {
        if leaving.owed is Some {
            after == self.reported(leaving.owed->0, leaving.reason).left(
                LeavingView { owed: None, ..leaving },
            )
        } else if leaving.watchers.len() > 0 {
            self.watcher_told(leaving, after)
        } else if leaving.links.len() > 0 {
            self.linked_told(leaving, after)
        } else {
            after == self.gone(leaving)
        }
    }

    /// The runtime once a timer of the current actor is cancelled: it does not fire, and firings
    /// that wait in the mailbox of the actor are withdrawn.
    pub open spec fn timer_cancelled(self, token: TimerToken) -> LocalView {
        let current = self.top().actor;
        self.with_current(current.withdrawn(token)).with_state(
            StateView {
                timers: self.state.timers.remove((current.id, token.spec_ref())),
                ..self.state
            },
        )
    }

    /// Whether a runtime follows from this one by a selective receive of the current actor.
    pub open spec fn received(
        self,
        answers: spec_fn(QueuedEnvelope, bool) -> bool,
        envelope: Option<Envelope>,
        after: LocalView,
    ) -> bool {
        &&& self.top().actor.selected(answers, envelope, after.top().actor)
        &&& after == self.with_current(after.top().actor)
        &&& envelope is None ==> after == self
    }

    /// Whether a runtime follows from this one by a selective receive of the current actor with a
    /// timeout, which is cancelled when another envelope than its firing wins.
    pub open spec fn received_in_time(
        self,
        token: TimerToken,
        answers: spec_fn(QueuedEnvelope, bool) -> bool,
        envelope: Option<Envelope>,
        after: LocalView,
    ) -> bool {
        exists|claimed: LocalView| #[trigger]
            self.received(answers, envelope, claimed) && after == (
            if crate::runtime::actor_state::beats_timeout(envelope, token) {
                claimed.timer_cancelled(token)
            } else {
                claimed
            })
    }

    /// The runtime once the current actor and one in its place are linked.
    pub open spec fn linked(self, other: ActorId) -> LocalView {
        let current = self.top().actor;
        self.with_current(
            ActorView { links: current.links.insert(other), ..current },
        ).with_state(self.state.link_added(other, current.id))
    }

    /// The runtime once the current actor and one in its place are no longer linked.
    pub open spec fn unlinked(self, other: ActorId) -> LocalView {
        let current = self.top().actor;
        self.with_current(
            ActorView { links: current.links.remove(other), ..current },
        ).with_state(self.state.link_removed(other, current.id))
    }

    /// The runtime once a shutdown is requested, before the actor hears of it.
    pub open spec fn shutdown_requested(
        self,
        requester: ActorId,
        actor: ActorId,
        policy: Shutdown,
    ) -> LocalView {
        self.with_state(
            crate::concurrent::spec::shutdown_requested(self.state, requester, actor, policy),
        )
    }
}

/// The answer to an envelope that was sent to an actor in its place.
pub open spec fn send_answer(state: StateView, to: ActorId, envelope: Envelope) -> Result<
    (),
    SendError,
> {
    crate::concurrent::spec::send_answer(state, to, envelope)
}

} // verus!
