//! How actors of the single-threaded runtime end.

use std::time::Duration;

use vstd::prelude::*;

use crate::context::SendError;
use crate::envelope::{DownMessage, Envelope, ExitSignal};
use crate::internal::error::mailbox_overflow_reason;
use crate::internal::exit_signal::{classify_exit_signal, ExitDisposition};
use crate::internal::shutdown::{shutdown_link_reason, shutdown_signal, ShutdownMode, ShutdownTracker};
use crate::lifecycle::{LifecycleEvent, ShutdownPhase};
use crate::internal::turn::TurnEffects;
use crate::runtime::actor_state::{ActorState, ActorView};
use crate::types::{ActorId, ExitReason, Ref, Shutdown};

use super::frame::{reversed_ids, reversed_pairs, Frame, FrameView, Leaving, LeavingView, Stage, StageView};
use super::machine::LocalRuntime;
use super::spec::LocalView;

verus! {

/// What the driver has to do next.
#[derive(Debug, PartialEq, Eq)]
pub enum Step {
    /// Nothing: no actor is on the stack.
    Settled,
    /// Nothing: a hook of the actor on top of the stack runs.
    InHook,
    /// Run the termination hook of the actor on top of the stack, and report its end with
    /// [`LocalRuntime::terminate_finished`].
    Terminate {
        /// The actor.
        actor: ActorId,
        /// Its name.
        name: &'static str,
        /// The reason with which it exits.
        reason: ExitReason,
    },
    /// Go on: something was settled.
    Progress,
    /// Go on: an actor is gone.
    Finished(ActorId),
}

/// A shutdown that was requested by the current actor and has to be settled.
#[derive(Debug, Clone, Copy, PartialEq, Eq)]
pub struct ShutdownTicket {
    /// The actor that shuts down.
    pub actor: ActorId,
    /// Whether the current actor was linked with it.
    pub linked: bool,
    /// How long to wait before the shutdown is enforced with
    /// [`LocalRuntime::shutdown_timed_out`], if there is a limit.
    pub timeout: Option<Duration>,
}

impl LocalRuntime {
    /// Sends an exit signal to an actor in its place.
    pub(crate) fn propagate_link_exit(&mut self, target: ActorId, signal: ExitSignal)
        requires
            old(self).wf(),
        ensures
            final(self).wf(),
            final(self).same_setup(*old(self)),
            old(self)@.signalled(target, signal, final(self)@),
    {
        let trap_exit = match self.state.actors.get(target) {
            Some(entry) => entry.trap_exit,
            None => {
                return ;
            },
        };
        match classify_exit_signal(trap_exit, &signal) {
            ExitDisposition::KillNow => {
                let _found = self.exit_actor(target, signal.reason);
            },
            ExitDisposition::Ignore => {},
            ExitDisposition::Enqueue => {
                let _found = self.enqueue_runtime_envelope(target, Envelope::Exit(signal), "exit");
            },
        }
    }

    /// Requests the shutdown of an actor on behalf of the current one. The driver settles what
    /// follows, and then calls [`LocalRuntime::shutdown_settled`] with the ticket.
    pub fn request_shutdown(&mut self, actor: ActorId, policy: Shutdown) -> (outcome: Result<
        ShutdownTicket,
        SendError,
    >)
        requires
            old(self).wf(),
            old(self)@.in_hook(),
        ensures
            final(self).wf(),
            final(self).same_setup(*old(self)),
            ({
                let before = old(self)@;
                let requester = before.top().actor.id;
                if !before.state.has(actor) {
                    &&& outcome == Err::<ShutdownTicket, SendError>(SendError::NoProc(actor))
                    &&& final(self)@ == before
                } else {
                    let requested = before.shutdown_requested(requester, actor, policy);
                    &&& outcome matches Ok(ticket) && ticket.actor == actor && ticket.linked
                        == before.top().actor.links.contains(actor) && ticket.timeout == (
                    match ShutdownMode::of(policy) {
                        ShutdownMode::ForceKill => None,
                        ShutdownMode::Linked { timeout } => timeout,
                    })
                    &&& match ShutdownMode::of(policy) {
                        ShutdownMode::ForceKill => final(self)@ == requested.condemned(
                            actor,
                            ExitReason::Kill,
                        ),
                        ShutdownMode::Linked { .. } => requested.signalled(
                            actor,
                            ExitSignal {
                                from: requester,
                                reason: ExitReason::Shutdown,
                                linked: true,
                            },
                            final(self)@,
                        ),
                    }
                }
            }),
            old(self)@.state.has(actor) ==> {
                let was = old(self)@.state.actor(actor);
                let frame = final(self)@.stack.last();
                &&& policy is BrutalKill ==> frame.stage == StageView::Condemned(ExitReason::Kill)
                    && frame.actor.id == actor && !final(self)@.state.has(actor)
                &&& !(policy is BrutalKill) && !was.trap_exit ==> frame.stage
                    == StageView::Condemned(ExitReason::Shutdown) && frame.actor.id == actor
                    && !final(self)@.state.has(actor)
                &&& !(policy is BrutalKill) && was.trap_exit && !super::step_laws::is_full(
                    was.mailbox,
                ) ==> final(self)@.state.has(actor) && super::step_laws::has_got(
                    was.mailbox,
                    final(self)@.state.actor(actor).mailbox,
                    Envelope::Exit(
                        ExitSignal {
                            from: old(self)@.top().actor.id,
                            reason: ExitReason::Shutdown,
                            linked: true,
                        },
                    ),
                )
                &&& outcome matches Ok(ticket) ==> (policy matches Shutdown::Timeout(delay)
                    ==> ticket.timeout == Some(delay))
                &&& outcome matches Ok(ticket) ==> (!(policy is Timeout) ==> ticket.timeout is None)
            },
    {
        let top: usize = self.stack.len() - 1;
        let requester = self.stack[top].actor.id;
        let linked = self.stack[top].actor.links.contains(actor);
        assert(self@.top() == self.stack@[top as int]@);
        let mut entry = match self.state.actors.take(actor) {
            Some(entry) => entry,
            None => {
                return Err(SendError::NoProc(actor));
            },
        };
        entry.shutdown = Some(ShutdownTracker::new(requester, policy));
        self.state.actors.put(entry);
        self.state.record_lifecycle_event(
            LifecycleEvent::Shutdown {
                requester,
                actor,
                policy,
                phase: ShutdownPhase::Requested,
                reason: None,
            },
        );
        proof {
            let requested = old(self)@.shutdown_requested(requester, actor, policy);
            assert(self@.state.actors =~= requested.state.actors);
            assert(self@ == requested);
            super::events::lemma_same_actors(self.ids, old(self)@, self@);
        }
        match ShutdownMode::from_policy(&policy) {
            ShutdownMode::ForceKill => {
                let _found = self.exit_actor(actor, ExitReason::Kill);
                Ok(ShutdownTicket { actor, linked, timeout: None })
            },
            ShutdownMode::Linked { timeout } => {
                let ghost requested = self@;
                self.propagate_link_exit(actor, shutdown_signal(requester));
                proof {
                    super::step_laws::lemma_what_an_exit_signal_does(
                        requested,
                        actor,
                        ExitSignal { from: requester, reason: ExitReason::Shutdown, linked: true },
                        self@,
                    );
                }
                Ok(ShutdownTicket { actor, linked, timeout })
            },
        }
    }

    /// Reports that the termination hook of the actor on top of the stack is over, with the
    /// reason that a panic in the hook has brought about.
    pub fn terminate_finished(&mut self, panic: Option<ExitReason>)
        requires
            old(self).wf(),
            old(self)@.stack.len() > 0,
            old(self)@.top().stage is Terminating,
        ensures
            final(self).wf(),
            final(self).same_setup(*old(self)),
            final(self)@ == old(self)@.terminated(
                match panic {
                    Some(reason) => reason,
                    None => old(self)@.top().stage->Terminating_0,
                },
            ),
    {
        let ghost top = self.stack@.len() - 1;
        assert(self@.top() == self.stack@[top]@);
        let frame = match self.stack.pop() {
            Some(frame) => frame,
            None => {
                return ;
            },
        };
        let reason = match frame.stage {
            Stage::Terminating(reason) => match panic {
                Some(panic) => panic,
                None => reason,
            },
            _ => {
                ExitReason::Kill
            },
        };
        let actor = frame.actor;
        let ghost view = actor@;
        let id = actor.id;
        self.state.release(id);
        let watchers = reversed_pairs(&actor.monitors_in.to_vec());
        let links = reversed_ids(&actor.links.to_vec());
        let monitoring = actor.monitors_out.to_vec();
        let linked_reason = shutdown_link_reason(actor.shutdown.is_some(), &reason);
        self.state.renounce(id, actor.parent, actor.supervisor_child);
        self.state.remove_outgoing_monitors(id, &monitoring);
        self.stack.push(
            Frame {
                actor,
                effects: frame.effects,
                stage: Stage::Leaving(
                    Leaving { reason, linked_reason, owed: None, watchers, links },
                ),
            },
        );
        proof {
            let after = old(self)@.terminated(reason);
            assert(self@.stack =~= after.stack);
            assert(self@ == after);
            let released = old(self)@.state.released(view.id).renounced(view);
            lemma_dropping_keeps_ids(
                released,
                view.id,
                crate::collections::ascending_pairs(view.monitors_out),
            );
            assert forall|i: int| 0 <= i < self@.stack.len() implies (
            #[trigger] self@.stack[i]).actor.id == old(self)@.stack[i].actor.id
                && self@.stack[i].actor.wf() by {
                assert(old(self)@.stack[i].actor.wf());
            }
            super::events::lemma_same_actors(self.ids, old(self)@, self@);
        }
    }

    /// Takes one step towards an empty stack, or tells the driver which hook it has to run.
    pub fn step(&mut self) -> (step: Step)
        requires
            old(self).wf(),
        ensures
            final(self).wf(),
            final(self).config == old(self).config,
            old(self)@.stack.len() == 0 ==> step is Settled,
            old(self)@.in_hook() ==> step is InHook,
            old(self)@.stack.len() == 0 || old(self)@.in_hook() ==> final(self)@ == old(self)@,
            old(self)@.stack.len() > 0 ==> match old(self)@.top().stage {
                StageView::Condemned(reason) => {
                    &&& step == (Step::Terminate {
                        actor: old(self)@.top().actor.id,
                        name: old(self)@.top().actor.name,
                        reason,
                    })
                    &&& final(self)@ == old(self)@.with_top(
                        FrameView { stage: StageView::Terminating(reason), ..old(self)@.top() },
                    )
                    &&& final(self).ids == old(self).ids
                },
                StageView::Leaving(leaving) => {
                    let done = leaving.owed is None && leaving.watchers.len() == 0
                        && leaving.links.len() == 0;
                    &&& old(self)@.leave_step(leaving, final(self)@)
                    &&& step == (if done {
                        Step::Finished(old(self)@.top().actor.id)
                    } else {
                        Step::Progress
                    })
                    &&& if done {
                        &&& released_id(
                            old(self).ids,
                            final(self).ids,
                            old(self)@.top().actor.id,
                        )
                        &&& final(self)@.state.live_actors == old(self)@.state.live_actors - 1
                    } else {
                        final(self).ids == old(self).ids
                    }
                },
                _ => final(self).ids == old(self).ids,
            },
    {
        let ghost top = self.stack@.len() - 1;
        let frame = match self.stack.pop() {
            Some(frame) => frame,
            None => {
                return Step::Settled;
            },
        };
        proof {
            assert(old(self)@.top() == frame@);
            assert(old(self)@.stack[top] == frame@);
            assert(with_frame(self@, frame@).stack =~= old(self)@.stack);
            assert(with_frame(self@, frame@) == old(self)@);
        }
        match frame.stage {
            Stage::Condemned(reason) => {
                let actor = frame.actor.id;
                let name = frame.actor.name;
                self.stack.push(
                    Frame {
                        actor: frame.actor,
                        effects: frame.effects,
                        stage: Stage::Terminating(reason.clone()),
                    },
                );
                proof {
                    let after = old(self)@.with_top(
                        FrameView { stage: StageView::Terminating(reason), ..frame@ },
                    );
                    assert(self@.stack =~= after.stack);
                    assert forall|i: int| 0 <= i < self@.stack.len() implies (
                    #[trigger] self@.stack[i]).actor.id == old(self)@.stack[i].actor.id
                        && self@.stack[i].actor.wf() by {
                        assert(old(self)@.stack[i].actor.wf());
                    }
                    super::events::lemma_same_actors(self.ids, old(self)@, self@);
                }
                Step::Terminate { actor, name, reason }
            },
            Stage::Leaving(leaving) => self.leave(frame.actor, frame.effects, leaving),
            stage => {
                self.stack.push(Frame { actor: frame.actor, effects: frame.effects, stage });
                assert(self@.stack =~= old(self)@.stack);
                Step::InHook
            },
        }
    }

    /// Takes one step for an actor that leaves and that was taken from the top of the stack.
    fn leave(
        &mut self,
        actor: ActorState,
        effects: TurnEffects,
        leaving: Leaving,
    ) -> (step: Step)
        requires
            old(self).state.wf(),
            ({
                let whole = with_frame(
                    old(self)@,
                    FrameView { actor: actor@, effects, stage: StageView::Leaving(leaving@) },
                );
                &&& super::machine::ids_ok(old(self).ids, whole)
                &&& super::turn_laws::counted(whole, old(self).config.max_actors)
            }),
        ensures
            final(self).wf(),
            final(self).config == old(self).config,
            ({
                let whole = with_frame(
                    old(self)@,
                    FrameView { actor: actor@, effects, stage: StageView::Leaving(leaving@) },
                );
                let done = leaving@.owed is None && leaving@.watchers.len() == 0
                    && leaving@.links.len() == 0;
                &&& whole.leave_step(leaving@, final(self)@)
                &&& step == (if done {
                    Step::Finished(actor@.id)
                } else {
                    Step::Progress
                })
                &&& if done {
                    &&& released_id(old(self).ids, final(self).ids, actor@.id)
                    &&& final(self)@.state.live_actors == old(self)@.state.live_actors - 1
                } else {
                    final(self).ids == old(self).ids
                }
            }),
    {
        let ghost whole = with_frame(
            self@,
            FrameView { actor: actor@, effects, stage: StageView::Leaving(leaving@) },
        );
        proof {
            lemma_below_ids(self.ids, self@, whole.stack.last());
        }
        if leaving.owed.is_some() {
            self.report_owed(actor, effects, leaving);
            Step::Progress
        } else if leaving.watchers.len() > 0 {
            self.tell_watcher(actor, effects, leaving);
            Step::Progress
        } else if leaving.links.len() > 0 {
            self.tell_linked(actor, effects, leaving);
            Step::Progress
        } else {
            let id = actor.id;
            self.conclude(actor, effects, leaving);
            Step::Finished(id)
        }
    }

    /// Puts an actor that leaves back on top of the stack.
    fn put_back(&mut self, actor: ActorState, effects: TurnEffects, leaving: Leaving)
        requires
            old(self).state.wf(),
            super::machine::ids_ok(
                old(self).ids,
                with_frame(old(self)@, leaving_frame(actor@, effects, leaving@)),
            ),
            super::turn_laws::counted(
                with_frame(old(self)@, leaving_frame(actor@, effects, leaving@)),
                old(self).config.max_actors,
            ),
        ensures
            final(self).wf(),
            final(self).same_setup(*old(self)),
            final(self)@ == with_frame(old(self)@, leaving_frame(actor@, effects, leaving@)),
    {
        self.stack.push(Frame { actor, effects, stage: Stage::Leaving(leaving) });
        assert(self@.stack =~= with_frame(
            old(self)@,
            leaving_frame(actor@, effects, leaving@),
        ).stack);
    }

    /// Reports a notification that was sent.
    fn report_owed(&mut self, actor: ActorState, effects: TurnEffects, leaving: Leaving)
        requires
            old(self).sound(),
            super::machine::ids_ok(
                old(self).ids,
                with_frame(old(self)@, leaving_frame(actor@, effects, leaving@)),
            ),
            super::turn_laws::counted(
                with_frame(old(self)@, leaving_frame(actor@, effects, leaving@)),
                old(self).config.max_actors,
            ),
            leaving@.owed is Some,
        ensures
            final(self).wf(),
            final(self).same_setup(*old(self)),
            with_frame(old(self)@, leaving_frame(actor@, effects, leaving@)).leave_step(
                leaving@,
                final(self)@,
            ),
    {
        let mut leaving = leaving;
        let ghost todo = leaving@;
        let ghost whole = with_frame(self@, leaving_frame(actor@, effects, todo));
        if let Some((reference, watcher)) = leaving.owed {
            self.state.record_lifecycle_event(
                LifecycleEvent::Down {
                    watcher,
                    actor: actor.id,
                    reference,
                    reason: leaving.reason.clone(),
                },
            );
        }
        leaving.owed = None;
        proof {
            assert(leaving@ == (LeavingView { owed: None, ..todo }));
            lemma_frame_ids(
                self.ids,
                whole,
                self@,
                leaving_frame(actor@, effects, leaving@),
            );
        }
        self.put_back(actor, effects, leaving);
        proof {
            let after = whole.reported(todo.owed->0, todo.reason).left(
                LeavingView { owed: None, ..todo },
            );
            assert(self@.stack =~= after.stack);
        }
    }

    /// Tells the next watcher that the actor is gone.
    fn tell_watcher(&mut self, actor: ActorState, effects: TurnEffects, leaving: Leaving)
        requires
            old(self).sound(),
            super::machine::ids_ok(
                old(self).ids,
                with_frame(old(self)@, leaving_frame(actor@, effects, leaving@)),
            ),
            super::turn_laws::counted(
                with_frame(old(self)@, leaving_frame(actor@, effects, leaving@)),
                old(self).config.max_actors,
            ),
            leaving@.owed is None,
            leaving@.watchers.len() > 0,
        ensures
            final(self).wf(),
            final(self).same_setup(*old(self)),
            with_frame(old(self)@, leaving_frame(actor@, effects, leaving@)).leave_step(
                leaving@,
                final(self)@,
            ),
    {
        let mut leaving = leaving;
        let ghost todo = leaving@;
        let ghost whole = with_frame(self@, leaving_frame(actor@, effects, todo));
        let ghost listed = leaving.watchers@;
        let (reference, watcher) = match leaving.watchers.pop() {
            Some(watch) => watch,
            None => {
                return ;
            },
        };
        let ghost rest = LeavingView { watchers: todo.watchers.drop_first(), ..todo };
        proof {
            assert(todo.watchers[0] == listed.last());
            assert(leaving.watchers@ =~= listed.drop_last());
            assert(leaving@.watchers =~= todo.watchers.drop_first());
            assert(leaving@ == rest);
        }
        let id = actor.id;
        if watcher == id {
            proof {
                lemma_frame_ids(self.ids, whole, self@, leaving_frame(actor@, effects, rest));
            }
            self.put_back(actor, effects, leaving);
            assert(self@.stack =~= whole.left(rest).stack);
            return ;
        }
        let reason = leaving.reason.clone();
        let ghost down = Envelope::Down(DownMessage { reference, actor: id, reason });
        let ghost start = self@;
        let _target = self.state.remove_watching(watcher, reference);
        let ghost freed = self@;
        proof {
            super::events::lemma_same_actors(self.ids, start, freed);
        }
        let outcome = self.push_to(
            watcher,
            Envelope::Down(DownMessage { reference, actor: id, reason: reason.clone() }),
        );
        let ghost delivered = self@;
        proof {
            assert(delivered == freed.pushed(watcher, down));
            assert(whole.state.has(watcher) == freed.state.has(watcher));
            if whole.state.has(watcher) {
                assert(freed.state.actor(watcher).mailbox == whole.state.actor(watcher).mailbox);
            }
            lemma_pushed_keeps_ids(start, freed, delivered, watcher, down);
        }
        match outcome {
            Err(SendError::MailboxFull { .. }) => {
                leaving.owed = Some((reference, watcher));
                let ghost owing = LeavingView { owed: Some((reference, watcher)), ..rest };
                assert(leaving@ == owing);
                proof {
                    lemma_frame_ids(self.ids, whole, self@, leaving_frame(actor@, effects, owing));
                }
                self.put_back(actor, effects, leaving);
                let overflow = mailbox_overflow_reason(watcher, "down");
                let ghost settled = self@;
                let _found = self.exit_actor(watcher, overflow);
                proof {
                    let freed_whole = whole.with_state(
                        whole.state.watching_removed(watcher, reference),
                    );
                    let expected = freed_whole.pushed(watcher, down).left(owing);
                    assert(settled.stack =~= expected.stack);
                    assert(settled == expected);
                    assert(crate::internal::error::is_overflow(overflow, watcher, "down"@));
                }
            },
            _ => {
                self.state.record_lifecycle_event(
                    LifecycleEvent::Down { watcher, actor: id, reference, reason },
                );
                proof {
                    lemma_frame_ids(self.ids, whole, self@, leaving_frame(actor@, effects, rest));
                }
                self.put_back(actor, effects, leaving);
                proof {
                    let freed_whole = whole.with_state(
                        whole.state.watching_removed(watcher, reference),
                    );
                    let expected = freed_whole.pushed(watcher, down).reported(
                        (reference, watcher),
                        todo.reason,
                    ).left(rest);
                    assert(self@.stack =~= expected.stack);
                    assert(self@ == expected);
                }
            },
        }
    }

    /// Tells the next linked actor that the actor is gone.
    fn tell_linked(&mut self, actor: ActorState, effects: TurnEffects, leaving: Leaving)
        requires
            old(self).sound(),
            super::machine::ids_ok(
                old(self).ids,
                with_frame(old(self)@, leaving_frame(actor@, effects, leaving@)),
            ),
            super::turn_laws::counted(
                with_frame(old(self)@, leaving_frame(actor@, effects, leaving@)),
                old(self).config.max_actors,
            ),
            leaving@.owed is None,
            leaving@.watchers.len() == 0,
            leaving@.links.len() > 0,
        ensures
            final(self).wf(),
            final(self).same_setup(*old(self)),
            with_frame(old(self)@, leaving_frame(actor@, effects, leaving@)).leave_step(
                leaving@,
                final(self)@,
            ),
    {
        let mut leaving = leaving;
        let ghost todo = leaving@;
        let ghost whole = with_frame(self@, leaving_frame(actor@, effects, todo));
        let ghost listed = leaving.links@;
        let other = match leaving.links.pop() {
            Some(other) => other,
            None => {
                return ;
            },
        };
        let ghost rest = LeavingView { links: todo.links.drop_first(), ..todo };
        proof {
            assert(todo.links[0] == listed.last());
            assert(leaving.links@ =~= listed.drop_last());
            assert(leaving@.links =~= todo.links.drop_first());
            assert(leaving@ == rest);
        }
        let id = actor.id;
        let linked_reason = leaving.linked_reason.clone();
        proof {
            lemma_frame_ids(self.ids, whole, self@, leaving_frame(actor@, effects, rest));
        }
        self.put_back(actor, effects, leaving);
        assert(self@.stack =~= whole.left(rest).stack);
        assert(self@ == whole.left(rest));
        if other == id {
            return ;
        }
        let ghost start = self@;
        let _removed = self.state.remove_link(other, id);
        proof {
            super::events::lemma_same_actors(self.ids, start, self@);
        }
        self.propagate_link_exit(
            other,
            ExitSignal { from: id, reason: linked_reason, linked: true },
        );
    }

    /// Removes an actor of which nothing is left to do.
    fn conclude(&mut self, actor: ActorState, effects: TurnEffects, leaving: Leaving)
        requires
            old(self).sound(),
            super::machine::ids_ok(
                old(self).ids,
                with_frame(old(self)@, leaving_frame(actor@, effects, leaving@)),
            ),
            super::turn_laws::counted(
                with_frame(old(self)@, leaving_frame(actor@, effects, leaving@)),
                old(self).config.max_actors,
            ),
            leaving@.owed is None,
            leaving@.watchers.len() == 0,
            leaving@.links.len() == 0,
        ensures
            final(self).wf(),
            final(self).config == old(self).config,
            with_frame(old(self)@, leaving_frame(actor@, effects, leaving@)).leave_step(
                leaving@,
                final(self)@,
            ),
            released_id(old(self).ids, final(self).ids, actor@.id),
            final(self)@.state.live_actors == old(self)@.state.live_actors - 1,
    {
        let mut actor = actor;
        let ghost view = actor@;
        let ghost whole = with_frame(self@, leaving_frame(view, effects, leaving@));
        let id = actor.id;
        proof {
            assert(whole.stack.last().actor.id == id);
            assert(self.ids.live(id));
        }
        self.state.record_shutdown_completed(id, actor.shutdown, &leaving.reason);
        assert(self.state@ == old(self).state@.shut_down(view, leaving.reason));
        self.state.record_exit(&actor, &leaving.reason);
        actor.bury(&leaving.reason);
        self.state.archive(&actor);
        self.ids.release(id);
        proof {
            assert(whole.popped().stack =~= self@.stack);
            lemma_gone(old(self).ids, self.ids, whole, self@, id);
        }
    }
}

/// The frame of an actor that leaves.
pub open spec fn leaving_frame(
    actor: ActorView,
    effects: TurnEffects,
    leaving: LeavingView,
) -> FrameView {
    FrameView { actor, effects, stage: StageView::Leaving(leaving) }
}

/// Ids are in order below the top of a stack on which they are in order.
proof fn lemma_below_ids(
    ids: crate::internal::id::ActorSlotAllocator,
    below: LocalView,
    frame: FrameView,
)
    requires
        super::machine::ids_ok(ids, with_frame(below, frame)),
    ensures
        super::machine::ids_ok(ids, below),
{
    let whole = with_frame(below, frame);
    assert forall|i: int| 0 <= i < below.stack.len() implies {
        &&& ids.live((#[trigger] below.stack[i]).actor.id)
        &&& !below.state.actors.contains_key(below.stack[i].actor.id.local_id)
        &&& below.stack[i].actor.wf()
    } by {
        assert(whole.stack[i] == below.stack[i]);
    }
    assert forall|i: int, j: int| 0 <= i < j < below.stack.len() implies (
    #[trigger] below.stack[i]).actor.id != (#[trigger] below.stack[j]).actor.id by {
        assert(whole.stack[i].actor.id != whole.stack[j].actor.id);
    }
}

/// Ids are in order when the actor on top of a stack is put back.
proof fn lemma_frame_ids(
    ids: crate::internal::id::ActorSlotAllocator,
    whole: LocalView,
    below: LocalView,
    frame: FrameView,
)
    requires
        super::machine::ids_ok(ids, whole),
        whole.stack.len() > 0,
        below.stack =~= whole.stack.drop_last(),
        frame.actor == whole.stack.last().actor,
        forall|slot: u64| #[trigger]
            below.state.actors.contains_key(slot) ==> whole.state.actors.contains_key(slot)
                && below.state.actors[slot].id == whole.state.actors[slot].id,
    ensures
        super::machine::ids_ok(ids, with_frame(below, frame)),
{
    let after = with_frame(below, frame);
    assert forall|i: int| 0 <= i < after.stack.len() implies (#[trigger] after.stack[i]).actor.id
        == whole.stack[i].actor.id && after.stack[i].actor.wf() by {
        assert(whole.stack[i].actor.wf());
    }
    super::events::lemma_same_actors(ids, whole, after);
}

/// A delivery keeps every actor in its place.
proof fn lemma_pushed_keeps_ids(
    start: LocalView,
    freed: LocalView,
    delivered: LocalView,
    to: ActorId,
    envelope: Envelope,
)
    requires
        delivered == freed.pushed(to, envelope),
        forall|slot: u64| #[trigger]
            freed.state.actors.contains_key(slot) ==> start.state.actors.contains_key(slot)
                && freed.state.actors[slot].id == start.state.actors[slot].id,
    ensures
        delivered.stack == freed.stack,
        forall|slot: u64| #[trigger]
            delivered.state.actors.contains_key(slot) ==> start.state.actors.contains_key(slot)
                && delivered.state.actors[slot].id == start.state.actors[slot].id,
{
    assert forall|slot: u64| #[trigger] delivered.state.actors.contains_key(slot) implies
        start.state.actors.contains_key(slot) && delivered.state.actors[slot].id
        == start.state.actors[slot].id by {
        assert(freed.state.actors.contains_key(slot));
    }
}

/// Ids are in order once the actor on top of a stack is gone.
proof fn lemma_gone(
    before: crate::internal::id::ActorSlotAllocator,
    after: crate::internal::id::ActorSlotAllocator,
    whole: LocalView,
    left: LocalView,
    id: ActorId,
)
    requires
        super::machine::ids_ok(before, whole),
        crate::runtime::table::table_ok(whole.state.actors),
        whole.stack.len() > 0,
        whole.stack.last().actor.id == id,
        left.state.actors == whole.state.actors,
        left.stack =~= whole.stack.drop_last(),
        forall|other: ActorId| #[trigger] after.live(other) <==> before.live(other) && other != id,
    ensures
        super::machine::ids_ok(after, left),
{
    let top = whole.stack.len() - 1;
    assert(whole.stack[top].actor.id == id);
    assert forall|slot: u64| #[trigger] left.state.actors.contains_key(slot) implies after.live(
        left.state.actors[slot].id,
    ) by {
        assert(whole.state.actors.contains_key(slot));
        assert(!whole.state.actors.contains_key(whole.stack[top].actor.id.local_id));
    }
    assert forall|i: int| 0 <= i < left.stack.len() implies {
        &&& after.live((#[trigger] left.stack[i]).actor.id)
        &&& !left.state.actors.contains_key(left.stack[i].actor.id.local_id)
        &&& left.stack[i].actor.wf()
    } by {
        assert(left.stack[i] == whole.stack[i]);
        assert(whole.stack[i].actor.id != whole.stack[top].actor.id);
    }
    assert forall|i: int, j: int| 0 <= i < j < left.stack.len() implies (
    #[trigger] left.stack[i]).actor.id != (#[trigger] left.stack[j]).actor.id by {
        assert(whole.stack[i].actor.id != whole.stack[j].actor.id);
    }
}

/// The runtime with one more frame on the stack.
pub open spec fn with_frame(view: LocalView, frame: FrameView) -> LocalView {
    LocalView { stack: view.stack.push(frame), ..view }
}

/// Whether one id less is in use.
pub open spec fn released_id(
    before: crate::internal::id::ActorSlotAllocator,
    after: crate::internal::id::ActorSlotAllocator,
    id: ActorId,
) -> bool {
    &&& forall|other: ActorId| #[trigger] after.live(other) <==> before.live(other) && other != id
    &&& forall|other: ActorId| #[trigger]
        after.retired(other) <==> before.retired(other) || other == id
}

/// Dropping monitors keeps every actor in its place.
pub(crate) proof fn lemma_dropping_keeps_ids(
    state: crate::runtime::state::StateView,
    actor: ActorId,
    monitoring: Seq<(Ref, ActorId)>,
)
    ensures
        state.watches_dropped(actor, monitoring).actors.dom() == state.actors.dom(),
        forall|slot: u64| #[trigger]
            state.actors.contains_key(slot) ==> state.watches_dropped(
                actor,
                monitoring,
            ).actors[slot].id == state.actors[slot].id,
    decreases monitoring.len(),
{
    if monitoring.len() > 0 {
        lemma_dropping_keeps_ids(state, actor, monitoring.drop_last());
        let others = state.watches_dropped(actor, monitoring.drop_last());
        let (reference, target) = monitoring.last();
        let after = state.watches_dropped(actor, monitoring);
        assert(after.actors.dom() =~= others.actors.dom());
    } else {
        assert(state.watches_dropped(actor, monitoring) == state);
    }
}

} // verus!
