//! How actors of the multicore runtime end.

use std::time::Duration;

use vstd::prelude::*;

use crate::context::SendError;
use crate::envelope::{DownMessage, Envelope, ExitSignal};
use crate::internal::exit_signal::{classify_exit_signal, ExitDisposition};
use crate::internal::shutdown::{shutdown_link_reason, shutdown_signal, ShutdownMode, ShutdownTracker};
use crate::lifecycle::{LifecycleEvent, LifecycleView, ShutdownPhase};
use crate::types::{ActorId, ActorStatus, ExitReason, Ref, Shutdown};

use super::state::ConcurrentRuntime;

verus! {

impl ConcurrentRuntime {
    /// Sends an exit signal to an actor.
    pub fn propagate_link_exit(&mut self, target: ActorId, signal: ExitSignal)
        requires
            old(self).wf(),
        ensures
            final(self).wf(),
            final(self).same_setup(*old(self)),
            super::spec::signalled(old(self).state@, target, signal, final(self).state@),
            old(self).state@.has(target) ==> {
                let was = old(self).state@.actor(target);
                let now = final(self).state@.actor(target);
                if signal.reason is Kill || (signal.linked && !was.trap_exit && !(
                signal.reason is Normal)) {
                    now.forced_exit == Some(signal.reason) && now.mailbox == was.mailbox
                } else if signal.linked && !was.trap_exit {
                    now == was
                } else if crate::local::step_laws::is_full(was.mailbox) {
                    &&& now.forced_exit is Some
                    &&& super::turn_laws::overflowed(now.forced_exit->0, target, "exit"@)
                    &&& now.mailbox == was.mailbox
                } else {
                    &&& now.forced_exit == was.forced_exit
                    &&& crate::local::step_laws::has_got(
                        was.mailbox,
                        now.mailbox,
                        Envelope::Exit(signal),
                    )
                }
            },
    {
        let ghost felt = signal;
        let trap_exit = match self.state.actors.get(target) {
            Some(state) => state.trap_exit,
            None => {
                return ;
            },
        };
        match classify_exit_signal(trap_exit, &signal) {
            ExitDisposition::KillNow => {
                let _found = self.exit_actor(target, signal.reason);
            },
            ExitDisposition::Ignore => {},
            ExitDisposition::Enqueue => {
                let _found = self.enqueue_runtime_envelope(target, Envelope::Exit(signal), "exit");
            },
        }
        proof {
            super::turn_laws::lemma_what_an_exit_signal_does(
                old(self).state@,
                target,
                felt,
                self.state@,
            );
        }
    }

    /// Removes an actor and reports its end, before the others are told. Returns its monitors on
    /// others, its watchers, its links and whether its shutdown was requested.
    fn remove_actor(&mut self, actor: ActorId, reason: &ExitReason) -> (ties: Option<
        (Vec<(Ref, ActorId)>, Vec<(Ref, ActorId)>, Vec<ActorId>, bool),
    >)
        requires
            old(self).wf(),
        ensures
            final(self).wf(),
            final(self).same_setup(*old(self)),
            match ties {
                Some((monitoring, monitored_by, linked, shutdown)) => {
                    let entry = old(self).state@.actor(actor);
                    &&& old(self).state@.has(actor)
                    &&& final(self).state@ == super::spec::removed(
                        old(self).state@,
                        actor,
                        *reason,
                    )
                    &&& monitoring@ == crate::collections::ascending_pairs(entry.monitors_out)
                    &&& monitored_by@ == crate::collections::ascending_pairs(entry.monitors_in)
                    &&& linked@ == crate::collections::ascending(entry.links)
                    &&& shutdown == entry.shutdown is Some
                    &&& final(self).state@.live_actors == old(self).state@.live_actors - 1
                },
                None => !old(self).state@.has(actor) && final(self).state@ == old(self).state@,
            },
    {
        let mut entry = match self.state.actors.take(actor) {
            Some(entry) => entry,
            None => {
                return None;
            },
        };
        let ghost view = entry@;
        self.state.release(actor);
        let monitoring = entry.monitors_out.to_vec();
        let monitored_by = entry.monitors_in.to_vec();
        let linked = entry.links.to_vec();
        let shutdown = entry.shutdown;
        self.state.renounce(actor, entry.parent, entry.supervisor_child);
        self.state.record_shutdown_completed(actor, shutdown, reason);
        self.state.record_exit(&entry, reason);
        entry.shutdown = None;
        entry.status = ActorStatus::Dead;
        entry.metrics.last_exit = Some(reason.clone());
        entry.metrics.mailbox_len = 0;
        entry.metrics.scheduler_id = None;
        entry.registered_name = None;
        assert(entry@ == super::spec::closed(view, *reason));
        self.state.archive(&entry);
        proof {
            super::soundness::lemma_removal_is_counted(
                old(self).state@,
                self.config.max_actors,
                actor,
                *reason,
            );
        }
        Some((monitoring, monitored_by, linked, shutdown.is_some()))
    }

    /// Tells a watcher that an actor is gone.
    fn tell_watcher(
        &mut self,
        actor: ActorId,
        reason: &ExitReason,
        reference: Ref,
        watcher: ActorId,
    )
        requires
            old(self).wf(),
        ensures
            final(self).wf(),
            final(self).same_setup(*old(self)),
            super::spec::watcher_told(
                old(self).state@,
                actor,
                *reason,
                (reference, watcher),
                final(self).state@,
            ),
    {
        if watcher == actor {
            return ;
        }
        let _target = self.state.remove_watching(watcher, reference);
        self.state.record_lifecycle_event(
            LifecycleEvent::Down { watcher, actor, reference, reason: reason.clone() },
        );
        let _found = self.enqueue_runtime_envelope(
            watcher,
            Envelope::Down(DownMessage { reference, actor, reason: reason.clone() }),
            "down",
        );
    }

    /// Tells all watchers that an actor is gone.
    fn tell_watchers(
        &mut self,
        actor: ActorId,
        reason: &ExitReason,
        monitored_by: &Vec<(Ref, ActorId)>,
    )
        requires
            old(self).wf(),
        ensures
            final(self).wf(),
            final(self).same_setup(*old(self)),
            super::spec::watchers_told(
                old(self).state@,
                actor,
                *reason,
                monitored_by@,
                final(self).state@,
            ),
    {
        let mut at: usize = 0;
        while at < monitored_by.len()
            invariant
                at <= monitored_by@.len(),
                self.wf(),
                self.same_setup(*old(self)),
                super::spec::watchers_told(
                    old(self).state@,
                    actor,
                    *reason,
                    monitored_by@.take(at as int),
                    self.state@,
                ),
            decreases monitored_by@.len() - at,
        {
            let ghost middle = self.state@;
            let (reference, watcher) = monitored_by[at];
            self.tell_watcher(actor, reason, reference, watcher);
            proof {
                let told = monitored_by@.take(at + 1);
                assert(told.drop_last() =~= monitored_by@.take(at as int));
                assert(super::spec::watcher_told(
                    middle,
                    actor,
                    *reason,
                    told.last(),
                    self.state@,
                ));
            }
            at = at + 1;
        }
        assert(monitored_by@.take(at as int) =~= monitored_by@);
    }

    /// Tells a linked actor that an actor is gone.
    fn tell_linked(&mut self, actor: ActorId, reason: &ExitReason, other: ActorId)
        requires
            old(self).wf(),
        ensures
            final(self).wf(),
            final(self).same_setup(*old(self)),
            super::spec::linked_told(
                old(self).state@,
                actor,
                *reason,
                other,
                final(self).state@,
            ),
    {
        if other == actor {
            return ;
        }
        let _removed = self.state.remove_link(other, actor);
        self.propagate_link_exit(
            other,
            ExitSignal { from: actor, reason: reason.clone(), linked: true },
        );
    }

    /// Tells all linked actors that an actor is gone.
    fn tell_all_linked(&mut self, actor: ActorId, reason: &ExitReason, linked: &Vec<ActorId>)
        requires
            old(self).wf(),
        ensures
            final(self).wf(),
            final(self).same_setup(*old(self)),
            super::spec::all_linked_told(
                old(self).state@,
                actor,
                *reason,
                linked@,
                final(self).state@,
            ),
    {
        let mut at: usize = 0;
        while at < linked.len()
            invariant
                at <= linked@.len(),
                self.wf(),
                self.same_setup(*old(self)),
                super::spec::all_linked_told(
                    old(self).state@,
                    actor,
                    *reason,
                    linked@.take(at as int),
                    self.state@,
                ),
            decreases linked@.len() - at,
        {
            let ghost middle = self.state@;
            self.tell_linked(actor, reason, linked[at]);
            proof {
                let told = linked@.take(at + 1);
                assert(told.drop_last() =~= linked@.take(at as int));
                assert(super::spec::linked_told(
                    middle,
                    actor,
                    *reason,
                    told.last(),
                    self.state@,
                ));
            }
            at = at + 1;
        }
        assert(linked@.take(at as int) =~= linked@);
    }

    /// Ends an actor: reports its exit, drops its monitors, and tells its watchers and links.
    pub fn finalize_actor(&mut self, actor: ActorId, final_reason: ExitReason)
        requires
            old(self).wf(),
        ensures
            final(self).wf(),
            final(self).same_setup(*old(self)),
            super::spec::finalized(old(self).state@, actor, final_reason, final(self).state@),
            old(self).state@.has(actor) ==> final(self).state@.live_actors
                == old(self).state@.live_actors - 1,
    {
        match self.remove_actor(actor, &final_reason) {
            Some((monitoring, monitored_by, linked, shutdown)) => {
                self.state.remove_outgoing_monitors(actor, &monitoring);
                self.tell_watchers(actor, &final_reason, &monitored_by);
                let ghost told = self.state@;
                let linked_reason = shutdown_link_reason(shutdown, &final_reason);
                self.tell_all_linked(actor, &linked_reason, &linked);
                proof {
                    let entry = old(self).state@.actor(actor);
                    assert(super::spec::watchers_told(
                        super::spec::removed(
                            old(self).state@,
                            actor,
                            final_reason,
                        ).watches_dropped(
                            actor,
                            crate::collections::ascending_pairs(entry.monitors_out),
                        ),
                        actor,
                        final_reason,
                        crate::collections::ascending_pairs(entry.monitors_in),
                        told,
                    ));
                    super::soundness::lemma_exit_is_counted(
                        old(self).state@,
                        self.config.max_actors,
                        actor,
                        final_reason,
                        self.state@,
                    );
                }
            },
            None => {},
        }
    }

    /// Requests the shutdown of an actor. Returns how long to wait before the shutdown is
    /// enforced with [`ConcurrentRuntime::fire_shutdown_timeout`], if there is a limit.
    pub fn shutdown_actor(
        &mut self,
        requester: ActorId,
        actor: ActorId,
        policy: Shutdown,
    ) -> (outcome: Result<Option<Duration>, SendError>)
        requires
            old(self).wf(),
        ensures
            final(self).wf(),
            final(self).same_setup(*old(self)),
            !old(self).state@.has(actor) ==> outcome == Err::<Option<Duration>, SendError>(
                SendError::NoProc(actor),
            ) && final(self).state@ == old(self).state@,
            old(self).state@.has(actor) ==> {
                let requested = super::spec::shutdown_requested(
                    old(self).state@,
                    requester,
                    actor,
                    policy,
                );
                match ShutdownMode::of(policy) {
                    ShutdownMode::ForceKill => {
                        &&& outcome == Ok::<Option<Duration>, SendError>(None)
                        &&& final(self).state@ == super::spec::doomed(
                            requested,
                            actor,
                            ExitReason::Kill,
                        )
                    },
                    ShutdownMode::Linked { timeout } => {
                        &&& outcome == Ok::<Option<Duration>, SendError>(timeout)
                        &&& super::spec::signalled(
                            requested,
                            actor,
                            ExitSignal {
                                from: requester,
                                reason: ExitReason::Shutdown,
                                linked: true,
                            },
                            final(self).state@,
                        )
                    },
                }
            },
            old(self).state@.has(actor) ==> {
                let was = old(self).state@.actor(actor);
                let now = final(self).state@.actor(actor);
                &&& now.shutdown == Some(ShutdownTracker { requester, policy })
                &&& policy is BrutalKill ==> now.forced_exit == Some(ExitReason::Kill) && outcome
                    == Ok::<Option<Duration>, SendError>(None)
                &&& !(policy is BrutalKill) && !was.trap_exit ==> now.forced_exit == Some(
                    ExitReason::Shutdown,
                )
                &&& !(policy is BrutalKill) && was.trap_exit && !crate::local::step_laws::is_full(
                    was.mailbox,
                ) ==> crate::local::step_laws::has_got(
                    was.mailbox,
                    now.mailbox,
                    Envelope::Exit(
                        ExitSignal { from: requester, reason: ExitReason::Shutdown, linked: true },
                    ),
                ) && now.forced_exit == was.forced_exit
                &&& policy is Infinity ==> outcome == Ok::<Option<Duration>, SendError>(None)
                &&& policy matches Shutdown::Timeout(delay) ==> outcome == Ok::<
                    Option<Duration>,
                    SendError,
                >(Some(delay))
            },
    {
        let mut entry = match self.state.actors.take(actor) {
            Some(entry) => entry,
            None => {
                return Err(SendError::NoProc(actor));
            },
        };
        let ghost view = entry@;
        entry.shutdown = Some(ShutdownTracker::new(requester, policy));
        self.state.actors.put(entry);
        self.state.record_lifecycle_event(
            LifecycleEvent::Shutdown {
                requester,
                actor,
                policy,
                phase: ShutdownPhase::Requested,
                reason: None,
            },
        );
        proof {
            let requested = super::spec::shutdown_requested(
                old(self).state@,
                requester,
                actor,
                policy,
            );
            assert(self.state@.actors =~= requested.actors);
            assert(self.state@ == requested);
        }
        match ShutdownMode::from_policy(&policy) {
            ShutdownMode::ForceKill => {
                let _found = self.exit_actor(actor, ExitReason::Kill);
                Ok(None)
            },
            ShutdownMode::Linked { timeout } => {
                self.propagate_link_exit(actor, shutdown_signal(requester));
                Ok(timeout)
            },
        }
    }

    /// Enforces a shutdown that has taken too long. Nothing happens when none is requested.
    pub fn fire_shutdown_timeout(&mut self, actor: ActorId)
        requires
            old(self).wf(),
        ensures
            final(self).wf(),
            final(self).same_setup(*old(self)),
            final(self).state@ == (if old(self).state@.has(actor) && old(self).state@.actor(
                actor,
            ).shutdown is Some {
                let tracker = old(self).state@.actor(actor).shutdown->0;
                super::spec::doomed(
                    old(self).state@.logged(
                        LifecycleView::Shutdown {
                            requester: tracker.requester,
                            actor,
                            policy: tracker.policy,
                            phase: ShutdownPhase::TimedOut,
                            reason: Some(ExitReason::Kill),
                        },
                    ),
                    actor,
                    ExitReason::Kill,
                )
            } else {
                old(self).state@
            }),
            old(self).state@.has(actor) && old(self).state@.actor(actor).shutdown is Some ==> {
                let now = final(self).state@.actor(actor);
                &&& now.forced_exit == Some(ExitReason::Kill)
                &&& now.mailbox == old(self).state@.actor(actor).mailbox
                &&& final(self).state@.log.len() == old(self).state@.log.len() + 1
            },
    {
        let tracker = match self.state.actors.get(actor) {
            Some(entry) => match entry.shutdown {
                Some(tracker) => tracker,
                None => {
                    return ;
                },
            },
            None => {
                return ;
            },
        };
        self.state.record_lifecycle_event(
            LifecycleEvent::Shutdown {
                requester: tracker.requester,
                actor,
                policy: tracker.policy,
                phase: ShutdownPhase::TimedOut,
                reason: Some(ExitReason::Kill),
            },
        );
        let _found = self.exit_actor(actor, ExitReason::Kill);
    }
}

} // verus!
