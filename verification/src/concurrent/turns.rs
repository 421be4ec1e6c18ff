//! The turns of an actor on the multicore runtime.

use vstd::prelude::*;

use crate::context::ReceiveTimeout;
use crate::envelope::Envelope;
use crate::internal::error::vanished_reason;
use crate::mailbox::{MailboxWatermark, QueuedEnvelope};
use crate::runtime::actor_state::ActorView;
use crate::runtime::state::StateView;
use crate::scheduler::{bump, SchedulerMetrics};
use crate::types::{ActorId, ActorMetrics, ActorStatus, ExitReason, TimerToken};

use super::state::ConcurrentRuntime;

verus! {

/// What a worker needs to know of an actor that starts to run.
#[derive(Debug, Clone, Copy, PartialEq, Eq)]
pub struct TurnStart {
    /// Human-readable actor name.
    pub name: &'static str,
    /// The scheduler that the actor is assigned to.
    pub scheduler_id: usize,
    /// Envelopes left in the mailbox.
    pub mailbox_len: usize,
}

/// What a worker does next with an actor.
#[derive(Debug, PartialEq, Eq)]
pub enum NextStep {
    /// The actor is gone.
    Gone,
    /// The actor has to exit.
    Exit(ExitReason),
    /// The actor selects an envelope.
    Select,
}

/// What a worker needs to know of an actor.
pub open spec fn start_of(actor: ActorView) -> TurnStart {
    TurnStart {
        name: actor.name,
        scheduler_id: actor.scheduler_id,
        mailbox_len: actor.mailbox.queue.len() as usize,
    }
}

/// The actor as one that runs on its scheduler.
pub open spec fn running(actor: ActorView) -> ActorView {
    ActorView { status: ActorStatus::Running, ..actor }.on_scheduler(Some(actor.scheduler_id))
}

/// The actor as one that leaves.
pub open spec fn leaving(actor: ActorView) -> ActorView {
    ActorView { status: ActorStatus::Exiting, ..actor }.on_scheduler(Some(actor.scheduler_id))
}

/// Whether an actor without an exit ahead waits or can run on.
pub open spec fn rest_status(actor: ActorView) -> ActorStatus {
    if actor.mailbox.queue.len() == 0 {
        ActorStatus::Waiting
    } else {
        ActorStatus::Runnable
    }
}

/// The actor once its initialization has succeeded.
pub open spec fn initialized(actor: ActorView, exiting: bool) -> ActorView {
    ActorView {
        initialized: true,
        has_claimed: false,
        status: if exiting {
            ActorStatus::Exiting
        } else {
            rest_status(actor)
        },
        ..actor
    }.on_scheduler(None)
}

/// The actor at the start of a turn.
pub open spec fn turning(actor: ActorView) -> ActorView {
    let counted = running(actor.counted());
    ActorView {
        metrics: (ActorMetrics {
            turns_run: crate::scheduler::bumped(counted.metrics.turns_run),
            ..counted.metrics
        }),
        ..counted
    }
}

/// The actor at the end of a turn that it survives.
pub open spec fn turned(actor: ActorView) -> ActorView {
    ActorView { status: rest_status(actor), has_claimed: false, ..actor }.counted().on_scheduler(
        None,
    )
}

/// The actor once it waits for an envelope.
pub open spec fn waiting(actor: ActorView) -> ActorView {
    ActorView { status: ActorStatus::Waiting, has_claimed: false, ..actor }.on_scheduler(
        None,
    ).counted()
}

/// Whether an actor has nothing to do.
pub open spec fn is_idle_actor(actor: ActorView) -> bool {
    actor.mailbox.queue.len() == 0 && (actor.status is Waiting || actor.status is Dead)
}

/// Whether no live actor has anything to do.
pub open spec fn all_idle(actors: Map<u64, ActorView>) -> bool {
    forall|id: ActorId| #[trigger]
        crate::runtime::table::has_actor(actors, id) ==> is_idle_actor(actors[id.local_id])
}

/// Whether a state follows from another one by a selective receive of an actor.
pub open spec fn received(
    before: StateView,
    actor: ActorId,
    answers: spec_fn(QueuedEnvelope, bool) -> bool,
    envelope: Option<Envelope>,
    after: StateView,
) -> bool {
    if before.has(actor) {
        &&& before.actor(actor).selected(answers, envelope, after.actor(actor))
        &&& after == before.with(after.actor(actor))
        &&& envelope is None ==> after == before
    } else {
        envelope is None && after == before
    }
}

/// Whether a state follows from another one by a selective receive of an actor with a timeout,
/// which is cancelled when another envelope than its firing wins.
pub open spec fn received_in_time(
    before: StateView,
    actor: ActorId,
    token: TimerToken,
    answers: spec_fn(QueuedEnvelope, bool) -> bool,
    envelope: Option<Envelope>,
    after: StateView,
) -> bool {
    exists|claimed: StateView| #[trigger]
        received(before, actor, answers, envelope, claimed) && after == (
        if crate::runtime::actor_state::beats_timeout(envelope, token) {
            claimed.timer_cancelled(actor, token)
        } else {
            claimed
        })
}

/// Tells whether an actor gives way after a turn, given the turns it has taken since it last did
/// so, and how many turns count from then on.
pub fn gives_way(turns_taken: u32, budget: u32, yielded: bool) -> (decision: (bool, u32))
    requires
        turns_taken < (if budget == 0 {
            1
        } else {
            budget
        }),
    ensures
        decision.0 == (yielded || turns_taken + 1 >= budget),
        decision.1 == (if decision.0 {
            0
        } else {
            turns_taken + 1
        }),
        decision.1 < (if budget == 0 {
            1
        } else {
            budget
        }),
{
    let taken: u32 = turns_taken + 1;
    let limit: u32 = if budget == 0 {
        1
    } else {
        budget
    };
    if yielded || taken >= limit {
        (true, 0)
    } else {
        (false, taken)
    }
}

impl ConcurrentRuntime {
    /// Starts to initialize an actor.
    pub fn begin_init(&mut self, actor: ActorId) -> (start: Result<TurnStart, ExitReason>)
        requires
            old(self).wf(),
        ensures
            final(self).wf(),
            final(self).same_setup(*old(self)),
            old(self).state@.has(actor) ==> {
                &&& start == Ok::<TurnStart, ExitReason>(start_of(old(self).state@.actor(actor)))
                &&& final(self).state@ == old(self).state@.with(
                    running(old(self).state@.actor(actor)),
                )
            },
            !old(self).state@.has(actor) ==> {
                &&& start matches Err(ExitReason::Error(text)) && text@
                    == crate::internal::error::vanished_text(actor)
                &&& final(self).state@ == old(self).state@
            },
    {
        match self.state.actors.take(actor) {
            Some(mut entry) => {
                entry.status = ActorStatus::Running;
                entry.metrics.scheduler_id = Some(entry.scheduler_id);
                let start = TurnStart {
                    name: entry.name,
                    scheduler_id: entry.scheduler_id,
                    mailbox_len: entry.mailbox.len(),
                };
                self.state.actors.put(entry);
                assert(self.state@.actors =~= old(self).state@.with(
                    running(old(self).state@.actor(actor)),
                ).actors);
                Ok(start)
            },
            None => Err(vanished_reason(actor)),
        }
    }

    /// Ends the initialization of an actor and returns the reason with which it has to exit, if
    /// there is one: the failure of its initialization, or what it asked for meanwhile.
    pub fn finish_init(
        &mut self,
        actor: ActorId,
        outcome: Result<(), ExitReason>,
        requested: Option<ExitReason>,
    ) -> (exit: Option<ExitReason>)
        requires
            old(self).wf(),
        ensures
            final(self).wf(),
            final(self).same_setup(*old(self)),
            match outcome {
                Ok(()) => {
                    &&& exit == requested
                    &&& final(self).state@ == (if old(self).state@.has(actor) {
                        old(self).state@.with(
                            initialized(old(self).state@.actor(actor), requested is Some),
                        )
                    } else {
                        old(self).state@
                    })
                },
                Err(reason) => exit == Some(reason) && final(self).state@ == old(self).state@,
            },
    {
        match outcome {
            Ok(()) => {
                if let Some(mut entry) = self.state.actors.take(actor) {
                    entry.initialized = true;
                    entry.has_claimed = false;
                    entry.metrics.scheduler_id = None;
                    entry.status = if requested.is_some() {
                        ActorStatus::Exiting
                    } else if entry.mailbox.is_empty() {
                        ActorStatus::Waiting
                    } else {
                        ActorStatus::Runnable
                    };
                    self.state.actors.put(entry);
                    assert(self.state@.actors =~= old(self).state@.with(
                        initialized(old(self).state@.actor(actor), requested is Some),
                    ).actors);
                }
                requested
            },
            Err(reason) => Some(reason),
        }
    }

    /// Decides what a worker does next with an actor: an exit that was forced comes first.
    pub fn next_step(&mut self, actor: ActorId) -> (step: NextStep)
        requires
            old(self).wf(),
        ensures
            final(self).wf(),
            final(self).same_setup(*old(self)),
            if !old(self).state@.has(actor) {
                step is Gone && final(self).state@ == old(self).state@
            } else {
                let entry = old(self).state@.actor(actor);
                match entry.forced_exit {
                    Some(reason) => {
                        &&& step == NextStep::Exit(reason)
                        &&& final(self).state@ == old(self).state@.with(
                            leaving(ActorView { forced_exit: None, ..entry }),
                        )
                    },
                    None => step is Select && final(self).state@ == old(self).state@,
                }
            },
    {
        match self.state.actors.take(actor) {
            Some(mut entry) => {
                let forced = entry.forced_exit;
                entry.forced_exit = None;
                match forced {
                    Some(reason) => {
                        entry.status = ActorStatus::Exiting;
                        entry.metrics.scheduler_id = Some(entry.scheduler_id);
                        self.state.actors.put(entry);
                        assert(self.state@.actors =~= old(self).state@.with(
                            leaving(
                                ActorView {
                                    forced_exit: None,
                                    ..old(self).state@.actor(actor)
                                },
                            ),
                        ).actors);
                        NextStep::Exit(reason)
                    },
                    None => {
                        self.state.actors.put(entry);
                        assert(self.state@.actors =~= old(self).state@.actors);
                        NextStep::Select
                    },
                }
            },
            None => NextStep::Gone,
        }
    }

    /// Returns a watermark that the envelopes of the future are at or after.
    pub fn mailbox_watermark(&self, actor: ActorId) -> (watermark: Option<MailboxWatermark>)
        ensures
            match watermark {
                Some(watermark) => self.state@.has(actor) && watermark.spec_sequence()
                    == self.state@.actor(actor).mailbox.next_sequence,
                None => !self.state@.has(actor),
            },
    {
        match self.state.actors.get(actor) {
            Some(entry) => Some(entry.mailbox.watermark()),
            None => None,
        }
    }

    /// Claims the oldest envelope of an actor, unless it has claimed the envelope of its turn.
    pub fn receive_next(&mut self, actor: ActorId) -> (envelope: Option<Envelope>)
        requires
            old(self).wf(),
        ensures
            final(self).wf(),
            final(self).same_setup(*old(self)),
            ({
                let before = old(self).state@;
                if before.has(actor) && !before.actor(actor).has_claimed && before.actor(
                    actor,
                ).mailbox.queue.len() > 0 {
                    &&& envelope == Some(before.actor(actor).mailbox.queue[0].envelope)
                    &&& final(self).state@ == before.with(before.actor(actor).claimed(0))
                } else {
                    envelope is None && final(self).state@ == before
                }
            }),
    {
        match self.state.actors.take(actor) {
            Some(mut entry) => {
                let ghost view = entry@;
                let envelope = entry.receive_next();
                self.state.actors.put(entry);
                proof {
                    if envelope is None {
                        assert(self.state@.actors =~= old(self).state@.actors);
                    } else {
                        assert(self.state@.actors =~= old(self).state@.with(
                            view.claimed(0),
                        ).actors);
                    }
                }
                envelope
            },
            None => None,
        }
    }

    /// Claims the first envelope of an actor that the predicate accepts, unless it has claimed the
    /// envelope of its turn. Control and failure traffic comes before everything else, whatever
    /// the predicate says.
    pub fn receive_selective<F>(&mut self, actor: ActorId, predicate: F) -> (envelope: Option<
        Envelope,
    >) where F: Fn(&Envelope) -> bool
        requires
            old(self).wf(),
            forall|envelope: &Envelope| #[trigger] predicate.requires((envelope,)),
        ensures
            final(self).wf(),
            final(self).same_setup(*old(self)),
            received(
                old(self).state@,
                actor,
                crate::runtime::actor_state::by_predicate(predicate),
                envelope,
                final(self).state@,
            ),
    {
        match self.state.actors.take(actor) {
            Some(mut entry) => {
                let envelope = entry.receive_selective(predicate);
                let ghost after = entry@;
                self.state.actors.put(entry);
                proof {
                    assert(self.state@.actors =~= old(self).state@.with(after).actors);
                    if envelope is None {
                        assert(self.state@.actors =~= old(self).state@.actors);
                    }
                }
                envelope
            },
            None => None,
        }
    }

    /// Claims the first envelope of an actor at or after the watermark that the predicate accepts,
    /// unless it has claimed the envelope of its turn. Control and failure traffic comes before
    /// everything else.
    pub fn receive_selective_after<F>(
        &mut self,
        actor: ActorId,
        watermark: MailboxWatermark,
        predicate: F,
    ) -> (envelope: Option<Envelope>) where F: Fn(&Envelope) -> bool
        requires
            old(self).wf(),
            forall|envelope: &Envelope| #[trigger] predicate.requires((envelope,)),
        ensures
            final(self).wf(),
            final(self).same_setup(*old(self)),
            received(
                old(self).state@,
                actor,
                crate::runtime::actor_state::by_predicate_after(predicate, watermark),
                envelope,
                final(self).state@,
            ),
    {
        match self.state.actors.take(actor) {
            Some(mut entry) => {
                let envelope = entry.receive_selective_after(watermark, predicate);
                let ghost after = entry@;
                self.state.actors.put(entry);
                proof {
                    assert(self.state@.actors =~= old(self).state@.with(after).actors);
                    if envelope is None {
                        assert(self.state@.actors =~= old(self).state@.actors);
                    }
                }
                envelope
            },
            None => None,
        }
    }

    /// Claims the first envelope of an actor that is the firing of the timeout or that the
    /// predicate accepts. The timeout is cancelled when another envelope than its firing wins.
    pub fn receive_selective_with_timeout<F>(
        &mut self,
        actor: ActorId,
        timeout: ReceiveTimeout,
        predicate: F,
    ) -> (envelope: Option<Envelope>) where F: Fn(&Envelope) -> bool
        requires
            old(self).wf(),
            forall|envelope: &Envelope| #[trigger] predicate.requires((envelope,)),
        ensures
            final(self).wf(),
            final(self).same_setup(*old(self)),
            received_in_time(
                old(self).state@,
                actor,
                timeout.spec_token(),
                crate::runtime::actor_state::by_firing_or_predicate(
                    timeout.spec_token(),
                    predicate,
                ),
                envelope,
                final(self).state@,
            ),
    {
        let ghost before = self.state@;
        let wanted = |envelope: &Envelope| -> (found: bool)
            ensures
                if envelope.is_firing_of(timeout.spec_token()) {
                    found
                } else {
                    crate::runtime::actor_state::may_answer(&predicate, envelope, found)
                },
            { timeout.matches(envelope) || predicate(envelope) };
        let envelope = self.receive_selective(actor, wanted);
        let ghost claimed = self.state@;
        proof {
            if before.has(actor) {
                crate::runtime::actor_state::lemma_wider_selection(
                    before.actor(actor),
                    crate::runtime::actor_state::by_predicate(wanted),
                    crate::runtime::actor_state::by_firing_or_predicate(
                        timeout.spec_token(),
                        predicate,
                    ),
                    envelope,
                    claimed.actor(actor),
                );
            }
            assert(received(
                before,
                actor,
                crate::runtime::actor_state::by_firing_or_predicate(
                    timeout.spec_token(),
                    predicate,
                ),
                envelope,
                claimed,
            ));
        }
        let beaten = match &envelope {
            Some(claimed) => !timeout.matches(claimed),
            None => false,
        };
        if beaten {
            let _cancelled = self.cancel_timer(actor, timeout.token());
        }
        envelope
    }

    /// Claims the next envelope of an actor, or the firing of the timeout. The timeout is
    /// cancelled when another envelope than its firing wins.
    pub fn receive_next_with_timeout(&mut self, actor: ActorId, timeout: ReceiveTimeout) -> (
    envelope: Option<Envelope>)
        requires
            old(self).wf(),
        ensures
            final(self).wf(),
            final(self).same_setup(*old(self)),
            received_in_time(
                old(self).state@,
                actor,
                timeout.spec_token(),
                crate::runtime::actor_state::of_everything(),
                envelope,
                final(self).state@,
            ),
    {
        let ghost before = self.state@;
        let any = |_envelope: &Envelope| -> (found: bool)
            ensures
                found,
            { true };
        let envelope = self.receive_selective_with_timeout(actor, timeout, any);
        proof {
            let narrow = crate::runtime::actor_state::by_firing_or_predicate(
                timeout.spec_token(),
                any,
            );
            let claimed = choose|claimed: StateView| #[trigger]
                received(before, actor, narrow, envelope, claimed) && self.state@ == (
                if crate::runtime::actor_state::beats_timeout(envelope, timeout.spec_token()) {
                    claimed.timer_cancelled(actor, timeout.spec_token())
                } else {
                    claimed
                });
            if before.has(actor) {
                crate::runtime::actor_state::lemma_wider_selection(
                    before.actor(actor),
                    narrow,
                    crate::runtime::actor_state::of_everything(),
                    envelope,
                    claimed.actor(actor),
                );
            }
            assert(received(
                before,
                actor,
                crate::runtime::actor_state::of_everything(),
                envelope,
                claimed,
            ));
        }
        envelope
    }

    /// Lets an actor wait that has selected no envelope, and tells whether it is live.
    pub fn wait_for_envelope(&mut self, actor: ActorId) -> (found: bool)
        requires
            old(self).wf(),
        ensures
            final(self).wf(),
            final(self).same_setup(*old(self)),
            found == old(self).state@.has(actor),
            final(self).state@ == (if found {
                old(self).state@.with(waiting(old(self).state@.actor(actor)))
            } else {
                old(self).state@
            }),
    {
        match self.state.actors.take(actor) {
            Some(mut entry) => {
                entry.status = ActorStatus::Waiting;
                entry.has_claimed = false;
                entry.metrics.scheduler_id = None;
                entry.count_mailbox();
                self.state.actors.put(entry);
                assert(self.state@.actors =~= old(self).state@.with(
                    waiting(old(self).state@.actor(actor)),
                ).actors);
                true
            },
            None => false,
        }
    }

    /// Parks an actor whose mailbox is empty.
    pub fn park(&mut self, actor: ActorId)
        requires
            old(self).wf(),
        ensures
            final(self).wf(),
            final(self).same_setup(*old(self)),
            final(self).state@ == (if old(self).state@.has(actor) && old(self).state@.actor(
                actor,
            ).mailbox.queue.len() == 0 {
                old(self).state@.with(
                    ActorView {
                        status: ActorStatus::Waiting,
                        ..old(self).state@.actor(actor)
                    }.on_scheduler(None),
                )
            } else {
                old(self).state@
            }),
    {
        if let Some(mut entry) = self.state.actors.take(actor) {
            let empty = entry.mailbox.is_empty();
            if empty {
                entry.status = ActorStatus::Waiting;
                entry.metrics.scheduler_id = None;
            }
            let ghost after = entry@;
            self.state.actors.put(entry);
            proof {
                if empty {
                    assert(self.state@.actors =~= old(self).state@.with(after).actors);
                } else {
                    assert(self.state@.actors =~= old(self).state@.actors);
                }
            }
        }
    }

    /// Starts a turn of an actor.
    pub fn begin_turn(&mut self, actor: ActorId) -> (start: Option<TurnStart>)
        requires
            old(self).wf(),
        ensures
            final(self).wf(),
            final(self).same_setup(*old(self)),
            old(self).state@.has(actor) ==> {
                let before = old(self).state@;
                &&& start == Some(start_of(before.actor(actor)))
                &&& final(self).state@ == (StateView {
                    metrics: (SchedulerMetrics {
                        normal_turns: crate::scheduler::bumped(before.metrics.normal_turns),
                        ..before.metrics
                    }),
                    ..before.with(turning(before.actor(actor)))
                })
            },
            !old(self).state@.has(actor) ==> start is None && final(self).state@ == old(
                self,
            ).state@,
    {
        match self.state.actors.take(actor) {
            Some(mut entry) => {
                entry.count_mailbox();
                entry.status = ActorStatus::Running;
                entry.metrics.scheduler_id = Some(entry.scheduler_id);
                entry.metrics.turns_run = bump(entry.metrics.turns_run);
                let start = TurnStart {
                    name: entry.name,
                    scheduler_id: entry.scheduler_id,
                    mailbox_len: entry.mailbox.len(),
                };
                self.state.actors.put(entry);
                self.state.metrics.normal_turns = bump(self.state.metrics.normal_turns);
                assert(self.state@.actors =~= old(self).state@.with(
                    turning(old(self).state@.actor(actor)),
                ).actors);
                Some(start)
            },
            None => None,
        }
    }

    /// Ends a turn that an actor survives.
    pub fn end_turn(&mut self, actor: ActorId)
        requires
            old(self).wf(),
        ensures
            final(self).wf(),
            final(self).same_setup(*old(self)),
            final(self).state@ == (if old(self).state@.has(actor) {
                old(self).state@.with(turned(old(self).state@.actor(actor)))
            } else {
                old(self).state@
            }),
    {
        if let Some(mut entry) = self.state.actors.take(actor) {
            entry.count_mailbox();
            entry.has_claimed = false;
            entry.metrics.scheduler_id = None;
            entry.status = if entry.mailbox.is_empty() {
                ActorStatus::Waiting
            } else {
                ActorStatus::Runnable
            };
            self.state.actors.put(entry);
            assert(self.state@.actors =~= old(self).state@.with(
                turned(old(self).state@.actor(actor)),
            ).actors);
        }
    }

    /// Starts the termination of an actor and returns its name, unless it is gone.
    pub fn begin_terminate(&mut self, actor: ActorId) -> (name: Option<&'static str>)
        requires
            old(self).wf(),
        ensures
            final(self).wf(),
            final(self).same_setup(*old(self)),
            old(self).state@.has(actor) ==> {
                &&& name == Some(old(self).state@.actor(actor).name)
                &&& final(self).state@ == old(self).state@.with(
                    leaving(old(self).state@.actor(actor)),
                )
            },
            !old(self).state@.has(actor) ==> name is None && final(self).state@ == old(self).state@,
    {
        match self.state.actors.take(actor) {
            Some(mut entry) => {
                entry.status = ActorStatus::Exiting;
                entry.metrics.scheduler_id = Some(entry.scheduler_id);
                let name = entry.name;
                self.state.actors.put(entry);
                assert(self.state@.actors =~= old(self).state@.with(
                    leaving(old(self).state@.actor(actor)),
                ).actors);
                Some(name)
            },
            None => None,
        }
    }

    /// Tells whether no live actor has anything to do.
    pub fn is_idle(&self) -> (idle: bool)
        requires
            self.wf(),
        ensures
            idle == all_idle(self.state@.actors),
    {
        let ids = self.state.actors.ids();
        let mut at: usize = 0;
        while at < ids.len()
            invariant
                at <= ids@.len(),
                crate::collections::lists(
                    ids@,
                    crate::runtime::table::live_ids(self.state@.actors),
                ),
                forall|i: int|
                    0 <= i < at ==> is_idle_actor(
                        self.state@.actors[(#[trigger] ids@[i]).local_id],
                    ),
            decreases ids@.len() - at,
        {
            let id = ids[at];
            assert(ids@.contains(id));
            assert(crate::runtime::table::live_ids(self.state@.actors).contains(id));
            if let Some(entry) = self.state.actors.get(id) {
                let idle = entry.mailbox.is_empty() && match entry.status {
                    ActorStatus::Waiting => true,
                    ActorStatus::Dead => true,
                    _ => false,
                };
                if !idle {
                    assert(crate::runtime::table::has_actor(self.state@.actors, id));
                    return false;
                }
            }
            at = at + 1;
        }
        proof {
            assert forall|id: ActorId| #[trigger]
                crate::runtime::table::has_actor(self.state@.actors, id) implies is_idle_actor(
                self.state@.actors[id.local_id],
            ) by {
                assert(crate::runtime::table::live_ids(self.state@.actors).contains(id));
                assert(ids@.contains(id));
                let i = choose|i: int| 0 <= i < ids@.len() && ids@[i] == id;
                assert(is_idle_actor(self.state@.actors[ids@[i].local_id]));
            }
        }
        true
    }
}

} // verus!
