//! What a runtime keeps for one live actor.

use vstd::prelude::*;

use crate::collections::{ActorSet, RefMap};
use crate::context::{SendError, SpawnOptions};
use crate::envelope::Envelope;
use crate::internal::config::actor_mailbox;
use crate::internal::shutdown::ShutdownTracker;
use crate::internal::supervisor_state::{SupervisorRuntimeState, SupervisorView};
use crate::lifecycle::copy_ids;
use crate::mailbox::{Mailbox, MailboxFull, MailboxView, MailboxWatermark, QueuedEnvelope};
use crate::scheduler::{bump, SchedulerConfig};
use crate::snapshot::{ActorSnapshot, SnapshotView};
use crate::time::Timestamp;
use crate::types::{
    ActorId, ActorIdentity, ActorMetrics, ActorStatus, ChildSpec, ExitReason, Ref, SupervisorFlags,
    TimerToken,
};

verus! {

/// What a runtime keeps for one live actor.
#[derive(Debug)]
pub struct ActorState {
    /// Runtime id of the actor.
    pub id: ActorId,
    /// Human-readable name of the actor.
    pub name: &'static str,
    /// Envelopes that wait for the actor.
    pub mailbox: Mailbox,
    /// Linked actors.
    pub links: ActorSet,
    /// Actors that monitor this one.
    pub monitors_in: RefMap,
    /// Actors that this one monitors.
    pub monitors_out: RefMap,
    /// Whether exit signals arrive as messages.
    pub trap_exit: bool,
    /// Lifecycle status.
    pub status: ActorStatus,
    /// Metrics.
    pub metrics: ActorMetrics,
    /// Parent in the supervision tree.
    pub parent: Option<ActorId>,
    /// Ancestors captured at spawn time.
    pub ancestors: Vec<ActorId>,
    /// Registered name.
    pub registered_name: Option<String>,
    /// The child id under which a supervisor runs the actor.
    pub supervisor_child: Option<&'static str>,
    /// What is known of the actor as a supervisor.
    pub supervisor: Option<SupervisorRuntimeState>,
    /// Whether the actor has been initialized.
    pub initialized: bool,
    /// Whether the actor is in the run queue.
    pub scheduled: bool,
    /// Whether the actor has claimed the envelope of its turn.
    pub has_claimed: bool,
    /// The reason with which the actor has to exit at its next turn.
    pub forced_exit: Option<ExitReason>,
    /// The shutdown that was requested.
    pub shutdown: Option<ShutdownTracker>,
    /// The scheduler that the actor is assigned to.
    pub scheduler_id: usize,
}

/// What a runtime keeps for one live actor, with mathematical collections.
pub struct ActorView {
    /// Runtime id of the actor.
    pub id: ActorId,
    /// Human-readable name of the actor.
    pub name: &'static str,
    /// Envelopes that wait for the actor.
    pub mailbox: MailboxView,
    /// Linked actors.
    pub links: Set<ActorId>,
    /// Actors that monitor this one.
    pub monitors_in: Map<Ref, ActorId>,
    /// Actors that this one monitors.
    pub monitors_out: Map<Ref, ActorId>,
    /// Whether exit signals arrive as messages.
    pub trap_exit: bool,
    /// Lifecycle status.
    pub status: ActorStatus,
    /// Metrics.
    pub metrics: ActorMetrics,
    /// Parent in the supervision tree.
    pub parent: Option<ActorId>,
    /// Ancestors captured at spawn time.
    pub ancestors: Seq<ActorId>,
    /// Registered name.
    pub registered_name: Option<String>,
    /// The child id under which a supervisor runs the actor.
    pub supervisor_child: Option<&'static str>,
    /// What is known of the actor as a supervisor.
    pub supervisor: Option<SupervisorView>,
    /// Whether the actor has been initialized.
    pub initialized: bool,
    /// Whether the actor is in the run queue.
    pub scheduled: bool,
    /// Whether the actor has claimed the envelope of its turn.
    pub has_claimed: bool,
    /// The reason with which the actor has to exit at its next turn.
    pub forced_exit: Option<ExitReason>,
    /// The shutdown that was requested.
    pub shutdown: Option<ShutdownTracker>,
    /// The scheduler that the actor is assigned to.
    pub scheduler_id: usize,
}

/// What is known of a supervisor, with mathematical collections.
pub open spec fn supervisor_view(supervisor: Option<SupervisorRuntimeState>) -> Option<
    SupervisorView,
> {
    match supervisor {
        Some(supervisor) => Some(supervisor@),
        None => None,
    }
}

/// Whether a predicate can give an answer for an envelope.
pub open spec fn may_answer<F: Fn(&Envelope) -> bool>(
    predicate: &F,
    envelope: &Envelope,
    answer: bool,
) -> bool {
    predicate.ensures((envelope,), answer)
}

/// The selection by a predicate.
pub open spec fn by_predicate<F: Fn(&Envelope) -> bool>(predicate: F) -> spec_fn(
    QueuedEnvelope,
    bool,
) -> bool {
    |entry: QueuedEnvelope, answer: bool| predicate.ensures((&entry.envelope,), answer)
}

/// The selection by a predicate of what is at or after a watermark.
pub open spec fn by_predicate_after<F: Fn(&Envelope) -> bool>(
    predicate: F,
    watermark: MailboxWatermark,
) -> spec_fn(QueuedEnvelope, bool) -> bool {
    |entry: QueuedEnvelope, answer: bool|
        if entry.sequence >= watermark.spec_sequence() {
            predicate.ensures((&entry.envelope,), answer)
        } else {
            !answer
        }
}

/// The selection of the firing of a timer, or of what a predicate accepts.
pub open spec fn by_firing_or_predicate<F: Fn(&Envelope) -> bool>(
    token: TimerToken,
    predicate: F,
) -> spec_fn(QueuedEnvelope, bool) -> bool {
    |entry: QueuedEnvelope, answer: bool|
        if entry.envelope.is_firing_of(token) {
            answer
        } else {
            predicate.ensures((&entry.envelope,), answer)
        }
}

/// The selection that takes everything.
pub open spec fn of_everything() -> spec_fn(QueuedEnvelope, bool) -> bool {
    |_entry: QueuedEnvelope, answer: bool| answer
}

/// Whether an envelope has ended a wait with a timeout before the timeout fired.
pub open spec fn beats_timeout(envelope: Option<Envelope>, token: TimerToken) -> bool {
    envelope matches Some(envelope) && !envelope.is_firing_of(token)
}

/// What a selection says, a wider one says too.
pub proof fn lemma_wider_selection(
    actor: ActorView,
    narrow: spec_fn(QueuedEnvelope, bool) -> bool,
    wide: spec_fn(QueuedEnvelope, bool) -> bool,
    envelope: Option<Envelope>,
    after: ActorView,
)
    requires
        actor.selected(narrow, envelope, after),
        forall|entry: QueuedEnvelope, answer: bool| #[trigger]
            narrow(entry, answer) ==> wide(entry, answer),
    ensures
        actor.selected(wide, envelope, after),
{
    let queue = actor.mailbox.queue;
    if !actor.has_claimed && crate::mailbox::reserved_place(queue) is None {
        match envelope {
            Some(envelope) => {
                let at = choose|at: int|
                    {
                        &&& 0 <= at < queue.len()
                        &&& envelope == (#[trigger] queue[at]).envelope
                        &&& narrow(queue[at], true)
                        &&& forall|i: int| 0 <= i < at ==> narrow(#[trigger] queue[i], false)
                        &&& after == actor.claimed(at)
                    };
                assert(queue[at].envelope == envelope);
                assert(wide(queue[at], true));
                assert forall|i: int| 0 <= i < at implies wide(#[trigger] queue[i], false) by {
                    assert(narrow(queue[i], false));
                }
            },
            None => {
                assert forall|i: int| 0 <= i < queue.len() implies wide(
                    #[trigger] queue[i],
                    false,
                ) by {
                    assert(narrow(queue[i], false));
                }
            },
        }
    }
}

impl View for ActorState {
    type V = ActorView;

    open spec fn view(&self) -> ActorView {
        ActorView {
            id: self.id,
            name: self.name,
            mailbox: self.mailbox.model(),
            links: self.links@,
            monitors_in: self.monitors_in@,
            monitors_out: self.monitors_out@,
            trap_exit: self.trap_exit,
            status: self.status,
            metrics: self.metrics,
            parent: self.parent,
            ancestors: self.ancestors@,
            registered_name: self.registered_name,
            supervisor_child: self.supervisor_child,
            supervisor: supervisor_view(self.supervisor),
            initialized: self.initialized,
            scheduled: self.scheduled,
            has_claimed: self.has_claimed,
            forced_exit: self.forced_exit,
            shutdown: self.shutdown,
            scheduler_id: self.scheduler_id,
        }
    }
}

impl ActorView {
    /// Whether the limits of the mailbox make sense and the ties are finite in number.
    pub open spec fn wf(self) -> bool {
        &&& self.mailbox.limits_ok()
        &&& self.links.finite()
        &&& self.monitors_in.dom().finite()
        &&& self.monitors_out.dom().finite()
    }

    /// A new actor.
    pub open spec fn fresh(
        id: ActorId,
        name: &'static str,
        options: SpawnOptions,
        config: SchedulerConfig,
        scheduler_id: usize,
    ) -> ActorView {
        let capacity = crate::internal::config::mailbox_capacity_for(
            config,
            options.mailbox_capacity,
        );
        ActorView {
            id,
            name,
            mailbox: MailboxView {
                queue: Seq::empty(),
                next_sequence: 0,
                capacity: crate::internal::config::at_least_one(capacity),
                reserve: crate::internal::config::capped_reserve(
                    config.mailbox_runtime_reserve,
                    capacity,
                ),
            },
            links: Set::empty(),
            monitors_in: Map::empty(),
            monitors_out: Map::empty(),
            trap_exit: options.trap_exit,
            status: ActorStatus::Starting,
            metrics: (ActorMetrics {
                mailbox_len: 0,
                turns_run: 0,
                restarts: 0,
                last_exit: None,
                scheduler_id: None,
            }),
            parent: options.parent,
            ancestors: options.ancestors@,
            registered_name: options.registered_name,
            supervisor_child: options.supervisor_child,
            supervisor: None,
            initialized: false,
            scheduled: false,
            has_claimed: false,
            forced_exit: None,
            shutdown: None,
            scheduler_id,
        }
    }

    /// The snapshot of the actor.
    pub open spec fn snapshot(self) -> SnapshotView {
        SnapshotView {
            id: self.id,
            name: self.name,
            registered_name: self.registered_name,
            parent: self.parent,
            ancestors: self.ancestors,
            links: crate::collections::ascending(self.links),
            monitors_in: crate::collections::ascending_pairs(self.monitors_in),
            monitors_out: crate::collections::ascending_pairs(self.monitors_out),
            trap_exit: self.trap_exit,
            status: self.status,
            metrics: self.metrics,
        }
    }

    /// The actor with the length of its mailbox in its metrics.
    pub open spec fn counted(self) -> ActorView {
        ActorView {
            metrics: (ActorMetrics {
                mailbox_len: self.mailbox.queue.len() as usize,
                ..self.metrics
            }),
            ..self
        }
    }

    /// The actor with the scheduler that it runs on in its metrics.
    pub open spec fn on_scheduler(self, scheduler_id: Option<usize>) -> ActorView {
        ActorView { metrics: (ActorMetrics { scheduler_id, ..self.metrics }), ..self }
    }

    /// Whether the actor is on its way out.
    pub open spec fn is_leaving(self) -> bool {
        self.status is Exiting || self.status is Dead
    }

    /// Whether the actor can be put into the run queue.
    pub open spec fn schedulable(self) -> bool {
        !self.scheduled && !self.is_leaving()
    }

    /// The actor once it is in the run queue, if it can be put there.
    pub open spec fn marked(self) -> ActorView {
        if self.schedulable() {
            ActorView {
                scheduled: true,
                status: if self.status is Starting {
                    ActorStatus::Starting
                } else {
                    ActorStatus::Runnable
                },
                ..self
            }
        } else {
            self
        }
    }

    /// The actor with nothing to do.
    pub open spec fn parked(self) -> ActorView {
        ActorView {
            status: ActorStatus::Waiting,
            scheduled: false,
            has_claimed: false,
            ..self
        }.on_scheduler(None).counted()
    }

    /// The actor with an envelope at the end of its mailbox.
    pub open spec fn holding(self, envelope: Envelope) -> ActorView {
        ActorView { mailbox: self.mailbox.pushed(envelope), ..self }.counted()
    }

    /// The actor after a delivery that puts it into the run queue.
    pub open spec fn pushed(self, envelope: Envelope) -> ActorView {
        if self.mailbox.refuses(envelope) {
            self.counted()
        } else {
            self.holding(envelope).marked()
        }
    }

    /// The actor after a delivery that wakes it.
    pub open spec fn delivered(self, envelope: Envelope) -> ActorView {
        if self.mailbox.refuses(envelope) {
            self.counted()
        } else {
            let actor = self.holding(envelope);
            if actor.status is Waiting {
                ActorView { status: ActorStatus::Runnable, ..actor }
            } else {
                actor
            }
        }
    }

    /// The answer to a delivery that fails.
    pub open spec fn full_error(self) -> SendError {
        SendError::MailboxFull { actor: self.id, capacity: self.mailbox.capacity }
    }

    /// The actor as a dead one.
    pub open spec fn buried(self, reason: ExitReason) -> ActorView {
        ActorView {
            links: Set::empty(),
            monitors_in: Map::empty(),
            monitors_out: Map::empty(),
            status: ActorStatus::Dead,
            metrics: (ActorMetrics {
                last_exit: Some(reason),
                mailbox_len: 0,
                scheduler_id: None,
                ..self.metrics
            }),
            scheduled: false,
            registered_name: None,
            ..self
        }
    }

    /// The actor as a supervisor with one child noted as running.
    pub open spec fn running_child(self, child: Seq<char>, actor: ActorId) -> ActorView {
        match self.supervisor {
            Some(supervisor) => ActorView {
                supervisor: Some(
                    SupervisorView {
                        running: supervisor.running.insert(child, actor),
                        ..supervisor
                    },
                ),
                ..self
            },
            None => self,
        }
    }

    /// The actor as a supervisor with one child noted as gone.
    pub open spec fn cleared_child(self, child: Seq<char>, actor: ActorId) -> ActorView {
        match self.supervisor {
            Some(supervisor) => ActorView {
                supervisor: Some(
                    SupervisorView {
                        running: crate::internal::supervisor_state::cleared(
                            supervisor.running,
                            child,
                            actor,
                        ),
                        ..supervisor
                    },
                ),
                ..self
            },
            None => self,
        }
    }

    /// The actor as a newly configured supervisor.
    pub open spec fn configured(
        self,
        flags: SupervisorFlags,
        child_specs: Seq<ChildSpec>,
    ) -> ActorView {
        ActorView {
            supervisor: Some(
                SupervisorView {
                    flags,
                    child_specs,
                    running: Map::empty(),
                    restarts: Seq::empty(),
                    window: flags,
                },
            ),
            ..self
        }
    }

    /// The restarts in the window once one more is recorded.
    pub open spec fn restarts_at(self, now: Timestamp) -> Seq<Timestamp> {
        match self.supervisor {
            Some(supervisor) => crate::supervisor::intensity::pruned(
                supervisor.restarts,
                now,
                supervisor.window.period,
            ).push(now),
            None => Seq::empty(),
        }
    }

    /// Whether one more restart is within limits; an actor that is no supervisor has none.
    pub open spec fn may_restart(self, now: Timestamp) -> bool {
        match self.supervisor {
            Some(supervisor) => self.restarts_at(now).len() <= supervisor.window.intensity,
            None => true,
        }
    }

    /// The actor with one more restart recorded, counted when it is within limits.
    pub open spec fn restarted(self, now: Timestamp) -> ActorView {
        ActorView {
            supervisor: match self.supervisor {
                Some(supervisor) => Some(
                    SupervisorView { restarts: self.restarts_at(now), ..supervisor },
                ),
                None => None,
            },
            metrics: if self.may_restart(now) {
                (ActorMetrics {
                    restarts: crate::scheduler::bumped(self.metrics.restarts),
                    ..self.metrics
                })
            } else {
                self.metrics
            },
            ..self
        }
    }

    /// The actor once an envelope is claimed from its mailbox.
    pub open spec fn claimed(self, at: int) -> ActorView {
        ActorView { mailbox: self.mailbox.without(at), has_claimed: true, ..self }
    }

    /// Whether an actor follows from this one by a selective receive, given which answers the
    /// selection gives for an entry of the mailbox. Nothing is claimed when the actor has claimed
    /// the envelope of its turn. Otherwise control and failure traffic comes before everything
    /// else, whatever the selection says.
    pub open spec fn selected(
        self,
        answers: spec_fn(QueuedEnvelope, bool) -> bool,
        envelope: Option<Envelope>,
        after: ActorView,
    ) -> bool {
        let queue = self.mailbox.queue;
        if self.has_claimed {
            envelope is None && after == self
        } else {
            match (crate::mailbox::reserved_place(queue), envelope) {
                (Some(at), Some(envelope)) => {
                    &&& envelope == queue[at].envelope
                    &&& after == self.claimed(at)
                },
                (Some(_), None) => false,
                (None, Some(envelope)) => exists|at: int|
                    {
                        &&& 0 <= at < queue.len()
                        &&& envelope == (#[trigger] queue[at]).envelope
                        &&& answers(queue[at], true)
                        &&& forall|i: int| 0 <= i < at ==> answers(#[trigger] queue[i], false)
                        &&& after == self.claimed(at)
                    },
                (None, None) => {
                    &&& after == self
                    &&& forall|i: int|
                        0 <= i < queue.len() ==> answers(#[trigger] queue[i], false)
                },
            }
        }
    }

    /// The actor once the queued firings of a timer are withdrawn, if there are any.
    pub open spec fn withdrawn(self, token: TimerToken) -> ActorView {
        if self.has_firing(token) {
            ActorView { mailbox: self.mailbox.silenced(token), ..self }.counted()
        } else {
            self
        }
    }

    /// Whether a queued firing of a timer waits to be received.
    pub open spec fn has_firing(self, token: TimerToken) -> bool {
        crate::mailbox::has_firing(self.mailbox.queue, token)
    }

    /// The identity of the actor.
    pub open spec fn identity(self) -> ActorIdentity {
        ActorIdentity { actor: self.id, name: self.name, registered_name: self.registered_name }
    }
}

impl ActorState {
    /// Creates the state of a new actor.
    pub fn new(
        id: ActorId,
        name: &'static str,
        options: SpawnOptions,
        config: &SchedulerConfig,
        scheduler_id: usize,
    ) -> (state: Self)
        ensures
            state@ == ActorView::fresh(id, name, options, *config, scheduler_id),
            state@.wf(),
    {
        let mailbox = actor_mailbox(config, options.mailbox_capacity);
        assert(mailbox@ =~= Seq::<QueuedEnvelope>::empty());
        ActorState {
            id,
            name,
            mailbox,
            links: ActorSet::new(),
            monitors_in: RefMap::new(),
            monitors_out: RefMap::new(),
            trap_exit: options.trap_exit,
            status: ActorStatus::Starting,
            metrics: ActorMetrics::default(),
            parent: options.parent,
            ancestors: options.ancestors,
            registered_name: options.registered_name,
            supervisor_child: options.supervisor_child,
            supervisor: None,
            initialized: false,
            scheduled: false,
            has_claimed: false,
            forced_exit: None,
            shutdown: None,
            scheduler_id,
        }
    }

    /// Takes a snapshot of the actor.
    pub fn snapshot(&self) -> (snapshot: ActorSnapshot)
        ensures
            snapshot@ == self@.snapshot(),
    {
        ActorSnapshot {
            id: self.id,
            name: self.name,
            registered_name: self.registered_name.clone(),
            parent: self.parent,
            ancestors: copy_ids(&self.ancestors),
            links: self.links.to_vec(),
            monitors_in: self.monitors_in.to_vec(),
            monitors_out: self.monitors_out.to_vec(),
            trap_exit: self.trap_exit,
            status: self.status,
            metrics: self.metrics.clone(),
        }
    }

    /// Returns the identity of the actor.
    pub fn identity(&self) -> (identity: ActorIdentity)
        ensures
            identity == self@.identity(),
    {
        ActorIdentity::new(self.id, self.name, self.registered_name.clone())
    }

    /// Notes the length of the mailbox in the metrics.
    pub fn count_mailbox(&mut self)
        ensures
            final(self)@ == old(self)@.counted(),
    {
        self.metrics.mailbox_len = self.mailbox.len();
    }

    /// Tells whether the actor is on its way out.
    pub fn leaving(&self) -> (leaving: bool)
        ensures
            leaving == self@.is_leaving(),
    {
        match self.status {
            ActorStatus::Exiting => true,
            ActorStatus::Dead => true,
            _ => false,
        }
    }

    /// Marks the actor as being in the run queue and tells whether it has to be put there.
    pub fn mark_scheduled(&mut self) -> (marked: bool)
        ensures
            marked == old(self)@.schedulable(),
            final(self)@ == old(self)@.marked(),
    {
        if self.scheduled || self.leaving() {
            return false;
        }
        self.scheduled = true;
        match self.status {
            ActorStatus::Starting => {},
            _ => {
                self.status = ActorStatus::Runnable;
            },
        }
        true
    }

    /// Leaves the actor with nothing to do.
    pub fn park(&mut self)
        ensures
            final(self)@ == old(self)@.parked(),
    {
        self.status = ActorStatus::Waiting;
        self.metrics.scheduler_id = None;
        self.count_mailbox();
        self.scheduled = false;
        self.has_claimed = false;
    }

    /// Delivers an envelope and tells whether the actor has to be put into the run queue.
    pub fn push_envelope(&mut self, envelope: Envelope) -> (outcome: Result<bool, SendError>)
        ensures
            final(self)@ == old(self)@.pushed(envelope),
            outcome == (if old(self)@.mailbox.refuses(envelope) {
                Err(old(self)@.full_error())
            } else {
                Ok(old(self)@.schedulable())
            }),
    {
        match self.mailbox.try_push(envelope) {
            Ok(()) => {
                self.count_mailbox();
                Ok(self.mark_scheduled())
            },
            Err(MailboxFull { capacity }) => {
                self.count_mailbox();
                Err(SendError::MailboxFull { actor: self.id, capacity })
            },
        }
    }

    /// Delivers an envelope and wakes the actor when it waits.
    pub fn deliver(&mut self, envelope: Envelope) -> (outcome: Result<(), SendError>)
        ensures
            final(self)@ == old(self)@.delivered(envelope),
            outcome == (if old(self)@.mailbox.refuses(envelope) {
                Err(old(self)@.full_error())
            } else {
                Ok(())
            }),
    {
        match self.mailbox.try_push(envelope) {
            Ok(()) => {
                self.count_mailbox();
                match self.status {
                    ActorStatus::Waiting => {
                        self.status = ActorStatus::Runnable;
                    },
                    _ => {},
                }
                Ok(())
            },
            Err(MailboxFull { capacity }) => {
                self.count_mailbox();
                Err(SendError::MailboxFull { actor: self.id, capacity })
            },
        }
    }

    /// Claims the oldest envelope, unless the actor has claimed the envelope of its turn.
    pub fn receive_next(&mut self) -> (envelope: Option<Envelope>)
        ensures
            match envelope {
                Some(envelope) => {
                    &&& !old(self)@.has_claimed
                    &&& old(self)@.mailbox.queue.len() > 0
                    &&& envelope == old(self)@.mailbox.queue[0].envelope
                    &&& final(self)@ == old(self)@.claimed(0)
                },
                None => {
                    &&& old(self)@.has_claimed || old(self)@.mailbox.queue.len() == 0
                    &&& final(self)@ == old(self)@
                },
            },
    {
        if self.has_claimed {
            return None;
        }
        let envelope = self.mailbox.pop_front();
        self.has_claimed = envelope.is_some();
        proof {
            if old(self)@.mailbox.queue.len() > 0 {
                assert(old(self)@.mailbox.queue.drop_first() =~= old(self)@.mailbox.queue.remove(0));
            }
        }
        envelope
    }

    /// Claims the first envelope that the predicate accepts, unless the actor has claimed the
    /// envelope of its turn. Control and failure traffic comes before everything else, whatever
    /// the predicate says.
    pub fn receive_selective<F>(&mut self, predicate: F) -> (envelope: Option<Envelope>) where
        F: Fn(&Envelope) -> bool,

        requires
            forall|envelope: &Envelope| #[trigger] predicate.requires((envelope,)),
        ensures
            old(self)@.selected(by_predicate(predicate), envelope, final(self)@),
    {
        if self.has_claimed {
            return None;
        }
        let envelope = match self.mailbox.receive_reserved() {
            Some(envelope) => Some(envelope),
            None => self.mailbox.selective_receive(predicate),
        };
        self.has_claimed = envelope.is_some();
        envelope
    }

    /// Claims the first envelope at or after the watermark that the predicate accepts, unless the
    /// actor has claimed the envelope of its turn. Control and failure traffic comes before
    /// everything else.
    pub fn receive_selective_after<F>(
        &mut self,
        watermark: MailboxWatermark,
        predicate: F,
    ) -> (envelope: Option<Envelope>) where F: Fn(&Envelope) -> bool
        requires
            forall|envelope: &Envelope| #[trigger] predicate.requires((envelope,)),
        ensures
            old(self)@.selected(by_predicate_after(predicate, watermark), envelope, final(self)@),
    {
        if self.has_claimed {
            return None;
        }
        let envelope = match self.mailbox.receive_reserved() {
            Some(envelope) => Some(envelope),
            None => self.mailbox.selective_receive_after(watermark, predicate),
        };
        self.has_claimed = envelope.is_some();
        envelope
    }

    /// Withdraws the queued firings of a timer and tells whether there were any.
    pub fn withdraw_timer(&mut self, token: TimerToken) -> (withdrawn: bool)
        ensures
            withdrawn == old(self)@.has_firing(token),
            final(self)@ == old(self)@.withdrawn(token),
    {
        let withdrawn = self.mailbox.withdraw_timer(token);
        if withdrawn {
            self.count_mailbox();
        } else {
            proof {
                crate::mailbox::lemma_nothing_to_withdraw(old(self)@.mailbox.queue, token);
            }
        }
        withdrawn
    }

    /// Turns the actor into a dead one.
    pub fn bury(&mut self, reason: &ExitReason)
        ensures
            final(self)@ == old(self)@.buried(*reason),
    {
        self.links.clear();
        self.monitors_in.clear();
        self.monitors_out.clear();
        self.status = ActorStatus::Dead;
        self.metrics.last_exit = Some(reason.clone());
        self.metrics.mailbox_len = 0;
        self.metrics.scheduler_id = None;
        self.scheduled = false;
        self.registered_name = None;
    }

    /// Notes that a child of this supervisor runs.
    pub fn child_started(&mut self, child_id: &'static str, actor: ActorId)
        ensures
            final(self)@ == old(self)@.running_child(child_id@, actor),
    {
        if let Some(supervisor) = &mut self.supervisor {
            supervisor.set_running(child_id, actor);
        }
    }

    /// Notes that a child of this supervisor is gone.
    pub fn child_exited(&mut self, child_id: &'static str, actor: ActorId)
        ensures
            final(self)@ == old(self)@.cleared_child(child_id@, actor),
    {
        if let Some(supervisor) = &mut self.supervisor {
            supervisor.clear_running(child_id, actor);
        }
    }

    /// Configures the actor as a supervisor.
    pub fn configure_supervisor(&mut self, flags: SupervisorFlags, child_specs: Vec<ChildSpec>)
        ensures
            final(self)@ == old(self)@.configured(flags, child_specs@),
    {
        self.supervisor = Some(SupervisorRuntimeState::new(flags, child_specs));
    }

    /// Records a restart and tells whether it is within limits.
    pub fn record_restart(&mut self, now: Timestamp) -> (allowed: bool)
        ensures
            allowed == old(self)@.may_restart(now),
            final(self)@ == old(self)@.restarted(now),
    {
        let allowed = match &mut self.supervisor {
            Some(supervisor) => supervisor.intensity.record_restart(now),
            None => true,
        };
        if allowed {
            self.metrics.restarts = bump(self.metrics.restarts);
        }
        allowed
    }
}

/// The options of an actor that another actor spawns: without a parent of its own the spawner is
/// the parent, and without ancestors of its own it descends from the spawner.
pub open spec fn adopted(
    spawner: ActorView,
    options: SpawnOptions,
    complete: SpawnOptions,
) -> bool {
    &&& complete == (SpawnOptions {
        parent: complete.parent,
        ancestors: complete.ancestors,
        ..options
    })
    &&& complete.parent == (if options.parent is None {
        Some(spawner.id)
    } else {
        options.parent
    })
    &&& complete.ancestors@ == (if options.ancestors@.len() == 0 {
        spawner.ancestors.push(spawner.id)
    } else {
        options.ancestors@
    })
}

/// Completes the options of an actor that another actor spawns.
pub(crate) fn adopt(spawner: &ActorState, options: SpawnOptions) -> (complete: SpawnOptions)
    ensures
        adopted(spawner@, options, complete),
{
    let parent = match options.parent {
        Some(parent) => Some(parent),
        None => Some(spawner.id),
    };
    let ancestors = if options.ancestors.len() == 0 {
        let mut ancestors = copy_ids(&spawner.ancestors);
        ancestors.push(spawner.id);
        ancestors
    } else {
        options.ancestors
    };
    SpawnOptions {
        registered_name: options.registered_name,
        mailbox_capacity: options.mailbox_capacity,
        link_to_parent: options.link_to_parent,
        trap_exit: options.trap_exit,
        parent,
        ancestors,
        supervisor_child: options.supervisor_child,
    }
}

} // verus!
