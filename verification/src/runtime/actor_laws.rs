//! What the changes of a single actor come to.

use vstd::prelude::*;

use crate::context::{SendError, SpawnOptions};
use crate::envelope::Envelope;
use crate::mailbox::QueuedEnvelope;
use crate::runtime::actor_state::ActorView;
use crate::scheduler::SchedulerConfig;
use crate::time::Timestamp;
use crate::types::{ActorId, ChildSpec, ExitReason, Ref, SupervisorFlags, TimerToken};

verus! {

/// A new actor is who its options say, waits for its initialization and has nothing yet: no mail,
/// no ties, no exit ahead. Its mailbox holds as many envelopes as its options ask for, or as the
/// configuration says, and at least one; the reserve leaves room for one envelope of a user.
pub proof fn lemma_a_new_actor_starts_empty(
    id: ActorId,
    name: &'static str,
    options: SpawnOptions,
    config: SchedulerConfig,
    scheduler_id: usize,
)
    ensures
        ({
            let actor = ActorView::fresh(id, name, options, config, scheduler_id);
            let asked = if options.mailbox_capacity is Some {
                options.mailbox_capacity->0
            } else {
                config.default_mailbox_capacity
            };
            &&& actor.id == id
            &&& actor.name == name
            &&& actor.scheduler_id == scheduler_id
            &&& actor.parent == options.parent
            &&& actor.ancestors == options.ancestors@
            &&& actor.registered_name == options.registered_name
            &&& actor.supervisor_child == options.supervisor_child
            &&& actor.trap_exit == options.trap_exit
            &&& actor.status is Starting
            &&& !actor.initialized && !actor.scheduled && !actor.has_claimed
            &&& actor.forced_exit is None && actor.shutdown is None && actor.supervisor is None
            &&& actor.mailbox.queue.len() == 0
            &&& actor.links == Set::<ActorId>::empty()
            &&& actor.monitors_in == Map::<Ref, ActorId>::empty()
            &&& actor.monitors_out == Map::<Ref, ActorId>::empty()
            &&& actor.metrics.turns_run == 0 && actor.metrics.restarts == 0
            &&& actor.metrics.mailbox_len == 0 && actor.metrics.last_exit is None
            &&& actor.mailbox.capacity >= 1
            &&& asked > 0 ==> actor.mailbox.capacity == asked
            &&& actor.mailbox.reserve < actor.mailbox.capacity
            &&& config.mailbox_runtime_reserve < asked ==> actor.mailbox.reserve
                == config.mailbox_runtime_reserve
            &&& config.mailbox_runtime_reserve >= asked ==> actor.mailbox.reserve
                == actor.mailbox.capacity - 1
        }),
{
}

/// An actor that another one spawns descends from it: the spawner is its parent unless the options
/// name one, and the last of its ancestors behind those of the spawner unless the options list
/// some. Everything else is as the options say.
pub proof fn lemma_a_spawned_actor_descends_from_its_spawner(
    spawner: ActorView,
    options: SpawnOptions,
    complete: SpawnOptions,
)
    requires
        super::actor_state::adopted(spawner, options, complete),
    ensures
        options.parent is None ==> complete.parent == Some(spawner.id),
        options.parent is Some ==> complete.parent == options.parent,
        options.ancestors@.len() == 0 ==> complete.ancestors@.len() == spawner.ancestors.len() + 1
            && complete.ancestors@.last() == spawner.id && complete.ancestors@.drop_last()
            == spawner.ancestors,
        options.ancestors@.len() > 0 ==> complete.ancestors@ == options.ancestors@,
        complete.trap_exit == options.trap_exit,
        complete.link_to_parent == options.link_to_parent,
        complete.mailbox_capacity == options.mailbox_capacity,
        complete.registered_name == options.registered_name,
        complete.supervisor_child == options.supervisor_child,
{
    assert(spawner.ancestors.push(spawner.id).drop_last() =~= spawner.ancestors);
}

/// Whether nothing of an actor has changed but its mailbox, its metrics and its place in a run
/// queue.
pub open spec fn same_but_mail(before: ActorView, after: ActorView) -> bool {
    after == (ActorView {
        mailbox: after.mailbox,
        metrics: after.metrics,
        status: after.status,
        scheduled: after.scheduled,
        ..before
    })
}

/// A delivery puts the envelope at the end of the mailbox and counts it, or does nothing but count
/// when the mailbox refuses it. An actor that waits can run on afterwards.
pub proof fn lemma_a_delivery_ends_up_in_the_mailbox(actor: ActorView, envelope: Envelope)
    ensures
        forall|after: ActorView|
            after == actor.delivered(envelope) || after == actor.pushed(envelope) ==> {
                let queue = #[trigger] after.mailbox.queue;
                &&& same_but_mail(actor, after)
                &&& after.metrics.mailbox_len == queue.len() as usize
                &&& after.metrics.turns_run == actor.metrics.turns_run
                &&& after.metrics.restarts == actor.metrics.restarts
                &&& after.metrics.last_exit == actor.metrics.last_exit
                &&& after.mailbox.capacity == actor.mailbox.capacity
                &&& after.mailbox.reserve == actor.mailbox.reserve
                &&& if actor.mailbox.refuses(envelope) {
                    after.mailbox == actor.mailbox && after.status == actor.status
                        && after.scheduled == actor.scheduled
                } else {
                    &&& queue.len() == actor.mailbox.queue.len() + 1
                    &&& queue.drop_last() == actor.mailbox.queue
                    &&& queue.last().envelope == envelope
                    &&& queue.last().sequence == actor.mailbox.next_sequence
                    &&& actor.status is Waiting ==> after.status is Runnable || (
                    actor.scheduled && after.scheduled)
                }
            },
        !actor.mailbox.refuses(envelope) && actor.status is Waiting ==> actor.delivered(
            envelope,
        ).status is Runnable,
        !(actor.status is Waiting) ==> actor.delivered(envelope).status == actor.status,
        actor.delivered(envelope).scheduled == actor.scheduled,
        !actor.mailbox.refuses(envelope) && !(actor.status is Exiting) && !(actor.status is Dead)
            ==> actor.pushed(envelope).scheduled,
        actor.status is Exiting || actor.status is Dead ==> actor.pushed(envelope).scheduled
            == actor.scheduled && actor.pushed(envelope).status == actor.status,
        actor.status is Starting ==> actor.pushed(envelope).status is Starting,
        !actor.mailbox.refuses(envelope) && !actor.scheduled && (actor.status is Waiting
            || actor.status is Runnable || actor.status is Running) ==> actor.pushed(
            envelope,
        ).status is Runnable,
        actor.schedulable() <==> !actor.scheduled && !(actor.status is Exiting)
            && !(actor.status is Dead),
        actor.full_error() == (SendError::MailboxFull {
            actor: actor.id,
            capacity: actor.mailbox.capacity,
        }),
{
    assert(actor.mailbox.queue.push(
        QueuedEnvelope { sequence: actor.mailbox.next_sequence, envelope },
    ).drop_last() =~= actor.mailbox.queue);
}

/// An actor with nothing to do waits off its scheduler, out of the run queue and free to claim the
/// envelope of its next turn; nothing of its mail is lost.
pub proof fn lemma_a_parked_actor_waits(actor: ActorView)
    ensures
        actor.parked().status is Waiting,
        !actor.parked().scheduled,
        !actor.parked().has_claimed,
        actor.parked().mailbox == actor.mailbox,
        actor.parked().metrics.scheduler_id is None,
        actor.parked().metrics.mailbox_len == actor.mailbox.queue.len() as usize,
        actor.parked().metrics.turns_run == actor.metrics.turns_run,
        actor.parked() == (ActorView {
            metrics: actor.parked().metrics,
            status: actor.parked().status,
            scheduled: false,
            has_claimed: false,
            ..actor
        }),
{
}

/// What is kept of a dead actor: who it was, with what reason it ended, and no ties.
pub proof fn lemma_what_is_kept_of_a_dead_actor(actor: ActorView, reason: ExitReason)
    ensures
        ({
            let dead = actor.buried(reason);
            &&& dead.id == actor.id && dead.name == actor.name && dead.parent == actor.parent
            &&& dead.ancestors == actor.ancestors
            &&& dead.status is Dead
            &&& dead.metrics.last_exit == Some(reason)
            &&& dead.metrics.mailbox_len == 0
            &&& dead.metrics.scheduler_id is None
            &&& dead.metrics.turns_run == actor.metrics.turns_run
            &&& dead.metrics.restarts == actor.metrics.restarts
            &&& dead.registered_name is None
            &&& dead.links == Set::<ActorId>::empty()
            &&& dead.monitors_in == Map::<Ref, ActorId>::empty()
            &&& dead.monitors_out == Map::<Ref, ActorId>::empty()
        }),
        ({
            let dead = crate::concurrent::spec::closed(actor, reason);
            &&& dead.id == actor.id && dead.name == actor.name && dead.parent == actor.parent
            &&& dead.ancestors == actor.ancestors
            &&& dead.status is Dead
            &&& dead.metrics.last_exit == Some(reason)
            &&& dead.metrics.mailbox_len == 0
            &&& dead.metrics.scheduler_id is None
            &&& dead.metrics.turns_run == actor.metrics.turns_run
            &&& dead.metrics.restarts == actor.metrics.restarts
            &&& dead.registered_name is None
            &&& dead.shutdown is None
            &&& dead.links == actor.links
            &&& dead.monitors_in == actor.monitors_in
            &&& dead.monitors_out == actor.monitors_out
        }),
{
}

/// A snapshot shows an actor as it is: every field is that of the actor, and its ties are listed
/// completely and in order.
pub proof fn lemma_a_snapshot_shows_the_actor(actor: ActorView)
    requires
        actor.wf(),
    ensures
        ({
            let shown = actor.snapshot();
            &&& shown.id == actor.id && shown.name == actor.name
            &&& shown.registered_name == actor.registered_name
            &&& shown.parent == actor.parent && shown.ancestors == actor.ancestors
            &&& shown.trap_exit == actor.trap_exit
            &&& shown.status == actor.status
            &&& shown.metrics == actor.metrics
            &&& forall|id: ActorId| #[trigger]
                shown.links.contains(id) <==> actor.links.contains(id)
            &&& forall|reference: Ref, id: ActorId| #[trigger]
                shown.monitors_in.contains((reference, id)) <==> actor.monitors_in.contains_key(
                    reference,
                ) && actor.monitors_in[reference] == id
            &&& forall|reference: Ref, id: ActorId| #[trigger]
                shown.monitors_out.contains((reference, id)) <==> actor.monitors_out.contains_key(
                    reference,
                ) && actor.monitors_out[reference] == id
            &&& forall|i: int, j: int|
                0 <= i < j < shown.links.len() ==> (#[trigger] shown.links[i]).local_id < (
                #[trigger] shown.links[j]).local_id || (shown.links[i].local_id
                    == shown.links[j].local_id && shown.links[i].generation
                    < shown.links[j].generation)
        }),
        actor.identity().actor == actor.id,
        actor.identity().name == actor.name,
        actor.identity().registered_name == actor.registered_name,
{
    crate::collections::lemma_finite_set_is_listed(actor.links);
    crate::collections::lemma_finite_map_is_listed(actor.monitors_in);
    crate::collections::lemma_finite_map_is_listed(actor.monitors_out);
    let shown = actor.snapshot();
    assert forall|reference: Ref, id: ActorId| #[trigger]
        shown.monitors_in.contains((reference, id)) implies actor.monitors_in.contains_key(
        reference,
    ) && actor.monitors_in[reference] == id by {
        let i = choose|i: int|
            0 <= i < shown.monitors_in.len() && shown.monitors_in[i] == (reference, id);
        assert(actor.monitors_in.contains_key(shown.monitors_in[i].0));
    }
    assert forall|reference: Ref, id: ActorId| #[trigger]
        shown.monitors_out.contains((reference, id)) implies actor.monitors_out.contains_key(
        reference,
    ) && actor.monitors_out[reference] == id by {
        let i = choose|i: int|
            0 <= i < shown.monitors_out.len() && shown.monitors_out[i] == (reference, id);
        assert(actor.monitors_out.contains_key(shown.monitors_out[i].0));
    }
    assert forall|i: int, j: int| 0 <= i < j < shown.links.len() implies (
    #[trigger] shown.links[i]).local_id < (#[trigger] shown.links[j]).local_id || (
    shown.links[i].local_id == shown.links[j].local_id && shown.links[i].generation
        < shown.links[j].generation) by {
        assert(shown.links[i].precedes(shown.links[j]));
    }
}

/// A claim takes one envelope out of the mailbox, keeps the order of all the others, and is the
/// only one of the turn.
pub proof fn lemma_a_claim_takes_one_envelope(actor: ActorView, at: int)
    requires
        0 <= at < actor.mailbox.queue.len(),
    ensures
        ({
            let after = actor.claimed(at);
            &&& after.has_claimed
            &&& after.mailbox.queue == actor.mailbox.queue.take(at) + actor.mailbox.queue.skip(
                at + 1,
            )
            &&& after.mailbox.next_sequence == actor.mailbox.next_sequence
            &&& after.mailbox.capacity == actor.mailbox.capacity
            &&& after.mailbox.reserve == actor.mailbox.reserve
            &&& after == (ActorView { mailbox: after.mailbox, has_claimed: true, ..actor })
        }),
{
    assert(actor.mailbox.queue.remove(at) =~= actor.mailbox.queue.take(at)
        + actor.mailbox.queue.skip(at + 1));
}

/// Whether an envelope is a control message, an exit or a notification.
pub open spec fn urgent(envelope: Envelope) -> bool {
    envelope is System || envelope is Exit || envelope is Down
}

/// Where the first envelope that cannot be put off stands.
proof fn lemma_reserved_place(queue: Seq<QueuedEnvelope>)
    ensures
        match crate::mailbox::reserved_place(queue) {
            Some(at) => {
                &&& 0 <= at < queue.len()
                &&& queue[at].envelope is System || queue[at].envelope is Exit
                    || queue[at].envelope is Down
                &&& forall|i: int|
                    0 <= i < at ==> !((#[trigger] queue[i]).envelope is System)
                        && !(queue[i].envelope is Exit) && !(queue[i].envelope is Down)
            },
            None => forall|i: int|
                0 <= i < queue.len() ==> !((#[trigger] queue[i]).envelope is System)
                    && !(queue[i].envelope is Exit) && !(queue[i].envelope is Down),
        },
    decreases queue.len(),
{
    if queue.len() > 0 {
        lemma_reserved_place(queue.drop_last());
        let front = queue.drop_last();
        assert forall|i: int| 0 <= i < queue.len() - 1 implies #[trigger] queue[i] == front[i] by {}
    }
}

/// What a selective receive gives: the oldest control message, exit or notification, if there is
/// any, whatever the selection says; otherwise the oldest envelope that the selection takes; and
/// nothing when it takes none. An envelope that the selection passes over stays where it is.
pub proof fn lemma_what_a_selective_receive_gives(
    actor: ActorView,
    answers: spec_fn(QueuedEnvelope, bool) -> bool,
    envelope: Option<Envelope>,
    after: ActorView,
)
    requires
        actor.selected(answers, envelope, after),
        !actor.has_claimed,
    ensures
        ({
            let queue = actor.mailbox.queue;
            match envelope {
                Some(envelope) => exists|at: int|
                    {
                        &&& 0 <= at < queue.len()
                        &&& envelope == (#[trigger] queue[at]).envelope
                        &&& after.mailbox.queue == queue.remove(at)
                        &&& after.has_claimed
                        &&& urgent(queue[at].envelope) || answers(queue[at], true)
                        &&& forall|i: int| 0 <= i < at ==> !urgent((#[trigger] queue[i]).envelope)
                        &&& urgent(queue[at].envelope) || forall|i: int|
                            0 <= i < queue.len() ==> !urgent((#[trigger] queue[i]).envelope)
                        &&& urgent(queue[at].envelope) || forall|i: int|
                            0 <= i < at ==> answers(#[trigger] queue[i], false)
                    },
                None => {
                    &&& after == actor
                    &&& forall|i: int|
                        0 <= i < queue.len() ==> !urgent((#[trigger] queue[i]).envelope)
                    &&& forall|i: int|
                        0 <= i < queue.len() ==> answers(#[trigger] queue[i], false)
                },
            }
        }),
{
    lemma_reserved_place(actor.mailbox.queue);
    let queue = actor.mailbox.queue;
    if let Some(got) = envelope {
        match crate::mailbox::reserved_place(queue) {
            Some(at) => {
                assert(queue[at].envelope == got);
            },
            None => {
                let at = choose|at: int|
                    {
                        &&& 0 <= at < queue.len()
                        &&& got == (#[trigger] queue[at]).envelope
                        &&& answers(queue[at], true)
                        &&& forall|i: int| 0 <= i < at ==> answers(#[trigger] queue[i], false)
                        &&& after == actor.claimed(at)
                    };
                assert(queue[at].envelope == got);
            },
        }
    }
}

/// The selections: one that takes everything rejects nothing, one with a timeout takes the firing
/// of its timer whatever else it takes, and one with a watermark rejects what is older.
pub proof fn lemma_what_selections_take<F: Fn(&Envelope) -> bool>(
    predicate: F,
    entry: QueuedEnvelope,
    answer: bool,
    token: TimerToken,
    watermark: crate::mailbox::MailboxWatermark,
)
    ensures
        super::actor_state::of_everything()(entry, answer) <==> answer,
        super::actor_state::by_predicate(predicate)(entry, answer) <==> predicate.ensures(
            (&entry.envelope,),
            answer,
        ),
        entry.sequence < watermark.spec_sequence() ==> (super::actor_state::by_predicate_after(
            predicate,
            watermark,
        )(entry, answer) <==> !answer),
        entry.sequence >= watermark.spec_sequence() ==> (super::actor_state::by_predicate_after(
            predicate,
            watermark,
        )(entry, answer) <==> predicate.ensures((&entry.envelope,), answer)),
        (entry.envelope matches Envelope::Timer(fired) && fired.token == token) ==> (
        super::actor_state::by_firing_or_predicate(token, predicate)(entry, answer) <==> answer),
        !(entry.envelope matches Envelope::Timer(fired) && fired.token == token) ==> (
        super::actor_state::by_firing_or_predicate(token, predicate)(entry, answer)
            <==> predicate.ensures((&entry.envelope,), answer)),
        super::actor_state::beats_timeout(Some(entry.envelope), token) <==> !(
        entry.envelope matches Envelope::Timer(fired) && fired.token == token),
        !super::actor_state::beats_timeout(None, token),
{
}

/// Withdrawing a timer takes every firing of it out of the mailbox, and nothing else.
pub proof fn lemma_withdrawing_takes_the_firings_only(
    actor: ActorView,
    token: TimerToken,
    entry: QueuedEnvelope,
)
    ensures
        actor.withdrawn(token).mailbox.queue.contains(entry) <==> actor.mailbox.queue.contains(
            entry,
        ) && !(entry.envelope matches Envelope::Timer(fired) && fired.token == token),
        actor.has_firing(token) <==> exists|i: int|
            0 <= i < actor.mailbox.queue.len() && ((#[trigger] actor.mailbox.queue[i]).envelope
                matches Envelope::Timer(fired) && fired.token == token),
        actor.withdrawn(token) == (ActorView {
            mailbox: actor.withdrawn(token).mailbox,
            metrics: actor.withdrawn(token).metrics,
            ..actor
        }),
{
    let queue = actor.mailbox.queue;
    let keep = |entry: QueuedEnvelope| !entry.envelope.is_firing_of(token);
    let kept = queue.filter(keep);
    if kept.contains(entry) {
        queue.lemma_filter_contains_rev(keep, entry);
        let i = choose|i: int| 0 <= i < kept.len() && kept[i] == entry;
        queue.lemma_filter_pred(keep, i);
    }
    if queue.contains(entry) && keep(entry) {
        let i = choose|i: int| 0 <= i < queue.len() && queue[i] == entry;
        queue.lemma_filter_contains(keep, i);
    }
    if queue.contains(entry) && !actor.has_firing(token) {
        let i = choose|i: int| 0 <= i < queue.len() && queue[i] == entry;
        assert(!queue[i].envelope.is_firing_of(token));
    }
}

/// A supervisor is within its limit as long as no more restarts than its intensity, the new one
/// included, lie in its period, and only a restart within the limit counts as one.
pub proof fn lemma_restarts_are_limited(actor: ActorView, now: Timestamp)
    ensures
        actor.supervisor is None ==> actor.may_restart(now) && actor.restarted(now).supervisor
            is None,
        actor.supervisor matches Some(supervisor) ==> {
            let kept = actor.restarted(now).supervisor->0;
            &&& kept.restarts.len() > 0 && kept.restarts.last() == now
            &&& kept.flags == supervisor.flags && kept.window == supervisor.window
            &&& kept.running == supervisor.running && kept.child_specs == supervisor.child_specs
            &&& actor.may_restart(now) <==> kept.restarts.len() <= supervisor.window.intensity
        },
        actor.may_restart(now) && actor.metrics.restarts < u64::MAX ==> actor.restarted(
            now,
        ).metrics.restarts == actor.metrics.restarts + 1,
        !actor.may_restart(now) ==> actor.restarted(now).metrics == actor.metrics,
{
}

/// A newly configured supervisor has no running child and no restart on record, and a child that
/// is noted as running is noted under its id until that very actor is gone.
pub proof fn lemma_a_supervisor_knows_its_children(
    actor: ActorView,
    flags: SupervisorFlags,
    child_specs: Seq<ChildSpec>,
    child: Seq<char>,
    other_child: Seq<char>,
    runs_as: ActorId,
    other: ActorId,
)
    ensures
        actor.configured(flags, child_specs).supervisor matches Some(supervisor)
            && supervisor.flags == flags && supervisor.window == flags
            && supervisor.child_specs == child_specs && supervisor.running == Map::<
            Seq<char>,
            ActorId,
        >::empty() && supervisor.restarts.len() == 0,
        actor.supervisor is None ==> actor.running_child(child, runs_as) == actor
            && actor.cleared_child(child, runs_as) == actor,
        actor.supervisor is Some ==> {
            let started = actor.running_child(child, runs_as);
            let running = started.supervisor->0.running;
            &&& running.contains_key(child) && running[child] == runs_as
            &&& !started.cleared_child(child, runs_as).supervisor->0.running.contains_key(child)
            &&& other != runs_as ==> started.cleared_child(
                child,
                other,
            ).supervisor->0.running.contains_key(child)
            &&& other_child != child ==> running.contains_key(other_child)
                == actor.supervisor->0.running.contains_key(other_child)
        },
{
}

} // verus!
