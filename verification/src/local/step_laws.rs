//! What single steps of the single-threaded runtime do, actor by actor.

use vstd::prelude::*;

use crate::context::SpawnOptions;
use crate::envelope::{Envelope, ExitSignal};
use crate::mailbox::{MailboxView, QueuedEnvelope};
use crate::runtime::actor_state::ActorView;
use crate::runtime::state::StateView;
use crate::types::{ActorId, ExitReason, Ref, TimerToken};

use super::frame::{LeavingView, StageView};
use super::spec::LocalView;

verus! {

/// Whether a mailbox has no room left at all.
pub open spec fn is_full(mailbox: MailboxView) -> bool {
    mailbox.capacity != usize::MAX && mailbox.queue.len() >= mailbox.capacity
}

/// Whether a mailbox has got one envelope more, at its end.
pub open spec fn has_got(before: MailboxView, after: MailboxView, envelope: Envelope) -> bool {
    &&& after.queue.len() == before.queue.len() + 1
    &&& after.queue.drop_last() == before.queue
    &&& after.queue.last().envelope == envelope
}

/// Whether an envelope is one of the runtime.
pub open spec fn is_of_runtime(envelope: Envelope) -> bool {
    envelope is Reply || envelope is Task || envelope is CallTimeout || envelope is Exit
        || envelope is Down || envelope is Timer || envelope is System
}

/// An envelope that is sent to an actor in its place is the last one of its mailbox, unless there
/// is no room for it: for user messages and requests none of the reserve is used. A reply settles
/// the call that waits for it. All other actors stay as they are.
pub proof fn lemma_what_a_send_does(
    before: LocalView,
    to: ActorId,
    other: ActorId,
    envelope: Envelope,
)
    requires
        crate::runtime::table::table_ok(before.state.actors),
        before.state.has(to),
        other.local_id != to.local_id,
    ensures
        ({
            let after = before.sent(to, envelope);
            let was = before.state.actor(to).mailbox;
            let now = after.state.actor(to).mailbox;
            &&& after.state.has(to)
            &&& is_of_runtime(envelope) && !is_full(was) ==> has_got(was, now, envelope)
            &&& is_of_runtime(envelope) && is_full(was) ==> now.queue == was.queue
            &&& !is_of_runtime(envelope) && (was.capacity == usize::MAX || was.queue.len()
                + was.reserve < was.capacity) ==> has_got(was, now, envelope)
            &&& !is_of_runtime(envelope) && was.capacity != usize::MAX && was.queue.len()
                + was.reserve >= was.capacity ==> now.queue == was.queue
            &&& after.state.has(other) == before.state.has(other)
            &&& before.state.has(other) ==> after.state.actor(other) == before.state.actor(other)
            &&& after.stack == before.stack
            &&& envelope matches Envelope::Reply { reference, .. } ==> !after.state.calls.contains(
                (to, reference),
            )
            &&& !(envelope is Reply) ==> after.state.calls == before.state.calls
        }),
{
    let after = before.sent(to, envelope);
    let was = before.state.actor(to).mailbox;
    let now = after.state.actor(to).mailbox;
    if now.queue.len() > was.queue.len() {
        assert(now.queue.drop_last() =~= was.queue);
    }
}

/// A runtime envelope is the last one of the mailbox of the actor in its place that it is for; if
/// the mailbox is full, the actor has to exit with an error instead, and is no longer in its
/// place.
pub proof fn lemma_what_a_runtime_envelope_does(
    before: LocalView,
    to: ActorId,
    envelope: Envelope,
    label: Seq<char>,
    after: LocalView,
)
    requires
        before.state.has(to),
        is_of_runtime(envelope),
        before.runtime_sent(to, envelope, label, after),
    ensures
        ({
            let was = before.state.actor(to).mailbox;
            if is_full(was) {
                &&& !after.state.has(to)
                &&& after.stack.len() == before.stack.len() + 1
                &&& after.stack.drop_last() == before.stack
                &&& after.stack.last().actor.id == before.state.actor(to).id
                &&& after.stack.last().actor.mailbox.queue == was.queue
                &&& after.stack.last().stage matches StageView::Condemned(reason)
                    && crate::concurrent::turn_laws::overflowed(reason, to, label)
            } else {
                &&& after.state.has(to)
                &&& has_got(was, after.state.actor(to).mailbox, envelope)
                &&& after.stack == before.stack
            }
        }),
{
    lemma_what_a_delivery_does(before, to, envelope);
    if is_full(before.state.actor(to).mailbox) {
        assert(after.stack.drop_last() =~= before.stack);
    }
}

proof fn lemma_what_a_delivery_does(before: LocalView, to: ActorId, envelope: Envelope)
    requires
        before.state.has(to),
        is_of_runtime(envelope),
    ensures
        before.sent(to, envelope).state.has(to),
        before.sent(to, envelope).state.actor(to).id == before.state.actor(to).id,
        !is_full(before.state.actor(to).mailbox) ==> has_got(
            before.state.actor(to).mailbox,
            before.sent(to, envelope).state.actor(to).mailbox,
            envelope,
        ),
        is_full(before.state.actor(to).mailbox) ==> before.sent(to, envelope).state.actor(
            to,
        ).mailbox.queue == before.state.actor(to).mailbox.queue,
        before.sent(to, envelope).stack == before.stack,
{
    let was = before.state.actor(to).mailbox;
    let now = before.sent(to, envelope).state.actor(to).mailbox;
    if now.queue.len() > was.queue.len() {
        assert(now.queue.drop_last() =~= was.queue);
    }
}

/// What an exit signal does to an actor in its place: a kill, and a linked exit that is not normal
/// unless the actor traps exits, makes it exit with that reason; a linked normal exit that is not
/// trapped changes nothing; everything else is the last envelope of its mailbox, as long as there
/// is room.
pub proof fn lemma_what_an_exit_signal_does(
    before: LocalView,
    target: ActorId,
    signal: ExitSignal,
    after: LocalView,
)
    requires
        before.state.has(target),
        before.signalled(target, signal, after),
    ensures
        ({
            let was = before.state.actor(target);
            if signal.reason is Kill || (signal.linked && !was.trap_exit && !(
            signal.reason is Normal)) {
                &&& !after.state.has(target)
                &&& after.stack.len() == before.stack.len() + 1
                &&& after.stack.last().actor.id == was.id
                &&& after.stack.last().actor.mailbox == was.mailbox
                &&& after.stack.last().stage == StageView::Condemned(signal.reason)
            } else if signal.linked && !was.trap_exit {
                after == before
            } else if is_full(was.mailbox) {
                &&& !after.state.has(target)
                &&& after.stack.last().stage matches StageView::Condemned(reason)
                    && crate::concurrent::turn_laws::overflowed(reason, target, "exit"@)
            } else {
                &&& after.state.has(target)
                &&& has_got(
                    was.mailbox,
                    after.state.actor(target).mailbox,
                    Envelope::Exit(signal),
                )
                &&& after.stack == before.stack
            }
        }),
{
    lemma_what_a_delivery_does(before, target, Envelope::Exit(signal));
}

/// What an exit signal of the current actor to itself does: it exits when its hook is over, with
/// that reason, on a kill or a linked exit that is neither normal nor trapped; and otherwise the
/// signal is ignored or is the last envelope of its mailbox, as for any other actor.
pub proof fn lemma_what_an_exit_signal_to_oneself_does(
    before: LocalView,
    signal: ExitSignal,
    after: LocalView,
)
    requires
        before.stack.len() > 0,
        before.self_signalled(signal, after),
    ensures
        after.stack.len() == before.stack.len(),
        after.state == before.state,
        ({
            let was = before.stack.last().actor;
            let now = after.stack.last().actor;
            if signal.reason is Kill || (signal.linked && !was.trap_exit && !(
            signal.reason is Normal)) {
                after.stack.last().effects.exit_reason == Some(signal.reason) && now == was
            } else if signal.linked && !was.trap_exit {
                after == before
            } else if is_full(was.mailbox) {
                &&& after.stack.last().effects.exit_reason is Some
                &&& crate::concurrent::turn_laws::overflowed(
                    after.stack.last().effects.exit_reason->0,
                    was.id,
                    "exit"@,
                )
                &&& now.mailbox.queue == was.mailbox.queue
            } else {
                &&& after.stack.last().effects == before.stack.last().effects
                &&& has_got(was.mailbox, now.mailbox, Envelope::Exit(signal))
            }
        }),
{
    let was = before.stack.last().actor.mailbox.queue;
    let now = after.stack.last().actor.mailbox.queue;
    if now.len() > was.len() {
        assert(now.drop_last() =~= was);
    }
}

/// What the current actor sends to itself is the last envelope of its own mailbox, as long as
/// there is room for it.
pub proof fn lemma_what_a_send_to_oneself_does(before: LocalView, envelope: Envelope)
    requires
        before.stack.len() > 0,
    ensures
        ({
            let after = before.self_sent(envelope);
            let was = before.stack.last().actor.mailbox;
            let now = after.stack.last().actor.mailbox;
            &&& after.stack.len() == before.stack.len()
            &&& after.stack.drop_last() == before.stack.drop_last()
            &&& after.state == before.state
            &&& after.stack.last().effects == before.stack.last().effects
            &&& after.stack.last().stage == before.stack.last().stage
            &&& is_of_runtime(envelope) && !is_full(was) ==> has_got(was, now, envelope)
            &&& is_of_runtime(envelope) && is_full(was) ==> now.queue == was.queue
            &&& !is_of_runtime(envelope) && (was.capacity == usize::MAX || was.queue.len()
                + was.reserve < was.capacity) ==> has_got(was, now, envelope)
            &&& !is_of_runtime(envelope) && was.capacity != usize::MAX && was.queue.len()
                + was.reserve >= was.capacity ==> now.queue == was.queue
        }),
{
    let after = before.self_sent(envelope);
    let was = before.stack.last().actor.mailbox;
    let now = after.stack.last().actor.mailbox;
    assert(after.stack.drop_last() =~= before.stack.drop_last());
    if now.queue.len() > was.queue.len() {
        assert(now.queue.drop_last() =~= was.queue);
    }
}

/// An actor that asks to exit goes on with its hook, and nobody else notices.
pub proof fn lemma_asking_to_exit_is_noted(before: LocalView, reason: ExitReason)
    requires
        before.stack.len() > 0,
    ensures
        ({
            let after = before.exit_asked(reason);
            &&& after.state == before.state
            &&& after.queue == before.queue
            &&& after.stack.len() == before.stack.len()
            &&& after.stack.drop_last() == before.stack.drop_last()
            &&& after.stack.last().actor == before.stack.last().actor
            &&& after.stack.last().stage == before.stack.last().stage
            &&& after.stack.last().effects.exit_reason == Some(reason)
            &&& after.stack.last().effects.yielded
                == before.stack.last().effects.yielded
        }),
{
    let after = before.exit_asked(reason);
    assert(after.stack.drop_last() =~= before.stack.drop_last());
}

/// An actor whose turn is over is back in its place with all its mail: it waits when there is
/// none, and can run otherwise.
pub proof fn lemma_what_the_end_of_a_turn_does(before: LocalView)
    requires
        before.stack.len() > 0,
    ensures
        ({
            let was = before.stack.last().actor;
            let after = before.returned();
            let now = after.state.actors[was.id.local_id];
            &&& after.state.actors.contains_key(was.id.local_id)
            &&& after.stack == before.stack.drop_last()
            &&& now.id == was.id
            &&& now.mailbox == was.mailbox
            &&& now.links == was.links
            &&& now.trap_exit == was.trap_exit
            &&& now.monitors_in == was.monitors_in
            &&& now.monitors_out == was.monitors_out
            &&& now.shutdown == was.shutdown
            &&& !now.has_claimed
            &&& now.metrics.scheduler_id is None
            &&& now.metrics.turns_run == was.metrics.turns_run
            &&& now.metrics.mailbox_len == was.mailbox.queue.len() as usize
            &&& was.mailbox.queue.len() == 0 ==> now.status is Waiting && after.queue
                == before.queue
            &&& was.mailbox.queue.len() > 0 ==> now.status is Runnable && now.scheduled
            &&& was.mailbox.queue.len() > 0 && !was.scheduled ==> after.queue
                == before.queue.push(was.id)
            &&& was.mailbox.queue.len() > 0 && was.scheduled ==> after.queue == before.queue
        }),
{
}

/// An actor that has to exit leaves its place as it is, to run its termination hook; its reason is
/// the one given.
pub proof fn lemma_what_condemning_does(
    before: LocalView,
    id: ActorId,
    other: ActorId,
    reason: ExitReason,
)
    requires
        before.state.has(id),
        other.local_id != id.local_id,
    ensures
        ({
            let was = before.state.actor(id);
            let after = before.condemned(id, reason);
            let frame = after.stack.last();
            &&& !after.state.has(id)
            &&& after.state.has(other) == before.state.has(other)
            &&& before.state.has(other) ==> after.state.actor(other) == before.state.actor(other)
            &&& after.stack.drop_last() == before.stack
            &&& frame.stage == StageView::Condemned(reason)
            &&& frame.actor.id == was.id
            &&& frame.actor.status is Exiting
            &&& frame.actor.mailbox == was.mailbox
            &&& frame.actor.links == was.links
            &&& frame.actor.monitors_in == was.monitors_in
            &&& frame.actor.monitors_out == was.monitors_out
            &&& frame.actor.shutdown == was.shutdown
            &&& frame.effects.exit_reason is None
            &&& after.queue == before.queue
            &&& after.state.log == before.state.log
        }),
{
    let after = before.condemned(id, reason);
    assert(after.stack.drop_last() =~= before.stack);
}

/// The same holds of the actor on top of the stack.
pub proof fn lemma_what_dooming_does(before: LocalView, reason: ExitReason)
    requires
        before.stack.len() > 0,
    ensures
        ({
            let was = before.stack.last().actor;
            let after = before.doomed(reason);
            let frame = after.stack.last();
            &&& after.state == before.state
            &&& after.stack.len() == before.stack.len()
            &&& after.stack.drop_last() == before.stack.drop_last()
            &&& frame.stage == StageView::Condemned(reason)
            &&& frame.actor.id == was.id
            &&& frame.actor.status is Exiting
            &&& frame.actor.mailbox == was.mailbox
            &&& frame.actor.links == was.links
            &&& frame.actor.monitors_in == was.monitors_in
            &&& frame.effects.exit_reason is None
        }),
{
    let after = before.doomed(reason);
    assert(after.stack.drop_last() =~= before.stack.drop_last());
}

/// Once the termination hook of an actor is over, it has nothing left to do but to tell its
/// watchers and its links: each of them is told, and nobody else.
pub proof fn lemma_who_is_told_of_an_exit(before: LocalView, reason: ExitReason)
    requires
        before.stack.len() > 0,
        before.stack.last().actor.links.finite(),
        before.stack.last().actor.monitors_in.dom().finite(),
    ensures
        ({
            let was = before.stack.last().actor;
            let after = before.terminated(reason);
            let frame = after.stack.last();
            &&& after.stack.len() == before.stack.len()
            &&& frame.actor == was
            &&& frame.stage matches StageView::Leaving(leaving)
            &&& leaving.reason == reason
            &&& !(reason is Kill) ==> leaving.linked_reason == reason
            &&& was.shutdown is None ==> leaving.linked_reason == reason
            &&& leaving.owed is None
            &&& forall|other: ActorId| #[trigger]
                leaving.links.contains(other) <==> was.links.contains(other)
            &&& forall|reference: Ref| #[trigger]
                was.monitors_in.contains_key(reference) ==> leaving.watchers.contains(
                    (reference, was.monitors_in[reference]),
                )
            &&& forall|i: int|
                0 <= i < leaving.watchers.len() ==> was.monitors_in.contains_key(
                    (#[trigger] leaving.watchers[i]).0,
                ) && was.monitors_in[leaving.watchers[i].0] == leaving.watchers[i].1
        }),
{
    let was = before.stack.last().actor;
    crate::collections::lemma_finite_set_is_listed(was.links);
    crate::collections::lemma_finite_map_is_listed(was.monitors_in);
}

/// The order in which actors get turns: the first in the run queue that is in its place comes
/// next, and those in front of it that are not are passed over.
pub proof fn lemma_who_gets_the_next_turn(state: StateView, queue: Seq<ActorId>, at: int)
    requires
        0 <= at <= queue.len(),
        forall|i: int| 0 <= i < at ==> !state.has(#[trigger] queue[i]),
        at < queue.len() ==> state.has(queue[at]),
    ensures
        super::turns::next_in_line(state, queue) == queue.skip(at),
    decreases queue.len(),
{
    if at == 0 {
        assert(queue.skip(0) =~= queue);
    } else {
        let rest = queue.drop_first();
        assert(!state.has(queue[0]));
        assert forall|i: int| 0 <= i < at - 1 implies !state.has(#[trigger] rest[i]) by {
            assert(rest[i] == queue[i + 1]);
        }
        if at < queue.len() {
            assert(rest[at - 1] == queue[at]);
        }
        lemma_who_gets_the_next_turn(state, rest, at - 1);
        assert(rest.skip(at - 1) =~= queue.skip(at));
    }
}

/// An actor whose turn comes is no longer in the run queue and has nothing claimed; its first turn
/// runs its initialization, and the handling of an envelope counts as a turn. Its mail and its
/// ties stay as they are.
pub proof fn lemma_how_turns_change_an_actor(actor: ActorView)
    ensures
        ({
            let picked = super::turns::picked(actor);
            &&& !picked.scheduled && !picked.has_claimed
            &&& picked.id == actor.id
            &&& picked.initialized == actor.initialized
            &&& picked.mailbox == actor.mailbox
            &&& picked.links == actor.links
            &&& picked.monitors_in == actor.monitors_in
            &&& picked.monitors_out == actor.monitors_out
            &&& picked.forced_exit == actor.forced_exit
            &&& picked.shutdown == actor.shutdown
            &&& picked.metrics.turns_run == actor.metrics.turns_run
            &&& !actor.initialized ==> picked.status is Running && picked.metrics.scheduler_id
                == Some(0usize)
            &&& actor.initialized ==> picked.status == actor.status
        }),
        ({
            let handling = super::turns::handling(actor);
            &&& handling.status is Running
            &&& handling.metrics.scheduler_id == Some(0usize)
            &&& actor.metrics.turns_run < u64::MAX ==> handling.metrics.turns_run
                == actor.metrics.turns_run + 1
            &&& handling.metrics.mailbox_len == actor.mailbox.queue.len() as usize
            &&& handling.id == actor.id
            &&& handling.mailbox == actor.mailbox
            &&& handling.links == actor.links
            &&& handling.monitors_in == actor.monitors_in
            &&& handling.monitors_out == actor.monitors_out
            &&& handling.shutdown == actor.shutdown
            &&& handling.has_claimed == actor.has_claimed
        }),
{
}

/// A spawner and the actor that it spawns are linked with each other exactly when the options ask
/// for that; and a supervisor that spawns a child knows the actor that the child runs as.
pub proof fn lemma_what_spawning_ties(
    current: ActorView,
    id: ActorId,
    name: &'static str,
    options: SpawnOptions,
    config: crate::scheduler::SchedulerConfig,
)
    requires
        !current.links.contains(id),
    ensures
        ({
            let spawner = super::services::spawner_after(current, id, options);
            let spawned = super::services::spawned_view(current, id, name, options, config);
            &&& spawned.id == id
            &&& spawned.name == name
            &&& spawned.scheduled
            &&& !spawned.initialized
            &&& spawned.mailbox.queue.len() == 0
            &&& spawned.trap_exit == options.trap_exit
            &&& spawned.parent == options.parent
            &&& spawner.id == current.id
            &&& spawner.mailbox == current.mailbox
            &&& spawner.links.contains(id) == options.link_to_parent
            &&& spawned.links.contains(current.id) == options.link_to_parent
            &&& forall|other: ActorId| #[trigger]
                spawned.links.contains(other) ==> other == current.id
            &&& forall|other: ActorId|
                other != id ==> #[trigger] spawner.links.contains(other) == current.links.contains(
                    other,
                )
            &&& options.supervisor_child is None ==> spawner.supervisor == current.supervisor
            &&& options.supervisor_child matches Some(child) ==> (current.supervisor is Some
                ==> spawner.supervisor is Some && spawner.supervisor->0.running
                == current.supervisor->0.running.insert(child@, id))
        }),
{
}

/// Linking ties the current actor and the other one at both ends and touches nobody else;
/// unlinking undoes both ends.
pub proof fn lemma_what_linking_does(before: LocalView, other: ActorId, third: ActorId)
    requires
        before.stack.len() > 0,
        before.state.has(other),
        crate::runtime::table::table_ok(before.state.actors),
        third.local_id != other.local_id,
    ensures
        ({
            let me = before.stack.last().actor;
            let after = before.linked(other);
            &&& after.stack.last().actor.links == me.links.insert(other)
            &&& after.state.has(other)
            &&& after.state.actor(other).links == before.state.actor(other).links.insert(me.id)
            &&& after.state.actor(other).mailbox == before.state.actor(other).mailbox
            &&& after.state.has(third) == before.state.has(third)
            &&& before.state.has(third) ==> after.state.actor(third) == before.state.actor(third)
            &&& after.stack.drop_last() == before.stack.drop_last()
            &&& after.queue == before.queue
        }),
        ({
            let me = before.stack.last().actor;
            let after = before.unlinked(other);
            &&& after.stack.last().actor.links == me.links.remove(other)
            &&& after.state.has(other)
            &&& after.state.actor(other).links == before.state.actor(other).links.remove(me.id)
            &&& after.state.actor(other).mailbox == before.state.actor(other).mailbox
            &&& after.state.has(third) == before.state.has(third)
            &&& before.state.has(third) ==> after.state.actor(third) == before.state.actor(third)
            &&& after.stack.drop_last() == before.stack.drop_last()
            &&& after.queue == before.queue
        }),
{
    assert(before.linked(other).stack.drop_last() =~= before.stack.drop_last());
    assert(before.unlinked(other).stack.drop_last() =~= before.stack.drop_last());
}

/// Cancelling a timer takes the timer of the current actor and its firings that wait, and no
/// other timer and no other envelope.
pub proof fn lemma_what_cancelling_a_timer_does(before: LocalView, token: TimerToken)
    requires
        before.stack.len() > 0,
    ensures
        ({
            let me = before.stack.last().actor;
            let after = before.timer_cancelled(token);
            &&& !after.state.timers.contains((me.id, token.spec_ref()))
            &&& after.state.timers == before.state.timers.remove((me.id, token.spec_ref()))
            &&& after.state.actors == before.state.actors
            &&& after.stack.drop_last() == before.stack.drop_last()
            &&& after.stack.last().actor.links == me.links
            &&& forall|i: int|
                0 <= i < after.stack.last().actor.mailbox.queue.len() ==> !((
                #[trigger] after.stack.last().actor.mailbox.queue[i]).envelope matches Envelope::Timer(
                    fired,
                ) && fired.token == token)
        }),
{
    let me = before.stack.last().actor;
    let after = before.timer_cancelled(token);
    assert(after.stack.drop_last() =~= before.stack.drop_last());
}

/// An actor that has told everybody is gone: it is no longer on the stack, the actors in their
/// places are as they were, and one live actor less is counted.
pub proof fn lemma_what_leaving_comes_to(before: LocalView, leaving: LeavingView)
    requires
        before.stack.len() > 0,
        before.state.live_actors > 0,
    ensures
        ({
            let after = before.gone(leaving);
            &&& after.stack == before.stack.drop_last()
            &&& after.queue == before.queue
            &&& after.state.actors == before.state.actors
            &&& after.state.live_actors == before.state.live_actors - 1
        }),
{
}

/// The order in which an actor that leaves tells the others: first a notification that is owed is
/// reported, then its watchers are told, then those linked with it, each of them once; and only
/// then it is gone.
pub proof fn lemma_in_which_order_others_are_told(
    before: LocalView,
    leaving: LeavingView,
    after: LocalView,
)
    requires
        before.stack.len() > 0,
        before.leave_step(leaving, after),
    ensures
        leaving.owed is Some ==> {
            &&& after.stack.last().stage matches StageView::Leaving(rest)
            &&& rest.owed is None
            &&& rest.watchers == leaving.watchers
            &&& rest.links == leaving.links
            &&& after.state.log.len() == before.state.log.len() + 1
            &&& after.state.actors == before.state.actors
        },
        leaving.owed is None && leaving.watchers.len() > 0 ==> {
            &&& after.stack.len() >= before.stack.len()
            &&& after.stack[before.stack.len() - 1].stage matches StageView::Leaving(rest)
            &&& rest.watchers == leaving.watchers.drop_first()
            &&& rest.links == leaving.links
            &&& rest.reason == leaving.reason
        },
        leaving.owed is None && leaving.watchers.len() == 0 && leaving.links.len() > 0 ==> {
            &&& after.stack.len() >= before.stack.len()
            &&& after.stack[before.stack.len() - 1].stage matches StageView::Leaving(rest)
            &&& rest.watchers.len() == 0
            &&& rest.links == leaving.links.drop_first()
            &&& rest.reason == leaving.reason
        },
        leaving.owed is None && leaving.watchers.len() == 0 && leaving.links.len() == 0
            ==> after.stack == before.stack.drop_last() && after.state.actors
            == before.state.actors,
{
}

/// A receive of the current actor is its own matter: nobody else changes, and nothing at all when
/// it gives nothing.
pub proof fn lemma_a_receive_is_a_private_matter(
    before: LocalView,
    answers: spec_fn(QueuedEnvelope, bool) -> bool,
    envelope: Option<Envelope>,
    after: LocalView,
)
    requires
        before.stack.len() > 0,
        before.received(answers, envelope, after),
    ensures
        envelope is None ==> after == before,
        after.state == before.state,
        after.queue == before.queue,
        after.stack.drop_last() == before.stack.drop_last(),
        envelope is Some ==> after.stack.last().actor.mailbox.queue.len() + 1
            == before.stack.last().actor.mailbox.queue.len(),
{
    if !before.stack.last().actor.has_claimed {
        crate::runtime::actor_laws::lemma_what_a_selective_receive_gives(
            before.stack.last().actor,
            answers,
            envelope,
            after.stack.last().actor,
        );
    }
    assert(after.stack.drop_last() =~= before.stack.drop_last());
}

/// The only run queue is that of the only scheduler: it counts the live actors that can run and
/// those that wait, and no actor comes from elsewhere.
pub proof fn lemma_there_is_one_run_queue(state: StateView)
    ensures
        ({
            let queue = super::inspect::only_queue(state);
            let ids = crate::collections::ascending(
                crate::runtime::table::live_ids(state.actors),
            );
            &&& queue.scheduler_id == 0
            &&& queue.injected == 0
            &&& queue.stolen == 0
            &&& queue.runnable == crate::runtime::report::runnable_on(
                state.actors,
                ids,
                1,
                0,
            ) as usize
            &&& queue.waiting == crate::runtime::report::waiting_on(
                state.actors,
                ids,
                1,
                0,
            ) as usize
        }),
{
}

/// A runtime envelope for the current actor is the last one of its mailbox, or makes it exit when
/// its hook is over, because the mailbox is full.
pub proof fn lemma_what_a_runtime_envelope_to_oneself_does(
    before: LocalView,
    envelope: Envelope,
    label: Seq<char>,
    after: LocalView,
)
    requires
        before.stack.len() > 0,
        is_of_runtime(envelope),
        before.self_notified(envelope, label, after),
    ensures
        after.stack.len() == before.stack.len(),
        after.state == before.state,
        ({
            let was = before.stack.last().actor;
            let now = after.stack.last().actor;
            if is_full(was.mailbox) {
                &&& after.stack.last().effects.exit_reason is Some
                &&& crate::concurrent::turn_laws::overflowed(
                    after.stack.last().effects.exit_reason->0,
                    was.id,
                    label,
                )
                &&& now.mailbox.queue == was.mailbox.queue
            } else {
                &&& after.stack.last().effects == before.stack.last().effects
                &&& has_got(was.mailbox, now.mailbox, envelope)
            }
        }),
{
    let was = before.stack.last().actor.mailbox.queue;
    let now = after.stack.last().actor.mailbox.queue;
    if now.len() > was.len() {
        assert(now.drop_last() =~= was);
    }
}

/// The mailbox of the actor in its place that an envelope is sent to has got it exactly when there
/// is room for it.
pub(crate) proof fn lemma_what_a_delivery_puts(before: LocalView, to: ActorId, envelope: Envelope)
    requires
        before.state.has(to),
    ensures
        ({
            let was = before.state.actor(to).mailbox;
            let now = before.sent(to, envelope).state.actor(to).mailbox;
            let room = was.capacity == usize::MAX || (if envelope is User || envelope is Request {
                was.queue.len() + was.reserve < was.capacity
            } else {
                was.queue.len() < was.capacity
            });
            &&& room ==> has_got(was, now, envelope)
            &&& !room ==> now == was
        }),
{
    let was = before.state.actor(to).mailbox;
    let now = before.sent(to, envelope).state.actor(to).mailbox;
    if now.queue.len() > was.queue.len() {
        assert(now.queue.drop_last() =~= was.queue);
    }
}

} // verus!
