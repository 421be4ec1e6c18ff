//! What the turns, spawns and ties of actors on the multicore runtime come to.

use vstd::prelude::*;

use crate::context::SendError;
use crate::envelope::{DownMessage, Envelope, ExitSignal};
use crate::mailbox::QueuedEnvelope;
use crate::runtime::actor_state::ActorView;
use crate::runtime::state::StateView;
use crate::scheduler::SchedulerConfig;
use crate::types::{ActorId, ExitReason, Ref};

use super::worker::WorkerAction;

verus! {

/// Whether an actor is the same but for its status, its metrics and the marks of its turns.
pub open spec fn same_but_turn(before: ActorView, after: ActorView) -> bool {
    after == (ActorView {
        status: after.status,
        metrics: after.metrics,
        initialized: after.initialized,
        has_claimed: after.has_claimed,
        ..before
    })
}

/// Whether a reason says that the mailbox of an actor had no room for something.
pub open spec fn overflowed(reason: ExitReason, actor: ActorId, label: Seq<char>) -> bool {
    reason is Error && reason->Error_0@ == "actor `"@ + actor.text()
        + "` mailbox overflow while delivering "@ + label
}

/// The life of an actor between its turns: it runs on its scheduler while a hook runs, each turn
/// is counted, and afterwards it can run on exactly when envelopes are left, and waits otherwise.
/// Its mail, its ties and an exit ahead stay as they are.
pub proof fn lemma_how_turns_change_an_actor(actor: ActorView)
    ensures
        ({
            let running = super::turns::running(actor);
            &&& running.status is Running
            &&& running.metrics.scheduler_id == Some(actor.scheduler_id)
            &&& running.metrics.turns_run == actor.metrics.turns_run
            &&& same_but_turn(actor, running)
            &&& running.initialized == actor.initialized && running.has_claimed
                == actor.has_claimed
        }),
        ({
            let turning = super::turns::turning(actor);
            &&& turning.status is Running
            &&& turning.metrics.scheduler_id == Some(actor.scheduler_id)
            &&& actor.metrics.turns_run < u64::MAX ==> turning.metrics.turns_run
                == actor.metrics.turns_run + 1
            &&& turning.metrics.mailbox_len == actor.mailbox.queue.len() as usize
            &&& turning.metrics.restarts == actor.metrics.restarts
            &&& turning.has_claimed == actor.has_claimed
            &&& same_but_turn(actor, turning)
        }),
        ({
            let turned = super::turns::turned(actor);
            &&& turned.status is Waiting <==> actor.mailbox.queue.len() == 0
            &&& turned.status is Runnable <==> actor.mailbox.queue.len() > 0
            &&& turned.metrics.scheduler_id is None
            &&& turned.metrics.turns_run == actor.metrics.turns_run
            &&& turned.metrics.mailbox_len == actor.mailbox.queue.len() as usize
            &&& !turned.has_claimed
            &&& same_but_turn(actor, turned)
        }),
        ({
            let waiting = super::turns::waiting(actor);
            &&& waiting.status is Waiting
            &&& waiting.metrics.scheduler_id is None
            &&& waiting.metrics.turns_run == actor.metrics.turns_run
            &&& !waiting.has_claimed
            &&& same_but_turn(actor, waiting)
        }),
        ({
            let leaving = super::turns::leaving(actor);
            &&& leaving.status is Exiting
            &&& leaving.metrics.scheduler_id == Some(actor.scheduler_id)
            &&& same_but_turn(actor, leaving)
        }),
        ({
            let ready = super::turns::initialized(actor, false);
            let exiting = super::turns::initialized(actor, true);
            &&& ready.initialized && exiting.initialized
            &&& !ready.has_claimed && !exiting.has_claimed
            &&& ready.status is Waiting <==> actor.mailbox.queue.len() == 0
            &&& ready.status is Runnable <==> actor.mailbox.queue.len() > 0
            &&& exiting.status is Exiting
            &&& ready.metrics.scheduler_id is None
            &&& same_but_turn(actor, ready) && same_but_turn(actor, exiting)
        }),
        super::turns::start_of(actor).name == actor.name,
        super::turns::start_of(actor).scheduler_id == actor.scheduler_id,
        super::turns::start_of(actor).mailbox_len == actor.mailbox.queue.len() as usize,
        super::turns::is_idle_actor(actor) ==> actor.mailbox.queue.len() == 0,
        actor.mailbox.queue.len() > 0 || actor.status is Running || actor.status is Runnable
            || actor.status is Starting || actor.status is Exiting
            ==> !super::turns::is_idle_actor(actor),
        actor.mailbox.queue.len() == 0 && (actor.status is Waiting || actor.status is Dead)
            ==> super::turns::is_idle_actor(actor),
{
}

/// A worker that lets an actor leave asks for its termination under its name and with the reason;
/// it is done when the actor is gone. A worker that goes on with an actor asks for its termination
/// with the reason of a forced exit, if there is one, which counts once, and for the selection of
/// an envelope otherwise.
pub proof fn lemma_what_a_worker_does_next(
    before: StateView,
    actor: ActorId,
    reason: ExitReason,
    after: StateView,
    action: WorkerAction,
)
    requires
        crate::runtime::table::table_ok(before.actors),
    ensures
        super::worker::left(before, actor, reason, after, action) ==> {
            &&& before.has(actor) ==> action == (WorkerAction::Terminate {
                name: before.actor(actor).name,
                reason,
            }) && after.has(actor) && after.actor(actor).status is Exiting && after.actor(
                actor,
            ).mailbox == before.actor(actor).mailbox && after.actor(actor).links == before.actor(
                actor,
            ).links && after.actor(actor).shutdown == before.actor(actor).shutdown
            &&& !before.has(actor) ==> action is Done && after == before
        },
        super::worker::went_on(before, actor, after, action) ==> {
            &&& !before.has(actor) ==> action is Done && after == before
            &&& before.has(actor) && before.actor(actor).forced_exit is None ==> action is Select
                && after == before
            &&& before.has(actor) && before.actor(actor).forced_exit is Some ==> action
                == (WorkerAction::Terminate {
                name: before.actor(actor).name,
                reason: before.actor(actor).forced_exit->0,
            }) && after.has(actor) && after.actor(actor).forced_exit is None && after.actor(
                actor,
            ).mailbox == before.actor(actor).mailbox && after.actor(actor).links == before.actor(
                actor,
            ).links
        },
{
}

/// An actor gets at least one turn in a row, and as many as its budget says.
pub proof fn lemma_turn_limit(config: SchedulerConfig)
    ensures
        super::worker::turn_limit(config) >= 1,
        config.actor_turn_budget >= 1 ==> super::worker::turn_limit(config)
            == config.actor_turn_budget,
{
}

/// An actor is assigned to one of the schedulers: the actors in the first slots to one each, and
/// then over and over again in the same order.
pub proof fn lemma_actors_are_spread_over_schedulers(
    config: SchedulerConfig,
    actor: ActorId,
    later: ActorId,
)
    requires
        config.scheduler_count > 0,
        later.local_id == actor.local_id + config.scheduler_count,
        later.local_id <= usize::MAX,
    ensures
        super::state::scheduler_of(config, actor) < config.scheduler_count,
        actor.local_id < config.scheduler_count ==> super::state::scheduler_of(config, actor)
            == actor.local_id,
        super::state::scheduler_of(config, later) == super::state::scheduler_of(config, actor),
{
    let count = config.scheduler_count as int;
    let slot = actor.local_id as int;
    assert(0 <= slot % count < count) by (nonlinear_arith)
        requires
            count > 0,
    ;
    vstd::arithmetic::div_mod::lemma_mod_add_multiples_vanish(slot, count);
    if slot < count {
        vstd::arithmetic::div_mod::lemma_small_mod(slot as nat, count as nat);
    }
}

/// A new actor is linked with its parent, at both ends, exactly when it asks for that and the
/// parent is live.
pub proof fn lemma_a_new_actor_joins(
    state: StateView,
    actor: ActorView,
    parent: ActorId,
    link_to_parent: bool,
)
    requires
        !state.actors.contains_key(actor.id.local_id),
        crate::runtime::table::table_ok(state.actors),
        actor.parent == Some(parent),
        state.has(parent),
        actor.links == Set::<ActorId>::empty(),
    ensures
        ({
            let after = super::state::joined(state, actor, link_to_parent);
            &&& after.has(actor.id) && after.has(parent)
            &&& after.actor(actor.id).links.contains(parent) <==> link_to_parent
            &&& link_to_parent ==> after.actor(parent).links.contains(actor.id)
            &&& !link_to_parent ==> after.actor(parent).links == state.actor(parent).links
            &&& after.actor(actor.id).mailbox == actor.mailbox
            &&& after.actor(actor.id).parent == Some(parent)
            &&& after.log.len() == state.log.len() + 1
            &&& state.actor(parent).supervisor is Some ==> (actor.supervisor_child matches Some(
                child,
            ) ==> after.actor(parent).supervisor->0.running == state.actor(
                parent,
            ).supervisor->0.running.insert(child@, actor.id))
        }),
{
}

/// Who monitors an actor that is not there is told at once, that there is none.
pub proof fn lemma_monitoring_nobody_is_answered_at_once(
    state: StateView,
    actor: ActorId,
    other: ActorId,
    reference: Ref,
    after: StateView,
    exit: Option<ExitReason>,
)
    requires
        state.has(actor),
        super::ties::missing_reported(state, actor, other, reference, after, exit),
    ensures
        ({
            let held = state.actor(actor).mailbox;
            let queue = after.actor(actor).mailbox.queue;
            if held.capacity != usize::MAX && held.queue.len() >= held.capacity {
                exit is Some && overflowed(exit->0, actor, "down"@) && queue == held.queue
            } else {
                &&& exit is None
                &&& queue.len() == held.queue.len() + 1
                &&& queue.drop_last() == held.queue
                &&& queue.last().envelope == Envelope::Down(
                    DownMessage { reference, actor: other, reason: ExitReason::NoProc },
                )
            }
        }),
        after.actor(actor).monitors_out == state.actor(actor).monitors_out,
{
    let held = state.actor(actor).mailbox;
    let queue = after.actor(actor).mailbox.queue;
    if queue.len() > held.queue.len() {
        assert(queue.drop_last() =~= held.queue);
    }
}

/// What an exit signal does to a live actor: a kill, and a linked exit that is not normal unless
/// the actor traps exits, makes it exit with that reason; a linked normal exit that is not trapped
/// does nothing; and everything else is at the end of its mailbox, or makes it exit when the
/// mailbox is full.
pub proof fn lemma_what_an_exit_signal_does(
    state: StateView,
    target: ActorId,
    signal: ExitSignal,
    after: StateView,
)
    requires
        state.has(target),
        super::spec::signalled(state, target, signal, after),
    ensures
        after.has(target),
        ({
            let was = state.actor(target);
            let now = after.actor(target);
            if signal.reason is Kill || (signal.linked && !was.trap_exit && !(
            signal.reason is Normal)) {
                now.forced_exit == Some(signal.reason) && now.mailbox == was.mailbox
            } else if signal.linked && !was.trap_exit {
                now == was
            } else if was.mailbox.capacity != usize::MAX && was.mailbox.queue.len()
                >= was.mailbox.capacity {
                &&& now.forced_exit is Some
                &&& overflowed(now.forced_exit->0, target, "exit"@)
                &&& now.mailbox == was.mailbox
            } else {
                &&& now.forced_exit == was.forced_exit
                &&& now.mailbox.queue.len() == was.mailbox.queue.len() + 1
                &&& now.mailbox.queue.drop_last() == was.mailbox.queue
                &&& now.mailbox.queue.last().envelope == Envelope::Exit(signal)
            }
        }),
{
    let held = state.actor(target).mailbox.queue;
    let queue = after.actor(target).mailbox.queue;
    if queue.len() > held.len() {
        assert(queue.drop_last() =~= held);
    }
}

/// An envelope of the runtime is at the end of the mailbox of the live actor that it is for, or
/// makes it exit when the mailbox is full.
pub proof fn lemma_what_an_envelope_of_the_runtime_does(
    state: StateView,
    target: ActorId,
    envelope: Envelope,
    label: Seq<char>,
    after: StateView,
)
    requires
        state.has(target),
        envelope is Task || envelope is Timer || envelope is CallTimeout || envelope is Down
            || envelope is Exit || envelope is System,
        super::spec::runtime_sent(state, target, envelope, label, after),
    ensures
        after.has(target),
        ({
            let was = state.actor(target);
            let now = after.actor(target);
            if was.mailbox.capacity != usize::MAX && was.mailbox.queue.len()
                >= was.mailbox.capacity {
                &&& now.forced_exit is Some
                &&& overflowed(now.forced_exit->0, target, label)
                &&& now.mailbox == was.mailbox
            } else {
                &&& now.forced_exit == was.forced_exit
                &&& now.mailbox.queue.len() == was.mailbox.queue.len() + 1
                &&& now.mailbox.queue.drop_last() == was.mailbox.queue
                &&& now.mailbox.queue.last().envelope == envelope
            }
        }),
{
    let held = state.actor(target).mailbox.queue;
    let queue = after.actor(target).mailbox.queue;
    if queue.len() > held.len() {
        assert(queue.drop_last() =~= held);
    }
}

/// An actor whose hook panics terminates with an error that names it and tells of the panic.
pub proof fn lemma_a_panic_ends_the_actor(
    before: StateView,
    actor: ActorId,
    name: Seq<char>,
    detail: Option<String>,
    after: StateView,
    action: WorkerAction,
)
    requires
        before.has(actor),
        super::worker::panicked(before, actor, name, detail, after, action),
    ensures
        action matches WorkerAction::Terminate { name: own, reason } && {
            &&& own == before.actor(actor).name
            &&& reason is Error
            &&& detail matches Some(told) ==> reason->Error_0@ == "actor `"@ + name + "` ("@
                + actor.text() + ") panicked: "@ + told@
            &&& detail is None ==> reason->Error_0@ == "actor `"@ + name + "` ("@ + actor.text()
                + ") panicked: "@ + "unknown panic"@
        },
{
}

/// A runtime is idle exactly when every live actor waits with an empty mailbox, or is dead.
pub proof fn lemma_when_a_runtime_is_idle(state: StateView, id: ActorId)
    requires
        super::turns::all_idle(state.actors),
        state.has(id),
    ensures
        state.actor(id).mailbox.queue.len() == 0,
        state.actor(id).status is Waiting || state.actor(id).status is Dead,
{
}

/// A live actor that has mail, or that runs or can run, keeps the runtime from being idle.
pub proof fn lemma_work_keeps_a_runtime_busy(state: StateView, id: ActorId)
    requires
        state.has(id),
        state.actor(id).mailbox.queue.len() > 0 || state.actor(id).status is Running
            || state.actor(id).status is Runnable || state.actor(id).status is Starting,
    ensures
        !super::turns::all_idle(state.actors),
{
}

/// A receive changes nobody but the actor that receives, and nothing when it gives nothing.
pub proof fn lemma_a_receive_is_a_private_matter(
    before: StateView,
    actor: ActorId,
    answers: spec_fn(QueuedEnvelope, bool) -> bool,
    envelope: Option<Envelope>,
    after: StateView,
    other: ActorId,
)
    requires
        crate::runtime::table::table_ok(before.actors),
        super::turns::received(before, actor, answers, envelope, after),
    ensures
        envelope is None ==> after == before,
        !before.has(actor) ==> envelope is None,
        other.local_id != actor.local_id && before.has(other) ==> after.has(other) && after.actor(
            other,
        ) == before.actor(other),
        after.timers == before.timers,
        after.calls == before.calls,
        after.log == before.log,
        after.names == before.names,
        envelope is Some ==> after.actor(actor).mailbox.queue.len() + 1 == before.actor(
            actor,
        ).mailbox.queue.len(),
{
    if before.has(actor) && !before.actor(actor).has_claimed {
        crate::runtime::actor_laws::lemma_what_a_selective_receive_gives(
            before.actor(actor),
            answers,
            envelope,
            after.actor(actor),
        );
    }
}

/// A timeout is beaten by every envelope but its own firing.
pub proof fn lemma_what_beats_a_timeout(envelope: Envelope, token: crate::types::TimerToken)
    ensures
        envelope matches Envelope::Timer(fired)
            ==> crate::runtime::actor_state::beats_timeout(Some(envelope), token) == (fired.token
            != token),
        !(envelope is Timer) ==> crate::runtime::actor_state::beats_timeout(Some(envelope), token),
        !crate::runtime::actor_state::beats_timeout(None, token),
{
}

/// Links tie both actors and touch nobody else, and unlinking unties both.
pub proof fn lemma_what_linking_does(
    state: StateView,
    actor: ActorId,
    other: ActorId,
    third: ActorId,
)
    requires
        crate::runtime::table::table_ok(state.actors),
        state.has(actor),
        state.has(other),
        actor.local_id != other.local_id,
        third.local_id != actor.local_id,
        third.local_id != other.local_id,
    ensures
        ({
            let after = super::ties::linked(state, actor, other);
            &&& after.actor(actor).links == state.actor(actor).links.insert(other)
            &&& after.actor(other).links == state.actor(other).links.insert(actor)
            &&& after.actor(actor).mailbox == state.actor(actor).mailbox
            &&& after.actor(other).mailbox == state.actor(other).mailbox
            &&& after.has(third) == state.has(third)
            &&& state.has(third) ==> after.actor(third) == state.actor(third)
        }),
        ({
            let after = super::ties::unlinked(state, actor, other);
            &&& after.actor(actor).links == state.actor(actor).links.remove(other)
            &&& after.actor(other).links == state.actor(other).links.remove(actor)
            &&& after.has(third) == state.has(third)
            &&& state.has(third) ==> after.actor(third) == state.actor(third)
        }),
{
}

/// A monitor is known at both ends under its reference: the watcher knows whom it watches, and the
/// watched one who watches it; demonitoring takes both ends away.
pub proof fn lemma_what_monitoring_does(
    state: StateView,
    actor: ActorId,
    other: ActorId,
    reference: Ref,
)
    requires
        crate::runtime::table::table_ok(state.actors),
        state.has(actor),
        state.has(other),
        actor.local_id != other.local_id,
    ensures
        ({
            let after = super::ties::monitored(state, actor, other, reference);
            &&& after.actor(actor).monitors_out == state.actor(actor).monitors_out.insert(
                reference,
                other,
            )
            &&& after.actor(other).monitors_in == state.actor(other).monitors_in.insert(
                reference,
                actor,
            )
            &&& after.actor(actor).mailbox == state.actor(actor).mailbox
            &&& after.actor(other).mailbox == state.actor(other).mailbox
        }),
        ({
            let after = super::ties::demonitored(state, actor, other, reference);
            &&& after.actor(actor).monitors_out == state.actor(actor).monitors_out.remove(reference)
            &&& after.actor(other).monitors_in == state.actor(other).monitors_in.remove(reference)
        }),
{
}

/// An envelope that is sent to a live actor is the last one of its mailbox, as long as there is room
/// for it, for messages and requests besides the reserve; the sender learns of it when there is
/// none, or no such actor.
pub proof fn lemma_what_a_send_does(state: StateView, to: ActorId, envelope: Envelope)
    ensures
        !state.has(to) ==> super::spec::send_answer(state, to, envelope) == Err::<(), SendError>(
            SendError::NoProc(to),
        ),
        state.has(to) ==> {
            let was = state.actor(to).mailbox;
            let after = super::spec::sent(state, to, envelope);
            let now = after.actor(to).mailbox;
            let answer = super::spec::send_answer(state, to, envelope);
            let room = was.capacity == usize::MAX || (if envelope is User || envelope is Request {
                was.queue.len() + was.reserve < was.capacity
            } else {
                was.queue.len() < was.capacity
            });
            &&& after.has(to)
            &&& answer is Ok <==> room
            &&& room ==> crate::local::step_laws::has_got(was, now, envelope)
            &&& !room ==> now == was && answer == Err::<(), SendError>(
                SendError::MailboxFull { actor: to, capacity: was.capacity },
            )
        },
{
    if state.has(to) {
        let was = state.actor(to).mailbox.queue;
        let now = super::spec::sent(state, to, envelope).actor(to).mailbox.queue;
        if now.len() > was.len() {
            assert(now.drop_last() =~= was);
        }
    }
}

} // verus!
