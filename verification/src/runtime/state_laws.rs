//! What the changes of a runtime's state come to.

use vstd::prelude::*;

use crate::context::{SendError, SpawnError};
use crate::envelope::Envelope;
use crate::lifecycle::{LifecycleView, ShutdownPhase};
use crate::observability::events::KindView;
use crate::runtime::actor_state::ActorView;
use crate::runtime::state::StateView;
use crate::types::{ActorId, ExitReason, Ref, Shutdown, TimerToken};

verus! {

/// An event is put at the end of the log, under the next number and with the current time, and
/// nothing else changes.
pub proof fn lemma_an_event_is_logged(state: StateView, kind: KindView, event: LifecycleView)
    ensures
        ({
            let after = state.noted(kind);
            &&& after.log.len() == state.log.len() + 1
            &&& after.log.drop_last() == state.log
            &&& after.log.last().kind == kind
            &&& after.log.last().emitted_at == state.now
            &&& state.log.len() < u64::MAX ==> after.log.last().sequence == state.log.len() + 1
            &&& after == (StateView { log: after.log, ..state })
        }),
        state.logged(event).log.last().kind == KindView::Lifecycle(event),
        state.logged(event).log.len() == state.log.len() + 1,
        state.logged(event).log.drop_last() == state.log,
{
    assert(state.noted(kind).log.drop_last() =~= state.log);
    assert(state.logged(event).log.drop_last() =~= state.log);
}

/// A new actor is live in its place, counted, registered under the name that it asks for, and
/// reported; all others are as they were, but for its supervisor, which notes the child.
pub proof fn lemma_a_new_actor_is_admitted(state: StateView, actor: ActorView, other: ActorId)
    requires
        !state.actors.contains_key(actor.id.local_id),
        crate::runtime::table::table_ok(state.actors),
        state.live_actors < usize::MAX,
    ensures
        ({
            let after = state.admitted(actor);
            &&& after.has(actor.id)
            &&& actor.parent != Some(actor.id) ==> after.actor(actor.id) == actor
            &&& after.live_actors == state.live_actors + 1
            &&& after.log.len() == state.log.len() + 1
            &&& after.log.last().kind == KindView::Lifecycle(
                LifecycleView::Spawn {
                    actor: actor.id,
                    name: actor.name,
                    registered_name: actor.registered_name,
                    parent: actor.parent,
                    supervisor_child: actor.supervisor_child,
                },
            )
            &&& actor.registered_name is None ==> after.names == state.names
            &&& actor.registered_name matches Some(name) ==> (state.accepts_name(actor)
                && crate::registry::names_distinct(state.names) ==> after.names.contains_key(name@)
                && after.names[name@] == actor.id)
            &&& after.timers == state.timers && after.calls == state.calls
            &&& after.completed == state.completed
            &&& other != actor.id ==> after.has(other) == state.has(other)
            &&& state.has(other) && actor.parent != Some(other) ==> after.actor(other)
                == state.actor(other)
            &&& state.has(other) && actor.parent == Some(other) ==> after.actor(other)
                == (ActorView {
                supervisor: after.actor(other).supervisor,
                ..state.actor(other)
            })
            &&& state.has(other) && actor.parent == Some(other) && actor.supervisor_child
                is Some && state.actor(other).supervisor is Some ==> {
                let running = after.actor(other).supervisor->0.running;
                running.contains_key(actor.supervisor_child->0@)
                    && running[actor.supervisor_child->0@] == actor.id
            }
        }),
{
    if actor.registered_name is Some && state.accepts_name(actor)
        && crate::registry::names_distinct(state.names) {
        crate::registry::laws::lemma_registered_name_resolves(
            state.names,
            actor.id,
            actor.registered_name->0@,
        );
    }
}

/// A new actor is refused exactly when the runtime is full or the name that it asks for cannot be
/// had, and the error says which.
pub proof fn lemma_why_a_new_actor_is_refused(
    state: StateView,
    max_actors: usize,
    actor: ActorView,
    error: SpawnError,
)
    ensures
        state.has_room(max_actors) <==> state.live_actors < max_actors,
        actor.registered_name is None ==> state.accepts_name(actor),
        state.refuses_with(max_actors, actor, error) && state.live_actors >= max_actors
            ==> error is CapacityExceeded,
        state.refuses_with(max_actors, actor, error) && state.live_actors < max_actors
            ==> error is Registry,
{
}

/// What waits for an actor is cancelled when it is released, and its name is free; nothing of
/// other actors is.
pub proof fn lemma_releasing_cancels_what_waits(
    state: StateView,
    id: ActorId,
    other: ActorId,
    reference: Ref,
)
    requires
        crate::registry::names_distinct(state.names),
    ensures
        ({
            let after = state.released(id);
            &&& !after.timers.contains((id, reference))
            &&& !after.calls.contains((id, reference))
            &&& other != id ==> after.timers.contains((other, reference)) == state.timers.contains(
                (other, reference),
            )
            &&& other != id ==> after.calls.contains((other, reference)) == state.calls.contains(
                (other, reference),
            )
            &&& forall|name: Seq<char>| #[trigger]
                after.names.contains_key(name) <==> state.names.contains_key(name)
                    && state.names[name] != id
            &&& after.actors == state.actors && after.log == state.log
            &&& after.live_actors == state.live_actors && after.completed == state.completed
        }),
{
    let after = state.released(id);
    assert forall|name: Seq<char>| #[trigger] after.names.contains_key(name)
        <==> state.names.contains_key(name) && state.names[name] != id by {
        match crate::registry::name_in(state.names, id) {
            Some(held) => {
                assert(state.names.contains_key(held) && state.names[held] == id);
                if state.names.contains_key(name) && state.names[name] == id {
                    assert(state.names[name] == state.names[held]);
                }
            },
            None => {},
        }
    }
}

/// An exit is logged with its reason, and with a crash report behind it exactly when it was
/// neither normal nor a shutdown. The report names the actor, its parent and its ancestors.
pub proof fn lemma_an_exit_is_logged(state: StateView, actor: ActorView, reason: ExitReason)
    ensures
        ({
            let after = state.exited(actor, reason);
            let orderly = reason is Normal || reason is Shutdown;
            &&& after == (StateView { log: after.log, ..state })
            &&& after.log.len() == state.log.len() + (if orderly {
                1int
            } else {
                2
            })
            &&& after.log[state.log.len() as int].kind == KindView::Lifecycle(
                LifecycleView::Exit {
                    actor: actor.id,
                    name: actor.name,
                    reason,
                    parent: actor.parent,
                    ancestors: actor.ancestors,
                },
            )
            &&& !orderly ==> (after.log.last().kind matches KindView::Crash(crash) && {
                &&& crash.actor == actor.id
                &&& crash.name == actor.name
                &&& crash.registered_name == actor.registered_name
                &&& crash.parent == actor.parent
                &&& crash.ancestors == actor.ancestors
                &&& crash.supervisor_child == actor.supervisor_child
                &&& crash.reason == reason
                &&& actor.parent is None ==> crash.parent_context is None
                &&& actor.parent is Some && state.has(actor.parent->0)
                    ==> crash.parent_context is Some && crash.parent_context->0.actor
                    == state.actor(actor.parent->0).id && crash.parent_context->0.name
                    == state.actor(actor.parent->0).name
            })
        }),
{
}

/// The last snapshot of an actor that has exited is kept under its id, and one actor less is
/// live.
pub proof fn lemma_an_exit_is_archived(state: StateView, actor: ActorView, other: ActorId)
    ensures
        ({
            let after = state.archived(actor);
            &&& after.completed.contains_key(actor.id)
            &&& after.completed[actor.id] == actor.snapshot()
            &&& state.live_actors > 0 ==> after.live_actors == state.live_actors - 1
            &&& other != actor.id ==> after.completed.contains_key(other)
                == state.completed.contains_key(other)
            &&& other != actor.id && state.completed.contains_key(other) ==> after.completed[other]
                == state.completed[other]
            &&& after.actors == state.actors && after.names == state.names
            &&& after.log == state.log
        }),
{
}

/// The snapshot of a live actor shows it as it is; that of one that has exited is the one that
/// was kept; and there is none of an actor that never was.
pub proof fn lemma_snapshots_are_remembered(state: StateView, id: ActorId)
    ensures
        state.has(id) ==> state.snapshot_of(id) == Some(state.actor(id).snapshot()),
        !state.has(id) && state.completed.contains_key(id) ==> state.snapshot_of(id) == Some(
            state.completed[id],
        ),
        !state.has(id) && !state.completed.contains_key(id) ==> state.snapshot_of(id) is None,
        state.has(id) ==> (state.identity(id) matches Some(known) && known.actor == state.actor(
            id,
        ).id && known.name == state.actor(id).name && known.registered_name == state.actor(
            id,
        ).registered_name),
        !state.has(id) && state.completed.contains_key(id) ==> (state.identity(id) matches Some(
            known,
        ) && known.actor == state.completed[id].id && known.name == state.completed[id].name),
        !state.has(id) && !state.completed.contains_key(id) ==> state.identity(id) is None,
{
}

/// Who the ancestors of an actor are is listed in their order, without those that the runtime does
/// not remember.
pub proof fn lemma_ancestors_are_identified(state: StateView, ids: Seq<ActorId>, more: ActorId)
    ensures
        state.identities(Seq::<ActorId>::empty()).len() == 0,
        state.identity(more) is Some ==> state.identities(ids.push(more)) == state.identities(
            ids,
        ).push(state.identity(more)->0),
        state.identity(more) is None ==> state.identities(ids.push(more)) == state.identities(ids),
{
    assert(ids.push(more).drop_last() =~= ids);
}

/// A link is noted and removed at one end, and changes nothing else there or elsewhere.
pub proof fn lemma_one_end_of_a_link(state: StateView, at: ActorId, other: ActorId, third: ActorId)
    ensures
        state.has(at) ==> {
            let tied = state.link_added(at, other);
            let free = state.link_removed(at, other);
            &&& tied.actor(at).links.contains(other)
            &&& !free.actor(at).links.contains(other)
            &&& third != other ==> tied.actor(at).links.contains(third) == state.actor(
                at,
            ).links.contains(third) && free.actor(at).links.contains(third) == state.actor(
                at,
            ).links.contains(third)
            &&& tied.actor(at) == (ActorView {
                links: tied.actor(at).links,
                ..state.actor(at)
            })
            &&& free.actor(at) == (ActorView {
                links: free.actor(at).links,
                ..state.actor(at)
            })
        },
        !state.has(at) ==> state.link_added(at, other) == state && state.link_removed(at, other)
            == state,
        third.local_id != at.local_id ==> state.link_added(at, other).actor(third) == state.actor(
            third,
        ) && state.link_removed(at, other).actor(third) == state.actor(third),
        state.link_added(at, other).log == state.log,
        state.link_removed(at, other).log == state.log,
{
}

/// A monitor is noted and removed at one end, under its reference, and changes nothing else there
/// or elsewhere.
pub proof fn lemma_one_end_of_a_monitor(
    state: StateView,
    at: ActorId,
    reference: Ref,
    other: ActorId,
    another: Ref,
)
    ensures
        state.has(at) ==> {
            let watched = state.watch_added(at, reference, other).actor(at);
            let watching = state.watching_added(at, reference, other).actor(at);
            let unwatched = state.watch_removed(at, reference).actor(at);
            let idle = state.watching_removed(at, reference).actor(at);
            let was = state.actor(at);
            &&& watched.monitors_in.contains_key(reference) && watched.monitors_in[reference]
                == other && watched.monitors_out == was.monitors_out
            &&& watching.monitors_out.contains_key(reference) && watching.monitors_out[reference]
                == other && watching.monitors_in == was.monitors_in
            &&& !unwatched.monitors_in.contains_key(reference) && unwatched.monitors_out
                == was.monitors_out
            &&& !idle.monitors_out.contains_key(reference) && idle.monitors_in == was.monitors_in
            &&& another != reference ==> {
                &&& watched.monitors_in.contains_key(another) == was.monitors_in.contains_key(
                    another,
                )
                &&& unwatched.monitors_in.contains_key(another) == was.monitors_in.contains_key(
                    another,
                )
                &&& watching.monitors_out.contains_key(another) == was.monitors_out.contains_key(
                    another,
                )
                &&& idle.monitors_out.contains_key(another) == was.monitors_out.contains_key(
                    another,
                )
            }
            &&& watched.mailbox == was.mailbox && watching.mailbox == was.mailbox
            &&& unwatched.mailbox == was.mailbox && idle.mailbox == was.mailbox
            &&& watched.links == was.links && watching.links == was.links
            &&& unwatched.links == was.links && idle.links == was.links
        },
{
}

/// The answer to an envelope: there is nobody to take it exactly when the actor is not in its
/// place, its mailbox has no room, and the answer names the actor and the capacity, or it is
/// taken.
pub proof fn lemma_what_a_sender_learns(state: StateView, to: ActorId, envelope: Envelope)
    ensures
        ({
            let answer = crate::concurrent::spec::send_answer(state, to, envelope);
            &&& !state.has(to) ==> answer == Err::<(), SendError>(SendError::NoProc(to))
            &&& state.has(to) && state.actor(to).mailbox.refuses(envelope) ==> answer == Err::<
                (),
                SendError,
            >(
                SendError::MailboxFull {
                    actor: state.actor(to).id,
                    capacity: state.actor(to).mailbox.capacity,
                },
            )
            &&& state.has(to) && !state.actor(to).mailbox.refuses(envelope) ==> answer is Ok
        }),
{
}

/// What is sent arrives at the end of the mailbox of the actor that it is sent to, and nowhere
/// else; nothing arrives that is refused. A reply ends the timeout of its call, and no other.
pub proof fn lemma_what_is_sent_arrives(
    state: StateView,
    to: ActorId,
    envelope: Envelope,
    other: ActorId,
    call: (ActorId, Ref),
)
    ensures
        ({
            let after = crate::concurrent::spec::sent(state, to, envelope);
            &&& after.has(to) == state.has(to)
            &&& state.has(to) && !state.actor(to).mailbox.refuses(envelope) ==> {
                let queue = after.actor(to).mailbox.queue;
                &&& queue.len() == state.actor(to).mailbox.queue.len() + 1
                &&& queue.drop_last() == state.actor(to).mailbox.queue
                &&& queue.last().envelope == envelope
            }
            &&& state.has(to) && state.actor(to).mailbox.refuses(envelope) ==> after.actor(
                to,
            ).mailbox == state.actor(to).mailbox
            &&& other.local_id != to.local_id ==> after.actor(other) == state.actor(other)
            &&& after.log == state.log && after.names == state.names
            &&& after.timers == state.timers && after.live_actors == state.live_actors
            &&& after.completed == state.completed
            &&& after.calls.contains(call) <==> state.calls.contains(call) && !(
            envelope matches Envelope::Reply { reference, .. } && call == (to, reference))
        }),
{
    super::actor_laws::lemma_a_delivery_ends_up_in_the_mailbox(state.actor(to), envelope);
    let entry = crate::mailbox::QueuedEnvelope {
        sequence: state.actor(to).mailbox.next_sequence,
        envelope,
    };
    assert(state.actor(to).mailbox.queue.push(entry).drop_last()
        =~= state.actor(to).mailbox.queue);
}

/// A forced exit waits for the actor with its reason; nothing of its mail or of others changes.
pub proof fn lemma_a_forced_exit_waits(
    state: StateView,
    id: ActorId,
    reason: ExitReason,
    other: ActorId,
)
    ensures
        state.has(id) ==> {
            let after = crate::concurrent::spec::doomed(state, id, reason);
            &&& after.actor(id).forced_exit == Some(reason)
            &&& after.actor(id).status is Exiting
            &&& after.actor(id).mailbox == state.actor(id).mailbox
            &&& after.actor(id).links == state.actor(id).links
            &&& after.actor(id).id == state.actor(id).id
            &&& after.actor(id).shutdown == state.actor(id).shutdown
        },
        !state.has(id) ==> crate::concurrent::spec::doomed(state, id, reason) == state,
        other.local_id != id.local_id ==> crate::concurrent::spec::doomed(state, id, reason).actor(
            other,
        ) == state.actor(other),
        crate::concurrent::spec::doomed(state, id, reason).log == state.log,
{
}

/// A requested shutdown is noted with who asked for it and how, and logged; the actor is otherwise
/// as it was.
pub proof fn lemma_a_shutdown_request_is_noted(
    state: StateView,
    requester: ActorId,
    actor: ActorId,
    policy: Shutdown,
)
    requires
        state.has(actor),
    ensures
        ({
            let after = crate::concurrent::spec::shutdown_requested(
                state,
                requester,
                actor,
                policy,
            );
            &&& after.actor(actor).shutdown matches Some(tracker) && tracker.requester == requester
                && tracker.policy == policy
            &&& after.actor(actor) == (ActorView {
                shutdown: after.actor(actor).shutdown,
                ..state.actor(actor)
            })
            &&& after.log.len() == state.log.len() + 1
            &&& after.log.last().kind == KindView::Lifecycle(
                LifecycleView::Shutdown {
                    requester,
                    actor,
                    policy,
                    phase: ShutdownPhase::Requested,
                    reason: None,
                },
            )
        }),
{
}

/// The end of a requested shutdown is logged with the reason of the exit; without a request
/// nothing is.
pub proof fn lemma_a_completed_shutdown_is_logged(
    state: StateView,
    actor: ActorView,
    reason: ExitReason,
)
    ensures
        actor.shutdown is None ==> state.shut_down(actor, reason) == state,
        actor.shutdown matches Some(tracker) ==> {
            let after = state.shut_down(actor, reason);
            &&& after.log.len() == state.log.len() + 1
            &&& after.log.last().kind == KindView::Lifecycle(
                LifecycleView::Shutdown {
                    requester: tracker.requester,
                    actor: actor.id,
                    policy: tracker.policy,
                    phase: ShutdownPhase::Completed,
                    reason: Some(reason),
                },
            )
        },
{
}

/// A supervised actor that is gone is cleared from what its parent knows, unless another actor has
/// taken its place meanwhile.
pub proof fn lemma_a_parent_notes_that_a_child_is_gone(
    state: StateView,
    actor: ActorView,
    parent: ActorId,
    child: &'static str,
)
    requires
        actor.parent == Some(parent),
        actor.supervisor_child == Some(child),
        state.has(parent),
        state.actor(parent).id == parent,
        state.actor(parent).supervisor is Some,
    ensures
        ({
            let before = state.actor(parent).supervisor->0.running;
            let after = state.renounced(actor).actor(parent).supervisor->0.running;
            &&& before.contains_key(child@) && before[child@] == actor.id ==> !after.contains_key(
                child@,
            )
            &&& before.contains_key(child@) && before[child@] != actor.id ==> after.contains_key(
                child@,
            ) && after[child@] == before[child@]
        }),
        state.renounced(actor).log == state.log,
        state.renounced(actor).actor(parent).mailbox == state.actor(parent).mailbox,
{
}

/// A cancelled timer is not set any more, and every other timer is as it was.
pub proof fn lemma_cancelling_touches_one_timer(
    state: StateView,
    id: ActorId,
    token: TimerToken,
    other: (ActorId, Ref),
)
    ensures
        !state.timer_cancelled(id, token).timers.contains((id, token.spec_ref())),
        other != (id, token.spec_ref()) ==> state.timer_cancelled(id, token).timers.contains(other)
            == state.timers.contains(other),
        state.timer_cancelled(id, token).calls == state.calls,
        state.timer_cancelled(id, token).log == state.log,
        state.timer_cancelled(id, token).names == state.names,
{
}

/// A parent that supervises a new actor knows it by its child id; nobody else changes.
pub proof fn lemma_a_parent_notes_that_a_child_runs(
    state: StateView,
    actor: ActorView,
    parent: ActorId,
    child: &'static str,
    other: ActorId,
)
    requires
        super::table::table_ok(state.actors),
        actor.parent == Some(parent),
        actor.supervisor_child == Some(child),
        state.has(parent),
        state.actor(parent).supervisor is Some,
        other.local_id != parent.local_id,
    ensures
        ({
            let after = state.announced(actor);
            &&& after.has(parent)
            &&& after.actor(parent).supervisor is Some
            &&& after.actor(parent).supervisor->0.running == state.actor(
                parent,
            ).supervisor->0.running.insert(child@, actor.id)
            &&& after.actor(parent).mailbox == state.actor(parent).mailbox
            &&& after.has(other) == state.has(other)
            &&& state.has(other) ==> after.actor(other) == state.actor(other)
        }),
{
}

/// A runtime begins with nothing: no actors, no names, no timers, no calls, an empty log and all
/// counters at zero.
pub proof fn lemma_a_runtime_begins_empty(id: ActorId, name: Seq<char>)
    ensures
        ({
            let blank = StateView::blank();
            &&& !blank.has(id)
            &&& !blank.completed.contains_key(id)
            &&& !blank.names.contains_key(name)
            &&& blank.live_actors == 0
            &&& blank.timers == Set::<(ActorId, Ref)>::empty()
            &&& blank.calls == Set::<(ActorId, Ref)>::empty()
            &&& blank.log.len() == 0
            &&& blank.metrics.normal_turns == 0
            &&& blank.metrics.idle_turns == 0
            &&& blank.metrics.blocking_io_jobs == 0
            &&& blank.metrics.blocking_cpu_jobs == 0
        }),
{
}

} // verus!
