//! What an exit on the multicore runtime comes to for everybody that hears of it.

use vstd::prelude::*;

use crate::envelope::{DownMessage, Envelope, ExitSignal};
use crate::lifecycle::{LifecycleView, ShutdownPhase};
use crate::observability::events::KindView;
use crate::runtime::state::StateView;
use crate::types::{ActorId, ExitReason, Ref};

verus! {

/// Every live actor that is linked with one that exits sees the reason with which it exits,
/// whether or not somebody had asked it to shut down, unless it was killed. It has to exit with
/// that reason unless it traps exits or the exit is normal, and an actor that traps exits finds
/// the exit in its mailbox, or has to exit as well.
pub proof fn lemma_links_hear_the_exit_reason(
    state: StateView,
    actor: ActorId,
    reason: ExitReason,
    other: ActorId,
    after: StateView,
)
    requires
        crate::runtime::table::table_ok(state.actors),
        state.has(actor),
        state.actor(actor).links.contains(other),
        state.has(other),
        other != actor,
        !(reason is Kill),
        super::spec::finalized(state, actor, reason, after),
    ensures
        after.has(other),
        !state.actor(other).trap_exit && !(reason is Normal) ==> after.actor(other).forced_exit
            == Some(reason),
        state.actor(other).trap_exit ==> after.actor(other).forced_exit is Some || (after.actor(
            other,
        ).mailbox.queue.len() > state.actor(other).mailbox.queue.len() && after.actor(
            other,
        ).mailbox.queue.last().envelope == Envelope::Exit(
            ExitSignal { from: actor, reason, linked: true },
        )),
{
    super::laws::lemma_exit_reaches_linked_actors(state, actor, reason, other, after);
}

/// A kill takes every linked actor with it, also one that traps exits, unless it ends a shutdown
/// that somebody had asked for: then it is told as a shutdown.
pub proof fn lemma_links_hear_a_kill(
    state: StateView,
    actor: ActorId,
    other: ActorId,
    after: StateView,
)
    requires
        crate::runtime::table::table_ok(state.actors),
        state.has(actor),
        state.actor(actor).links.contains(other),
        state.has(other),
        other != actor,
        super::spec::finalized(state, actor, ExitReason::Kill, after),
    ensures
        after.has(other),
        state.actor(actor).shutdown is None ==> after.actor(other).forced_exit == Some(
            ExitReason::Kill,
        ),
        state.actor(actor).shutdown is Some && !state.actor(other).trap_exit ==> after.actor(
            other,
        ).forced_exit == Some(ExitReason::Shutdown),
        state.actor(actor).shutdown is Some && state.actor(other).trap_exit ==> after.actor(
            other,
        ).forced_exit is Some || after.actor(other).mailbox.queue.last().envelope
            == Envelope::Exit(
            ExitSignal { from: actor, reason: ExitReason::Shutdown, linked: true },
        ),
{
    super::laws::lemma_exit_reaches_linked_actors(state, actor, ExitReason::Kill, other, after);
}

/// A normal exit spares every linked actor that does not trap exits, whether or not somebody had
/// asked for the exit: it need not exit, and nothing is in its mailbox that was not there.
pub proof fn lemma_a_normal_exit_spares_links(
    state: StateView,
    actor: ActorId,
    other: ActorId,
    after: StateView,
)
    requires
        crate::runtime::table::table_ok(state.actors),
        state.has(actor),
        state.actor(actor).links.contains(other),
        state.has(other),
        other != actor,
        !state.actor(other).trap_exit,
        forall|reference: Ref|
            !(#[trigger] state.actor(actor).monitors_in.contains_key(reference)
                && state.actor(actor).monitors_in[reference] == other),
        super::spec::finalized(state, actor, ExitReason::Normal, after),
    ensures
        after.has(other),
        after.actor(other).forced_exit == state.actor(other).forced_exit,
        after.actor(other).mailbox == state.actor(other).mailbox,
        after.actor(other).status == state.actor(other).status,
        !after.actor(other).links.contains(actor),
{
    assert forall|reference: Ref| !#[trigger] super::laws::is_watched(
        state,
        actor,
        reference,
        other,
    ) by {
        assert(!(state.actor(actor).monitors_in.contains_key(reference) && state.actor(
            actor,
        ).monitors_in[reference] == other));
    }
    super::laws::lemma_exit_is_one_signal_for_linked_actors(
        state,
        actor,
        ExitReason::Normal,
        other,
        after,
    );
}

/// Every live watcher of an actor that exits finds a notification with the reference, the actor
/// and exactly the reason in its mailbox, unless it has to exit itself.
pub proof fn lemma_watchers_hear_the_exit_reason(
    state: StateView,
    actor: ActorId,
    reason: ExitReason,
    reference: Ref,
    watcher: ActorId,
    after: StateView,
)
    requires
        crate::runtime::table::table_ok(state.actors),
        state.has(actor),
        state.actor(actor).monitors_in.contains_key(reference),
        state.actor(actor).monitors_in[reference] == watcher,
        state.has(watcher),
        watcher != actor,
        super::spec::finalized(state, actor, reason, after),
    ensures
        after.has(watcher),
        after.actor(watcher).forced_exit is Some || exists|i: int|
            0 <= i < after.actor(watcher).mailbox.queue.len() && (#[trigger] after.actor(
                watcher,
            ).mailbox.queue[i]).envelope == Envelope::Down(
                DownMessage { reference, actor, reason },
            ),
{
    super::laws::lemma_exit_reaches_watchers(state, actor, reason, watcher, reference, after);
}

/// What is left of an actor that exits, before others are told: it is no longer live, its name is
/// free, none of its timers and calls is pending, its supervisor no longer counts it as running,
/// a requested shutdown is reported as completed, and the exit is reported with its reason, as a
/// crash too unless it is normal or by shutdown.
pub proof fn lemma_what_is_left_of_an_exited_actor(
    state: StateView,
    actor: ActorId,
    reason: ExitReason,
    reference: Ref,
    name: Seq<char>,
)
    requires
        crate::runtime::table::table_ok(state.actors),
        crate::registry::names_distinct(state.names),
        state.has(actor),
    ensures
        ({
            let entry = state.actor(actor);
            let after = super::spec::removed(state, actor, reason);
            let orderly = reason is Normal || reason is Shutdown;
            let start = state.log.len() as int;
            let exit_at = if entry.shutdown is Some {
                start + 1
            } else {
                start
            };
            &&& !after.has(actor)
            &&& after.names.contains_key(name) ==> after.names[name] != actor
            &&& !after.timers.contains((actor, reference))
            &&& !after.calls.contains((actor, reference))
            &&& after.completed.contains_key(actor)
            &&& after.completed[actor].status is Dead
            &&& after.completed[actor].metrics.last_exit == Some(reason)
            &&& after.log.len() == exit_at + (if orderly {
                1int
            } else {
                2int
            })
            &&& forall|i: int| 0 <= i < start ==> #[trigger] after.log[i] == state.log[i]
            &&& entry.shutdown matches Some(tracker) ==> after.log[start].kind
                == KindView::Lifecycle(
                LifecycleView::Shutdown {
                    requester: tracker.requester,
                    actor,
                    policy: tracker.policy,
                    phase: ShutdownPhase::Completed,
                    reason: Some(reason),
                },
            )
            &&& after.log[exit_at].kind == KindView::Lifecycle(
                LifecycleView::Exit {
                    actor,
                    name: entry.name,
                    reason,
                    parent: entry.parent,
                    ancestors: entry.ancestors,
                },
            )
            &&& !orderly ==> (after.log[exit_at + 1].kind matches KindView::Crash(report)
                && report.actor == actor && report.name == entry.name && report.reason == reason
                && report.parent == entry.parent && report.ancestors == entry.ancestors
                && report.supervisor_child == entry.supervisor_child && report.registered_name
                == entry.registered_name)
        }),
{
    if crate::registry::name_in(state.names, actor) is Some {
        let held = crate::registry::name_in(state.names, actor)->0;
        assert(state.names.contains_key(held) && state.names[held] == actor);
        if state.names.contains_key(name) && state.names[name] == actor {
            assert(state.names[held] == state.names[name]);
        }
    }
}

/// The supervisor of a child that exits no longer counts it as running, unless the child runs as
/// another actor by then.
pub proof fn lemma_a_supervisor_loses_a_child_that_exits(
    state: StateView,
    actor: ActorId,
    reason: ExitReason,
    parent: ActorId,
    child: &'static str,
)
    requires
        crate::runtime::table::table_ok(state.actors),
        state.has(actor),
        state.has(parent),
        parent.local_id != actor.local_id,
        state.actor(actor).parent == Some(parent),
        state.actor(actor).supervisor_child == Some(child),
        state.actor(parent).supervisor is Some,
    ensures
        ({
            let before = state.actor(parent).supervisor->0.running;
            let after = super::spec::removed(state, actor, reason).actor(
                parent,
            ).supervisor->0.running;
            &&& super::spec::removed(state, actor, reason).has(parent)
            &&& before.contains_key(child@) && before[child@] == actor ==> after == before.remove(
                child@,
            )
            &&& before.contains_key(child@) && before[child@] != actor ==> after == before
        }),
{
}

/// A notification of a watcher is reported with the watcher, the actor, the reference and the
/// reason.
pub proof fn lemma_a_notification_is_reported(
    state: StateView,
    actor: ActorId,
    reason: ExitReason,
    reference: Ref,
    watcher: ActorId,
    after: StateView,
)
    requires
        watcher != actor,
        super::spec::watcher_told(state, actor, reason, (reference, watcher), after),
    ensures
        after.log.len() == state.log.len() + 1,
        after.log.last().kind == KindView::Lifecycle(
            LifecycleView::Down { watcher, actor, reference, reason },
        ),
{
}

} // verus!
