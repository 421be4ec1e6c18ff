//! What the operations of the multicore runtime do to its state.

use vstd::prelude::*;

use crate::context::SendError;
use crate::envelope::{DownMessage, Envelope, ExitSignal};
use crate::internal::exit_signal::ExitDisposition;
use crate::lifecycle::{LifecycleView, ShutdownPhase};
use crate::runtime::actor_state::ActorView;
use crate::runtime::state::StateView;
use crate::types::{ActorId, ActorMetrics, ActorStatus, ExitReason, Ref};

verus! {

/// The state once a reply has cancelled the timeout of its call.
pub open spec fn call_settled(state: StateView, actor: ActorId, envelope: Envelope) -> StateView {
    match envelope {
        Envelope::Reply { reference, .. } => StateView {
            calls: state.calls.remove((actor, reference)),
            ..state
        },
        _ => state,
    }
}

/// The state after an envelope was sent to an actor.
pub open spec fn sent(state: StateView, actor: ActorId, envelope: Envelope) -> StateView {
    let settled = call_settled(state, actor, envelope);
    if settled.has(actor) {
        settled.with(settled.actor(actor).delivered(envelope))
    } else {
        settled
    }
}

/// The answer to an envelope that was sent to an actor.
pub open spec fn send_answer(state: StateView, actor: ActorId, envelope: Envelope) -> Result<
    (),
    SendError,
> {
    if !state.has(actor) {
        Err(SendError::NoProc(actor))
    } else if state.actor(actor).mailbox.refuses(envelope) {
        Err(state.actor(actor).full_error())
    } else {
        Ok(())
    }
}

/// The state once an actor has to exit at its next turn.
pub open spec fn doomed(state: StateView, actor: ActorId, reason: ExitReason) -> StateView {
    if state.has(actor) {
        let entry = state.actor(actor);
        state.with(
            ActorView {
                forced_exit: Some(reason),
                status: ActorStatus::Exiting,
                ..entry
            }.on_scheduler(Some(entry.scheduler_id)),
        )
    } else {
        state
    }
}

/// Whether a state follows from another one by the delivery of a runtime envelope: an actor whose
/// mailbox has no room for it has to exit.
pub open spec fn runtime_sent(
    state: StateView,
    actor: ActorId,
    envelope: Envelope,
    label: Seq<char>,
    after: StateView,
) -> bool {
    if send_answer(state, actor, envelope) matches Err(SendError::MailboxFull { .. }) {
        exists|reason: ExitReason| #[trigger]
            crate::internal::error::is_overflow(reason, actor, label) && after == doomed(
                sent(state, actor, envelope),
                actor,
                reason,
            )
    } else {
        after == sent(state, actor, envelope)
    }
}

/// Whether a state follows from another one by an exit signal.
pub open spec fn signalled(
    state: StateView,
    target: ActorId,
    signal: ExitSignal,
    after: StateView,
) -> bool {
    if !state.has(target) {
        after == state
    } else {
        match crate::internal::exit_signal::disposition(state.actor(target).trap_exit, signal) {
            ExitDisposition::KillNow => after == doomed(state, target, signal.reason),
            ExitDisposition::Ignore => after == state,
            ExitDisposition::Enqueue => runtime_sent(
                state,
                target,
                Envelope::Exit(signal),
                "exit"@,
                after,
            ),
        }
    }
}

/// The actor as a dead one; its ties stay on record.
pub open spec fn closed(actor: ActorView, reason: ExitReason) -> ActorView {
    ActorView {
        shutdown: None,
        status: ActorStatus::Dead,
        metrics: (ActorMetrics {
            last_exit: Some(reason),
            mailbox_len: 0,
            scheduler_id: None,
            ..actor.metrics
        }),
        registered_name: None,
        ..actor
    }
}

/// The state once an actor is gone, before the others are told.
pub open spec fn removed(state: StateView, actor: ActorId, reason: ExitReason) -> StateView {
    let entry = state.actor(actor);
    state.without(actor).released(actor).renounced(entry).shut_down(entry, reason).exited(
        entry,
        reason,
    ).archived(closed(entry, reason))
}

/// Whether a state follows from another one once a watcher is told that an actor is gone.
pub open spec fn watcher_told(
    state: StateView,
    actor: ActorId,
    reason: ExitReason,
    watch: (Ref, ActorId),
    after: StateView,
) -> bool {
    let (reference, watcher) = watch;
    if watcher == actor {
        after == state
    } else {
        runtime_sent(
            state.watching_removed(watcher, reference).logged(
                LifecycleView::Down { watcher, actor, reference, reason },
            ),
            watcher,
            Envelope::Down(DownMessage { reference, actor, reason }),
            "down"@,
            after,
        )
    }
}

/// Whether a state follows from another one once all watchers are told that an actor is gone.
pub open spec fn watchers_told(
    state: StateView,
    actor: ActorId,
    reason: ExitReason,
    watches: Seq<(Ref, ActorId)>,
    after: StateView,
) -> bool
    decreases watches.len(),
{
    if watches.len() == 0 {
        after == state
    } else {
        exists|middle: StateView|
            watchers_told(state, actor, reason, watches.drop_last(), middle)
                && #[trigger] watcher_told(middle, actor, reason, watches.last(), after)
    }
}

/// Whether a state follows from another one once a linked actor is told that an actor is gone.
pub open spec fn linked_told(
    state: StateView,
    actor: ActorId,
    reason: ExitReason,
    other: ActorId,
    after: StateView,
) -> bool {
    if other == actor {
        after == state
    } else {
        signalled(
            state.link_removed(other, actor),
            other,
            ExitSignal { from: actor, reason, linked: true },
            after,
        )
    }
}

/// Whether a state follows from another one once all linked actors are told that an actor is gone.
pub open spec fn all_linked_told(
    state: StateView,
    actor: ActorId,
    reason: ExitReason,
    links: Seq<ActorId>,
    after: StateView,
) -> bool
    decreases links.len(),
{
    if links.len() == 0 {
        after == state
    } else {
        exists|middle: StateView|
            all_linked_told(state, actor, reason, links.drop_last(), middle)
                && #[trigger] linked_told(middle, actor, reason, links.last(), after)
    }
}

/// Whether a state follows from another one by the exit of an actor: it is removed and reported,
/// its monitors on others vanish, its watchers get a notification each, and its links an exit
/// signal each, all in ascending order.
pub open spec fn finalized(
    state: StateView,
    actor: ActorId,
    reason: ExitReason,
    after: StateView,
) -> bool {
    if !state.has(actor) {
        after == state
    } else {
        let entry = state.actor(actor);
        exists|told: StateView| #[trigger]
            watchers_told(
                removed(state, actor, reason).watches_dropped(
                    actor,
                    crate::collections::ascending_pairs(entry.monitors_out),
                ),
                actor,
                reason,
                crate::collections::ascending_pairs(entry.monitors_in),
                told,
            ) && all_linked_told(
                told,
                actor,
                crate::internal::shutdown::link_reason(entry.shutdown is Some, reason),
                crate::collections::ascending(entry.links),
                after,
            )
    }
}

/// The state once a shutdown is requested, before the actor hears of it.
pub open spec fn shutdown_requested(
    state: StateView,
    requester: ActorId,
    actor: ActorId,
    policy: crate::types::Shutdown,
) -> StateView {
    let reported = state.logged(
        LifecycleView::Shutdown {
            requester,
            actor,
            policy,
            phase: ShutdownPhase::Requested,
            reason: None,
        },
    );
    reported.with(
        ActorView {
            shutdown: Some(crate::internal::shutdown::ShutdownTracker { requester, policy }),
            ..state.actor(actor)
        },
    )
}

} // verus!
