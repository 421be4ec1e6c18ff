//! What holds of ties and counts in every state that the multicore runtime can reach.

use vstd::prelude::*;

use crate::context::SpawnOptions;
use crate::envelope::{Envelope, ExitSignal};
use crate::internal::exit_signal::ExitDisposition;
use crate::runtime::actor_state::ActorView;
use crate::runtime::state::StateView;
use crate::scheduler::SchedulerConfig;
use crate::types::{ActorId, ExitReason, Ref, Shutdown};

verus! {

/// Whether all ids that occur in ties are of actors that have been started, given the slot of the
/// next one.
pub open spec fn ties_known(state: StateView, next: u64) -> bool {
    forall|slot: u64| #[trigger]
        state.actors.contains_key(slot) ==> {
            &&& slot < next
            &&& forall|id: ActorId| #[trigger]
                state.actors[slot].links.contains(id) ==> id.local_id < next
            &&& forall|reference: Ref| #[trigger]
                state.actors[slot].monitors_in.contains_key(reference)
                    ==> state.actors[slot].monitors_in[reference].local_id < next
            &&& forall|reference: Ref| #[trigger]
                state.actors[slot].monitors_out.contains_key(reference)
                    ==> state.actors[slot].monitors_out[reference].local_id < next
        }
}

/// Whether all ties between live actors are noted at both ends, and none is with an actor that
/// has yet to be started.
pub open spec fn ties_sound(state: StateView, next: u64) -> bool {
    &&& super::laws::links_mutual(state)
    &&& super::laws::monitors_mutual(state)
    &&& ties_known(state, next)
}

/// A runtime without actors has sound ties.
pub proof fn lemma_no_actors_no_ties(state: StateView, next: u64)
    requires
        state.actors == Map::<u64, ActorView>::empty(),
    ensures
        ties_sound(state, next),
{
}

/// What leaves the ties of every actor as they are keeps them sound.
pub proof fn lemma_same_ties_stay_sound(before: StateView, after: StateView, next: u64)
    requires
        ties_sound(before, next),
        after.actors.dom() == before.actors.dom(),
        forall|slot: u64| #[trigger]
            before.actors.contains_key(slot) ==> {
                &&& after.actors[slot].id == before.actors[slot].id
                &&& after.actors[slot].links == before.actors[slot].links
                &&& after.actors[slot].monitors_in == before.actors[slot].monitors_in
                &&& after.actors[slot].monitors_out == before.actors[slot].monitors_out
            },
    ensures
        ties_sound(after, next),
{
    assert forall|id: ActorId| #[trigger] after.has(id) == before.has(id) by {}
    assert forall|actor: ActorId, other: ActorId| #[trigger]
        super::laws::is_linked(after, actor, other) == super::laws::is_linked(before, actor, other) by {}
    assert forall|watcher: ActorId, reference: Ref, target: ActorId| #[trigger]
        super::laws::is_watching(after, watcher, reference, target) == super::laws::is_watching(
            before,
            watcher,
            reference,
            target,
        ) by {}
    assert forall|target: ActorId, reference: Ref, watcher: ActorId| #[trigger]
        super::laws::is_watched(after, target, reference, watcher) == super::laws::is_watched(
            before,
            target,
            reference,
            watcher,
        ) by {}
    assert forall|slot: u64| #[trigger] after.actors.contains_key(slot) implies {
        &&& slot < next
        &&& forall|id: ActorId| #[trigger]
            after.actors[slot].links.contains(id) ==> id.local_id < next
        &&& forall|reference: Ref| #[trigger]
            after.actors[slot].monitors_in.contains_key(reference)
                ==> after.actors[slot].monitors_in[reference].local_id < next
        &&& forall|reference: Ref| #[trigger]
            after.actors[slot].monitors_out.contains_key(reference)
                ==> after.actors[slot].monitors_out[reference].local_id < next
    } by {
        assert(before.actors.contains_key(slot));
    }
}

/// A change of one actor that leaves its ties as they are keeps all ties sound.
pub proof fn lemma_own_change_keeps_ties_sound(state: StateView, next: u64, actor: ActorView)
    requires
        ties_sound(state, next),
        state.has(actor.id),
        actor.links == state.actor(actor.id).links,
        actor.monitors_in == state.actor(actor.id).monitors_in,
        actor.monitors_out == state.actor(actor.id).monitors_out,
    ensures
        ties_sound(state.with(actor), next),
{
    assert(state.with(actor).actors.dom() =~= state.actors.dom());
    lemma_same_ties_stay_sound(state, state.with(actor), next);
}

/// Running an actor keeps all ties sound: its start, the claim of an envelope, its turns, and its
/// waits.
pub proof fn lemma_turns_keep_ties_sound(
    state: StateView,
    next: u64,
    actor: ActorId,
    exiting: bool,
    at: int,
)
    requires
        ties_sound(state, next),
        state.has(actor),
    ensures
        ties_sound(state.with(super::turns::running(state.actor(actor))), next),
        ties_sound(state.with(super::turns::initialized(state.actor(actor), exiting)), next),
        ties_sound(state.with(state.actor(actor).claimed(at)), next),
        ties_sound(state.with(super::turns::turning(state.actor(actor))), next),
        ties_sound(state.with(super::turns::turned(state.actor(actor))), next),
        ties_sound(state.with(super::turns::waiting(state.actor(actor))), next),
        ties_sound(state.with(super::turns::leaving(state.actor(actor))), next),
{
    let entry = state.actor(actor);
    lemma_own_change_keeps_ties_sound(state, next, super::turns::running(entry));
    lemma_own_change_keeps_ties_sound(state, next, super::turns::initialized(entry, exiting));
    lemma_own_change_keeps_ties_sound(state, next, entry.claimed(at));
    lemma_own_change_keeps_ties_sound(state, next, super::turns::turning(entry));
    lemma_own_change_keeps_ties_sound(state, next, super::turns::turned(entry));
    lemma_own_change_keeps_ties_sound(state, next, super::turns::waiting(entry));
    lemma_own_change_keeps_ties_sound(state, next, super::turns::leaving(entry));
}

/// A forced exit ahead of an actor keeps all ties sound.
pub proof fn lemma_forced_exit_keeps_ties_sound(
    state: StateView,
    next: u64,
    actor: ActorId,
    reason: ExitReason,
)
    requires
        ties_sound(state, next),
    ensures
        ties_sound(super::spec::doomed(state, actor, reason), next),
{
    let after = super::spec::doomed(state, actor, reason);
    if state.has(actor) {
        lemma_own_change_keeps_ties_sound(state, next, after.actor(actor));
        assert(after == state.with(after.actor(actor)));
    }
}

/// The delivery of an envelope keeps all ties sound, whether or not there is room for it.
pub proof fn lemma_delivery_keeps_ties_sound(
    state: StateView,
    next: u64,
    actor: ActorId,
    envelope: Envelope,
)
    requires
        ties_sound(state, next),
    ensures
        ties_sound(super::spec::sent(state, actor, envelope), next),
{
    let settled = super::spec::call_settled(state, actor, envelope);
    lemma_same_ties_stay_sound(state, settled, next);
    if settled.has(actor) {
        lemma_own_change_keeps_ties_sound(
            settled,
            next,
            settled.actor(actor).delivered(envelope),
        );
    }
}

/// An envelope of the runtime itself keeps all ties sound, also where it finds no room and the
/// actor has to exit.
pub proof fn lemma_runtime_envelope_keeps_ties_sound(
    state: StateView,
    next: u64,
    actor: ActorId,
    envelope: Envelope,
    label: Seq<char>,
    after: StateView,
)
    requires
        ties_sound(state, next),
        super::spec::runtime_sent(state, actor, envelope, label, after),
    ensures
        ties_sound(after, next),
{
    let delivered = super::spec::sent(state, actor, envelope);
    lemma_delivery_keeps_ties_sound(state, next, actor, envelope);
    if after != delivered {
        let reason = choose|reason: ExitReason| #[trigger]
            crate::internal::error::is_overflow(reason, actor, label)
                && after == super::spec::doomed(delivered, actor, reason);
        lemma_forced_exit_keeps_ties_sound(delivered, next, actor, reason);
    }
}

/// An exit signal keeps all ties sound, whatever comes of it.
pub proof fn lemma_signal_keeps_ties_sound(
    state: StateView,
    next: u64,
    target: ActorId,
    signal: ExitSignal,
    after: StateView,
)
    requires
        ties_sound(state, next),
        super::spec::signalled(state, target, signal, after),
    ensures
        ties_sound(after, next),
{
    if state.has(target) {
        match crate::internal::exit_signal::disposition(state.actor(target).trap_exit, signal) {
            ExitDisposition::KillNow => {
                lemma_forced_exit_keeps_ties_sound(state, next, target, signal.reason);
            },
            ExitDisposition::Ignore => {},
            ExitDisposition::Enqueue => {
                lemma_runtime_envelope_keeps_ties_sound(
                    state,
                    next,
                    target,
                    Envelope::Exit(signal),
                    "exit"@,
                    after,
                );
            },
        }
    }
}

/// A request for a shutdown keeps all ties sound.
pub proof fn lemma_shutdown_request_keeps_ties_sound(
    state: StateView,
    next: u64,
    requester: ActorId,
    actor: ActorId,
    policy: Shutdown,
)
    requires
        ties_sound(state, next),
        state.has(actor),
    ensures
        ties_sound(super::spec::shutdown_requested(state, requester, actor, policy), next),
{
    let after = super::spec::shutdown_requested(state, requester, actor, policy);
    assert(after.actors.dom() =~= state.actors.dom());
    lemma_same_ties_stay_sound(state, after, next);
}

/// Linking two live actors keeps all ties sound and links both with each other.
pub proof fn lemma_link_ties_both(state: StateView, next: u64, actor: ActorId, other: ActorId)
    requires
        ties_sound(state, next),
        state.has(actor),
        state.has(other),
        actor != other,
    ensures
        ties_sound(super::ties::linked(state, actor, other), next),
        super::laws::is_linked(super::ties::linked(state, actor, other), actor, other),
        super::laws::is_linked(super::ties::linked(state, actor, other), other, actor),
{
    let after = super::ties::linked(state, actor, other);
    assert(state.actors.contains_key(actor.local_id) && state.actors.contains_key(other.local_id));
    assert forall|id: ActorId| #[trigger] after.has(id) == state.has(id) by {}
    assert forall|one: ActorId, two: ActorId| #[trigger]
        super::laws::is_linked(after, one, two) == (super::laws::is_linked(state, one, two) || (one == actor && two == other)
            || (one == other && two == actor)) by {}
    assert(after.actors.dom() =~= state.actors.dom());
    lemma_monitors_untouched(state, after);
}

proof fn lemma_monitors_untouched(before: StateView, after: StateView)
    requires
        super::laws::monitors_mutual(before),
        after.actors.dom() == before.actors.dom(),
        forall|slot: u64| #[trigger]
            before.actors.contains_key(slot) ==> {
                &&& after.actors[slot].id == before.actors[slot].id
                &&& after.actors[slot].monitors_in == before.actors[slot].monitors_in
                &&& after.actors[slot].monitors_out == before.actors[slot].monitors_out
            },
    ensures
        super::laws::monitors_mutual(after),
{
    assert forall|id: ActorId| #[trigger] after.has(id) == before.has(id) by {}
    assert forall|watcher: ActorId, reference: Ref, target: ActorId| #[trigger]
        super::laws::is_watching(after, watcher, reference, target) == super::laws::is_watching(
            before,
            watcher,
            reference,
            target,
        ) by {}
    assert forall|target: ActorId, reference: Ref, watcher: ActorId| #[trigger]
        super::laws::is_watched(after, target, reference, watcher) == super::laws::is_watched(
            before,
            target,
            reference,
            watcher,
        ) by {}
}

/// Unlinking two actors keeps all ties sound, and neither is linked with the other any more.
pub proof fn lemma_unlink_unties_both(state: StateView, next: u64, actor: ActorId, other: ActorId)
    requires
        ties_sound(state, next),
        state.has(actor),
        state.has(other),
        actor != other,
    ensures
        ties_sound(super::ties::unlinked(state, actor, other), next),
        !super::laws::is_linked(super::ties::unlinked(state, actor, other), actor, other),
        !super::laws::is_linked(super::ties::unlinked(state, actor, other), other, actor),
{
    let after = super::ties::unlinked(state, actor, other);
    assert(state.actors.contains_key(actor.local_id) && state.actors.contains_key(other.local_id));
    assert forall|id: ActorId| #[trigger] after.has(id) == state.has(id) by {}
    assert forall|one: ActorId, two: ActorId| #[trigger]
        super::laws::is_linked(after, one, two) == (super::laws::is_linked(state, one, two) && !(one == actor && two == other)
            && !(one == other && two == actor)) by {}
    assert(after.actors.dom() =~= state.actors.dom());
    lemma_monitors_untouched(state, after);
}

/// Unlinking undoes linking.
pub proof fn lemma_unlink_undoes_link(state: StateView, actor: ActorId, other: ActorId)
    requires
        state.has(actor),
        state.has(other),
        actor != other,
        !super::laws::is_linked(state, actor, other),
        !super::laws::is_linked(state, other, actor),
    ensures
        super::ties::unlinked(super::ties::linked(state, actor, other), actor, other) == state,
{
    let after = super::ties::unlinked(super::ties::linked(state, actor, other), actor, other);
    assert(state.actor(actor).links.insert(other).remove(other) =~= state.actor(actor).links);
    assert(state.actor(other).links.insert(actor).remove(actor) =~= state.actor(other).links);
    assert(after.actors =~= state.actors);
}


/// A monitor on a live actor under an unused reference keeps all ties sound and is noted at both
/// ends.
pub proof fn lemma_monitor_ties_both(
    state: StateView,
    next: u64,
    actor: ActorId,
    other: ActorId,
    reference: Ref,
)
    requires
        ties_sound(state, next),
        state.has(actor),
        state.has(other),
        super::laws::unused(state, reference),
    ensures
        ties_sound(super::ties::monitored(state, actor, other, reference), next),
        super::laws::is_watching(
            super::ties::monitored(state, actor, other, reference),
            actor,
            reference,
            other,
        ),
        super::laws::is_watched(
            super::ties::monitored(state, actor, other, reference),
            other,
            reference,
            actor,
        ),
{
    let after = super::ties::monitored(state, actor, other, reference);
    assert(state.actors.contains_key(actor.local_id) && state.actors.contains_key(other.local_id));
    assert forall|id: ActorId| #[trigger] after.has(id) == state.has(id) by {}
    assert forall|one: ActorId, two: ActorId| #[trigger]
        super::laws::is_linked(after, one, two) == super::laws::is_linked(state, one, two) by {}
    assert forall|watcher: ActorId, used: Ref, target: ActorId| #[trigger]
        super::laws::is_watching(after, watcher, used, target) == (super::laws::is_watching(
            state,
            watcher,
            used,
            target,
        ) || (watcher == actor && used == reference && target == other)) by {
        if state.has(watcher) {
            assert(state.actors.contains_key(watcher.local_id));
        }
    }
    assert forall|target: ActorId, used: Ref, watcher: ActorId| #[trigger]
        super::laws::is_watched(after, target, used, watcher) == (super::laws::is_watched(
            state,
            target,
            used,
            watcher,
        ) || (watcher == actor && used == reference && target == other)) by {
        if state.has(target) {
            assert(state.actors.contains_key(target.local_id));
        }
    }
    assert(after.actors.dom() =~= state.actors.dom());
}

/// Ending a monitor keeps all ties sound and removes it at both ends.
pub proof fn lemma_demonitor_unties_both(
    state: StateView,
    next: u64,
    actor: ActorId,
    reference: Ref,
)
    requires
        ties_sound(state, next),
        state.has(actor),
        state.actor(actor).monitors_out.contains_key(reference),
    ensures
        ({
            let other = state.actor(actor).monitors_out[reference];
            let after = super::ties::demonitored(state, actor, other, reference);
            &&& ties_sound(after, next)
            &&& !super::laws::is_watching(after, actor, reference, other)
            &&& !super::laws::is_watched(after, other, reference, actor)
        }),
{
    let other = state.actor(actor).monitors_out[reference];
    let after = super::ties::demonitored(state, actor, other, reference);
    assert(super::laws::is_watching(state, actor, reference, other));
    assert forall|id: ActorId| #[trigger] after.has(id) == state.has(id) by {}
    assert forall|one: ActorId, two: ActorId| #[trigger]
        super::laws::is_linked(after, one, two) == super::laws::is_linked(state, one, two) by {}
    assert forall|watcher: ActorId, used: Ref, target: ActorId| #[trigger]
        super::laws::is_watching(after, watcher, used, target) == (super::laws::is_watching(
            state,
            watcher,
            used,
            target,
        ) && !(watcher == actor && used == reference)) by {}
    assert forall|target: ActorId, used: Ref, watcher: ActorId| #[trigger]
        super::laws::is_watched(after, target, used, watcher) == (super::laws::is_watched(
            state,
            target,
            used,
            watcher,
        ) && !(target == other && used == reference)) by {}
    assert forall|watcher: ActorId, used: Ref, target: ActorId| #[trigger]
        super::laws::is_watching(after, watcher, used, target) && after.has(
            target,
        ) implies super::laws::is_watched(after, target, used, watcher) by {
        assert(super::laws::is_watching(state, watcher, used, target));
        assert(super::laws::is_watched(state, target, used, watcher));
        if target == other && used == reference {
            assert(super::laws::is_watched(state, other, reference, actor));
        }
    }
    assert forall|target: ActorId, used: Ref, watcher: ActorId| #[trigger]
        super::laws::is_watched(after, target, used, watcher) && after.has(
            watcher,
        ) implies super::laws::is_watching(after, watcher, used, target) by {
        assert(super::laws::is_watched(state, target, used, watcher));
        assert(super::laws::is_watching(state, watcher, used, target));
    }
    assert(after.actors.dom() =~= state.actors.dom());
}

/// Ending a monitor that has just been set up leaves everything as it was.
pub proof fn lemma_demonitor_undoes_monitor(
    state: StateView,
    actor: ActorId,
    other: ActorId,
    reference: Ref,
)
    requires
        state.has(actor),
        state.has(other),
        super::laws::unused(state, reference),
    ensures
        super::ties::demonitored(
            super::ties::monitored(state, actor, other, reference),
            actor,
            other,
            reference,
        ) == state,
{
    assert(state.actors.contains_key(actor.local_id) && state.actors.contains_key(other.local_id));
    let after = super::ties::demonitored(
        super::ties::monitored(state, actor, other, reference),
        actor,
        other,
        reference,
    );
    let watching = state.actor(actor).monitors_out;
    let watched = state.actor(other).monitors_in;
    assert(watching.insert(reference, other).remove(reference) =~= watching);
    assert(watched.insert(reference, actor).remove(reference) =~= watched);
    assert(after.actors =~= state.actors);
}

/// A new actor keeps all ties sound, as long as its parent is not one that has yet to be started,
/// and is linked with a live parent at both ends when it asks for that.
pub proof fn lemma_spawn_keeps_ties_sound(
    state: StateView,
    next: u64,
    name: &'static str,
    options: SpawnOptions,
    config: SchedulerConfig,
)
    requires
        ties_sound(state, next),
        next < u64::MAX,
        options.parent matches Some(parent) ==> parent.local_id < next,
    ensures
        ({
            let id = ActorId { local_id: next, generation: 0 };
            let actor = ActorView::fresh(
                id,
                name,
                options,
                config,
                super::state::scheduler_of(config, id),
            );
            let after = super::state::joined(state, actor, options.link_to_parent);
            &&& ties_sound(after, (next + 1) as u64)
            &&& after.has(id)
            &&& options.link_to_parent && options.parent is Some && state.has(options.parent->0)
                ==> super::laws::is_linked(after, id, options.parent->0) && super::laws::is_linked(
                after,
                options.parent->0,
                id,
            )
        }),
{
    let id = ActorId { local_id: next, generation: 0 };
    let actor = ActorView::fresh(
        id,
        name,
        options,
        config,
        super::state::scheduler_of(config, id),
    );
    let after = super::state::joined(state, actor, options.link_to_parent);
    assert(!state.actors.contains_key(next));
    let linking = options.link_to_parent && options.parent is Some;
    let parent = options.parent->0;
    assert forall|other: ActorId| #[trigger] after.has(other) == (state.has(other) || other == id) by {}
    assert forall|one: ActorId, two: ActorId| #[trigger]
        super::laws::is_linked(after, one, two) == (super::laws::is_linked(state, one, two) || (
        linking && ((one == id && two == parent) || (one == parent && two == id && state.has(
            parent,
        ))))) by {}
    assert forall|watcher: ActorId, reference: Ref, target: ActorId| #[trigger]
        super::laws::is_watching(after, watcher, reference, target) == super::laws::is_watching(
            state,
            watcher,
            reference,
            target,
        ) by {}
    assert forall|target: ActorId, reference: Ref, watcher: ActorId| #[trigger]
        super::laws::is_watched(after, target, reference, watcher) == super::laws::is_watched(
            state,
            target,
            reference,
            watcher,
        ) by {}
    assert forall|one: ActorId| !super::laws::is_linked(state, one, id) by {
        if super::laws::is_linked(state, one, id) {
            assert(state.actors.contains_key(one.local_id));
            assert(state.actors[one.local_id].links.contains(id));
        }
    }
    assert forall|watcher: ActorId, reference: Ref| !#[trigger]
        super::laws::is_watching(state, watcher, reference, id) by {
        if super::laws::is_watching(state, watcher, reference, id) {
            assert(state.actors.contains_key(watcher.local_id));
            assert(state.actors[watcher.local_id].monitors_out.contains_key(reference));
        }
    }
    assert forall|target: ActorId, reference: Ref| !#[trigger]
        super::laws::is_watched(state, target, reference, id) by {
        if super::laws::is_watched(state, target, reference, id) {
            assert(state.actors.contains_key(target.local_id));
            assert(state.actors[target.local_id].monitors_in.contains_key(reference));
        }
    }
    assert forall|slot: u64| #[trigger] after.actors.contains_key(slot) implies {
        &&& slot < next + 1
        &&& forall|other: ActorId| #[trigger]
            after.actors[slot].links.contains(other) ==> other.local_id < next + 1
        &&& forall|reference: Ref| #[trigger]
            after.actors[slot].monitors_in.contains_key(reference)
                ==> after.actors[slot].monitors_in[reference].local_id < next + 1
        &&& forall|reference: Ref| #[trigger]
            after.actors[slot].monitors_out.contains_key(reference)
                ==> after.actors[slot].monitors_out[reference].local_id < next + 1
    } by {
        if slot != next {
            assert(state.actors.contains_key(slot));
        }
    }
}

/// An exit keeps all ties sound.
pub proof fn lemma_exit_keeps_ties_sound(
    state: StateView,
    next: u64,
    actor: ActorId,
    reason: ExitReason,
    after: StateView,
)
    requires
        crate::runtime::table::table_ok(state.actors),
        ties_sound(state, next),
        state.has(actor),
        super::spec::finalized(state, actor, reason, after),
    ensures
        ties_sound(after, next),
{
    super::laws::lemma_exit_leaves_no_ties(state, actor, reason, after);
    super::laws::lemma_exit_adds_no_ties(state, actor, reason, after);
    assert forall|slot: u64| #[trigger] after.actors.contains_key(slot) implies {
        &&& slot < next
        &&& forall|id: ActorId| #[trigger]
            after.actors[slot].links.contains(id) ==> id.local_id < next
        &&& forall|reference: Ref| #[trigger]
            after.actors[slot].monitors_in.contains_key(reference)
                ==> after.actors[slot].monitors_in[reference].local_id < next
        &&& forall|reference: Ref| #[trigger]
            after.actors[slot].monitors_out.contains_key(reference)
                ==> after.actors[slot].monitors_out[reference].local_id < next
    } by {
        assert(state.actors.contains_key(slot));
        assert forall|id: ActorId| #[trigger]
            after.actors[slot].links.contains(id) implies id.local_id < next by {
            assert(state.actors[slot].links.contains(id));
        }
        assert forall|reference: Ref| #[trigger]
            after.actors[slot].monitors_in.contains_key(
                reference,
            ) implies after.actors[slot].monitors_in[reference].local_id < next by {
            assert(state.actors[slot].monitors_in.contains_key(reference));
        }
        assert forall|reference: Ref| #[trigger]
            after.actors[slot].monitors_out.contains_key(
                reference,
            ) implies after.actors[slot].monitors_out[reference].local_id < next by {
            assert(state.actors[slot].monitors_out.contains_key(reference));
        }
    }
}

/// Whether a runtime counts its live actors correctly and has no more than it may.
pub open spec fn counted(state: StateView, max_actors: usize) -> bool {
    &&& state.actors.dom().finite()
    &&& state.live_actors == state.actors.dom().len()
    &&& state.live_actors <= max_actors
}

/// A new actor in a free slot is counted, and the limit holds as long as there was room for it.
pub proof fn lemma_spawn_is_counted(
    state: StateView,
    max_actors: usize,
    actor: ActorView,
    link_to_parent: bool,
)
    requires
        counted(state, max_actors),
        state.has_room(max_actors),
        !state.actors.contains_key(actor.id.local_id),
    ensures
        counted(super::state::joined(state, actor, link_to_parent), max_actors),
{
    let after = super::state::joined(state, actor, link_to_parent);
    assert(after.actors.dom() =~= state.actors.dom().insert(actor.id.local_id));
}

/// An actor that is removed is counted.
pub(crate) proof fn lemma_removal_is_counted(
    state: StateView,
    max_actors: usize,
    actor: ActorId,
    reason: ExitReason,
)
    requires
        super::laws::in_place(state),
        counted(state, max_actors),
        state.has(actor),
    ensures
        counted(super::spec::removed(state, actor, reason), max_actors),
        super::spec::removed(state, actor, reason).live_actors == state.live_actors - 1,
        forall|slot: u64| #[trigger]
            super::spec::removed(state, actor, reason).actors.contains_key(slot)
                ==> state.actors.contains_key(slot),
{
    super::laws::lemma_removed(state, actor, reason);
    assert(state.actors.dom().contains(actor.local_id));
    assert(state.actors.dom().len() > 0) by {
        if state.actors.dom().len() == 0 {
            assert(state.actors.dom() =~= Set::<u64>::empty());
        }
    }
}

/// An exit is counted: one actor less is live.
pub proof fn lemma_exit_is_counted(
    state: StateView,
    max_actors: usize,
    actor: ActorId,
    reason: ExitReason,
    after: StateView,
)
    requires
        crate::runtime::table::table_ok(state.actors),
        counted(state, max_actors),
        state.has(actor),
        super::spec::finalized(state, actor, reason, after),
    ensures
        counted(after, max_actors),
        after.live_actors == state.live_actors - 1,
{
    super::laws::lemma_exit_adds_no_ties(state, actor, reason, after);
    assert(state.actors.dom().contains(actor.local_id));
    assert(state.actors.dom().len() > 0) by {
        if state.actors.dom().len() == 0 {
            assert(state.actors.dom() =~= Set::<u64>::empty());
        }
    }
}

} // verus!
