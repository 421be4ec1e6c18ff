//! What holds of links, monitors and exits on the multicore runtime as a whole.

use vstd::prelude::*;

use crate::envelope::{DownMessage, Envelope, ExitSignal};
use crate::lifecycle::LifecycleView;
use crate::observability::events::{EventView, KindView};
use crate::runtime::actor_state::ActorView;
use crate::runtime::state::StateView;
use crate::types::{ActorId, ExitReason, Ref};

verus! {

/// Whether a live actor has another one among its links.
pub open spec fn is_linked(state: StateView, actor: ActorId, other: ActorId) -> bool {
    state.has(actor) && state.actor(actor).links.contains(other)
}

/// Whether a live actor monitors another one under a reference.
pub open spec fn is_watching(
    state: StateView,
    watcher: ActorId,
    reference: Ref,
    target: ActorId,
) -> bool {
    &&& state.has(watcher)
    &&& state.actor(watcher).monitors_out.contains_key(reference)
    &&& state.actor(watcher).monitors_out[reference] == target
}

/// Whether a live actor is monitored by another one under a reference.
pub open spec fn is_watched(
    state: StateView,
    target: ActorId,
    reference: Ref,
    watcher: ActorId,
) -> bool {
    &&& state.has(target)
    &&& state.actor(target).monitors_in.contains_key(reference)
    &&& state.actor(target).monitors_in[reference] == watcher
}

/// Whether every link between live actors is noted at both ends.
pub open spec fn links_mutual(state: StateView) -> bool {
    forall|actor: ActorId, other: ActorId| #[trigger]
        is_linked(state, actor, other) && state.has(other) ==> is_linked(state, other, actor)
}

/// Whether every monitor between live actors is noted at both ends.
pub open spec fn monitors_mutual(state: StateView) -> bool {
    &&& forall|watcher: ActorId, reference: Ref, target: ActorId| #[trigger]
        is_watching(state, watcher, reference, target) && state.has(target) ==> is_watched(
            state,
            target,
            reference,
            watcher,
        )
    &&& forall|target: ActorId, reference: Ref, watcher: ActorId| #[trigger]
        is_watched(state, target, reference, watcher) && state.has(watcher) ==> is_watching(
            state,
            watcher,
            reference,
            target,
        )
}

/// Whether no live actor is tied to an id.
pub open spec fn untied(state: StateView, id: ActorId) -> bool {
    &&& forall|actor: ActorId| !#[trigger] is_linked(state, actor, id)
    &&& forall|watcher: ActorId, reference: Ref|
        !#[trigger] is_watching(state, watcher, reference, id)
    &&& forall|target: ActorId, reference: Ref| !#[trigger] is_watched(state, target, reference, id)
}

/// Whether a reference stands for no monitor.
pub open spec fn unused(state: StateView, reference: Ref) -> bool {
    forall|slot: u64| #[trigger]
        state.actors.contains_key(slot) ==> !state.actors[slot].monitors_in.contains_key(reference)
            && !state.actors[slot].monitors_out.contains_key(reference)
}

/// Whether an actor is the same but for its mailbox, its metrics, its status and an exit ahead.
pub open spec fn same_ties(before: ActorView, after: ActorView) -> bool {
    after == (ActorView {
        mailbox: after.mailbox,
        metrics: after.metrics,
        status: after.status,
        forced_exit: after.forced_exit,
        ..before
    })
}

/// Whether nothing has changed but the mailbox, the metrics, the status and the exit ahead of one
/// actor.
pub open spec fn only_disturbed(before: StateView, actor: ActorId, after: StateView) -> bool {
    &&& after == (StateView { actors: after.actors, ..before })
    &&& after.actors.dom() == before.actors.dom()
    &&& forall|slot: u64| #[trigger]
        before.actors.contains_key(slot) && (slot != actor.local_id || !before.has(actor))
            ==> after.actors[slot] == before.actors[slot]
    &&& before.has(actor) ==> same_ties(before.actor(actor), after.actor(actor))
}

proof fn lemma_runtime_envelope_disturbs_one(
    state: StateView,
    actor: ActorId,
    envelope: Envelope,
    label: Seq<char>,
    after: StateView,
)
    requires
        !(envelope is Reply),
        super::spec::runtime_sent(state, actor, envelope, label, after),
    ensures
        only_disturbed(state, actor, after),
        state.has(actor) && !state.actor(actor).mailbox.refuses(envelope) ==> after.actor(actor)
            == state.actor(actor).delivered(envelope),
        state.has(actor) && state.actor(actor).mailbox.refuses(envelope) ==> {
            &&& after.actor(actor).forced_exit matches Some(reason)
                && crate::internal::error::is_overflow(reason, actor, label)
            &&& after.actor(actor).mailbox == state.actor(actor).mailbox
        },
{
    assert(after.actors.dom() =~= state.actors.dom());
    if !state.has(actor) {
        assert(after == state);
    }
}

proof fn lemma_nothing_lost_at_first(actor: ActorView)
    ensures
        nothing_lost(actor, actor),
{
    assert(actor.mailbox.queue.take(actor.mailbox.queue.len() as int) =~= actor.mailbox.queue);
}

proof fn lemma_nothing_lost_in_two(first: ActorView, second: ActorView, third: ActorView)
    requires
        nothing_lost(first, second),
        nothing_lost(second, third),
    ensures
        nothing_lost(first, third),
{
    let len = first.mailbox.queue.len() as int;
    assert(third.mailbox.queue.take(len) =~= third.mailbox.queue.take(
        second.mailbox.queue.len() as int,
    ).take(len));
}

proof fn lemma_delivery_loses_nothing(
    state: StateView,
    actor: ActorId,
    envelope: Envelope,
    label: Seq<char>,
    after: StateView,
)
    requires
        !(envelope is Reply),
        state.has(actor),
        super::spec::runtime_sent(state, actor, envelope, label, after),
    ensures
        nothing_lost(state.actor(actor), after.actor(actor)),
{
    lemma_runtime_envelope_disturbs_one(state, actor, envelope, label, after);
    let queue = state.actor(actor).mailbox.queue;
    assert(after.actor(actor).mailbox.queue.take(queue.len() as int) =~= queue);
}

/// An exit signal changes nothing but the mailbox, the metrics, the status and the exit ahead of
/// the actor that it is sent to.
pub proof fn lemma_signal_disturbs_one(
    state: StateView,
    target: ActorId,
    signal: ExitSignal,
    after: StateView,
)
    requires
        super::spec::signalled(state, target, signal, after),
    ensures
        only_disturbed(state, target, after),
{
    if state.has(target) {
        if crate::internal::exit_signal::disposition(state.actor(target).trap_exit, signal)
            is Enqueue {
            lemma_runtime_envelope_disturbs_one(
                state,
                target,
                Envelope::Exit(signal),
                "exit"@,
                after,
            );
        } else {
            assert(after.actors.dom() =~= state.actors.dom());
        }
    }
}

/// Whether every actor stands under its slot.
pub open spec fn in_place(state: StateView) -> bool {
    forall|slot: u64| #[trigger]
        state.actors.contains_key(slot) ==> state.actors[slot].id.local_id == slot
}

/// The references under which an actor stands in a list of monitors.
pub open spec fn refs_of(pairs: Seq<(Ref, ActorId)>, id: ActorId) -> Set<Ref> {
    Set::new(|reference: Ref| pairs.contains((reference, id)))
}

/// Whether everything that is not an actor or an event is the same, and the same actors are live.
pub open spec fn same_frame(before: StateView, after: StateView) -> bool {
    &&& after == (StateView { actors: after.actors, log: after.log, ..before })
    &&& after.actors.dom() == before.actors.dom()
    &&& forall|slot: u64| #[trigger]
        before.actors.contains_key(slot) ==> after.actors[slot].id == before.actors[slot].id
}

/// The actors that are left once an actor is removed: the parent may know of one child less.
pub(crate) proof fn lemma_removed(state: StateView, actor: ActorId, reason: ExitReason)
    requires
        in_place(state),
        state.has(actor),
    ensures
        ({
            let after = super::spec::removed(state, actor, reason);
            &&& after.actors.dom() == state.actors.dom().remove(actor.local_id)
            &&& forall|slot: u64| #[trigger]
                after.actors.contains_key(slot) ==> after.actors[slot] == (ActorView {
                    supervisor: after.actors[slot].supervisor,
                    ..state.actors[slot]
                })
            &&& after.completed == state.completed.insert(
                actor,
                super::spec::closed(state.actor(actor), reason).snapshot(),
            )
            &&& after.names == crate::registry::unregistered(state.names, actor)
            &&& after.timers == crate::runtime::timers::without_actor(state.timers, actor)
            &&& after.calls == crate::runtime::timers::without_actor(state.calls, actor)
            &&& after.live_actors == (if state.live_actors == 0 {
                0
            } else {
                state.live_actors - 1
            })
        }),
{
    let after = super::spec::removed(state, actor, reason);
    assert(after.actors.dom() =~= state.actors.dom().remove(actor.local_id));
}

/// What is left of the monitors once those of an actor are dropped.
proof fn lemma_watches_dropped(
    state: StateView,
    actor: ActorId,
    monitoring: Seq<(Ref, ActorId)>,
)
    requires
        in_place(state),
        !state.has(actor),
    ensures
        ({
            let after = state.watches_dropped(actor, monitoring);
            &&& same_frame(state, after)
            &&& after.log == state.log
            &&& forall|slot: u64| #[trigger]
                state.actors.contains_key(slot) ==> after.actors[slot] == (ActorView {
                    monitors_in: state.actors[slot].monitors_in.remove_keys(
                        refs_of(monitoring, state.actors[slot].id),
                    ),
                    ..state.actors[slot]
                })
        }),
    decreases monitoring.len(),
{
    let after = state.watches_dropped(actor, monitoring);
    if monitoring.len() == 0 {
        assert forall|slot: u64| #[trigger] state.actors.contains_key(slot) implies after.actors[slot]
            == (ActorView {
            monitors_in: state.actors[slot].monitors_in.remove_keys(
                refs_of(monitoring, state.actors[slot].id),
            ),
            ..state.actors[slot]
        }) by {
            assert(state.actors[slot].monitors_in.remove_keys(
                refs_of(monitoring, state.actors[slot].id),
            ) =~= state.actors[slot].monitors_in);
        }
    } else {
        let front = monitoring.drop_last();
        let last = monitoring.last();
        lemma_watches_dropped(state, actor, front);
        let middle = state.watches_dropped(actor, front);
        assert(monitoring =~= front.push(last));
        assert(after.actors.dom() =~= state.actors.dom());
        assert forall|slot: u64| #[trigger] state.actors.contains_key(slot) implies after.actors[slot]
            == (ActorView {
            monitors_in: state.actors[slot].monitors_in.remove_keys(
                refs_of(monitoring, state.actors[slot].id),
            ),
            ..state.actors[slot]
        }) by {
            let id = state.actors[slot].id;
            lemma_refs_pushed(front, last, id);
            let kept = state.actors[slot].monitors_in;
            assert(middle.actors.contains_key(slot));
            if last.1 == id {
                assert(kept.remove_keys(refs_of(front, id)).remove(last.0) =~= kept.remove_keys(
                    refs_of(monitoring, id),
                ));
            } else {
                assert(kept.remove_keys(refs_of(front, id)) =~= kept.remove_keys(
                    refs_of(monitoring, id),
                ));
            }
        }
    }
}

proof fn lemma_refs_pushed(front: Seq<(Ref, ActorId)>, last: (Ref, ActorId), id: ActorId)
    ensures
        refs_of(front.push(last), id) == (if last.1 == id {
            refs_of(front, id).insert(last.0)
        } else {
            refs_of(front, id)
        }),
{
    let pairs = front.push(last);
    assert forall|reference: Ref| #[trigger] pairs.contains((reference, id)) <==> (
    front.contains((reference, id)) || (reference, id) == last) by {
        if front.contains((reference, id)) {
            let i = choose|i: int| 0 <= i < front.len() && front[i] == (reference, id);
            assert(pairs[i] == (reference, id));
        }
        if (reference, id) == last {
            assert(pairs[front.len() as int] == last);
        }
    }
    assert(refs_of(pairs, id) =~= (if last.1 == id {
        refs_of(front, id).insert(last.0)
    } else {
        refs_of(front, id)
    }));
}

/// Whether an actor is the same but for what a notification changes.
pub open spec fn same_but_watching(before: ActorView, after: ActorView) -> bool {
    after == (ActorView {
        mailbox: after.mailbox,
        metrics: after.metrics,
        status: after.status,
        forced_exit: after.forced_exit,
        monitors_out: after.monitors_out,
        ..before
    })
}

/// Whether a mailbox has lost nothing and an exit ahead has not been called off.
pub open spec fn nothing_lost(before: ActorView, after: ActorView) -> bool {
    &&& before.mailbox.queue.len() <= after.mailbox.queue.len()
    &&& after.mailbox.queue.take(before.mailbox.queue.len() as int) == before.mailbox.queue
    &&& before.forced_exit is Some ==> after.forced_exit is Some
}

/// Whether a log has grown by notifications only.
pub open spec fn only_downs_added(before: Seq<EventView>, after: Seq<EventView>) -> bool {
    &&& before.len() <= after.len()
    &&& after.take(before.len() as int) == before
    &&& forall|i: int|
        before.len() <= i < after.len() ==> ((#[trigger] after[i]).kind matches KindView::Lifecycle(
            event,
        ) && event is Down)
}

/// Whether an actor has a notification in its mailbox, or has to exit.
pub open spec fn notified(actor: ActorView, down: DownMessage) -> bool {
    actor.forced_exit is Some || exists|i: int|
        0 <= i < actor.mailbox.queue.len() && (#[trigger] actor.mailbox.queue[i]).envelope
            == Envelope::Down(down)
}

/// What an actor was told, it is not told again and does not forget while others are told.
proof fn lemma_notified_stays(before: ActorView, after: ActorView, down: DownMessage)
    requires
        notified(before, down),
        nothing_lost(before, after),
    ensures
        notified(after, down),
{
    if before.forced_exit is None {
        let i = choose|i: int|
            0 <= i < before.mailbox.queue.len() && (#[trigger] before.mailbox.queue[i]).envelope
                == Envelope::Down(down);
        assert(after.mailbox.queue.take(before.mailbox.queue.len() as int)[i]
            == before.mailbox.queue[i]);
        assert(after.mailbox.queue[i].envelope == Envelope::Down(down));
    }
}

/// What the watchers of an actor that is gone are left with.
proof fn lemma_watchers_told(
    state: StateView,
    actor: ActorId,
    reason: ExitReason,
    watches: Seq<(Ref, ActorId)>,
    after: StateView,
)
    requires
        in_place(state),
        !state.has(actor),
        super::spec::watchers_told(state, actor, reason, watches, after),
    ensures
        same_frame(state, after),
        only_downs_added(state.log, after.log),
        forall|slot: u64| #[trigger]
            state.actors.contains_key(slot) ==> {
                &&& same_but_watching(state.actors[slot], after.actors[slot])
                &&& nothing_lost(state.actors[slot], after.actors[slot])
                &&& after.actors[slot].monitors_out == state.actors[slot].monitors_out.remove_keys(
                    refs_of(watches, state.actors[slot].id),
                )
            },
        forall|i: int|
            0 <= i < watches.len() && state.has((#[trigger] watches[i]).1) ==> notified(
                after.actor(watches[i].1),
                DownMessage { reference: watches[i].0, actor, reason },
            ),
        forall|slot: u64| #[trigger]
            state.actors.contains_key(slot) && refs_of(watches, state.actors[slot].id)
                == Set::<Ref>::empty() ==> after.actors[slot] == state.actors[slot],
    decreases watches.len(),
{
    if watches.len() == 0 {
        assert(after.log.take(state.log.len() as int) =~= state.log);
        assert forall|slot: u64| #[trigger] state.actors.contains_key(
            slot,
        ) implies after.actors[slot].monitors_out == state.actors[slot].monitors_out.remove_keys(
            refs_of(watches, state.actors[slot].id),
        ) by {
            assert(state.actors[slot].monitors_out.remove_keys(
                refs_of(watches, state.actors[slot].id),
            ) =~= state.actors[slot].monitors_out);
        }
        assert forall|slot: u64| #[trigger] state.actors.contains_key(slot) implies nothing_lost(
            state.actors[slot],
            after.actors[slot],
        ) by {
            lemma_nothing_lost_at_first(state.actors[slot]);
        }
    } else {
        let front = watches.drop_last();
        let last = watches.last();
        let middle = choose|middle: StateView|
            super::spec::watchers_told(state, actor, reason, front, middle)
                && #[trigger] super::spec::watcher_told(middle, actor, reason, last, after);
        lemma_watchers_told(state, actor, reason, front, middle);
        assert(watches =~= front.push(last));
        lemma_watcher_told(middle, actor, reason, last, after);
        assert(after.actors.dom() =~= state.actors.dom());
        assert(after.log.take(state.log.len() as int) =~= middle.log.take(state.log.len() as int));
        assert forall|i: int| state.log.len() <= i < after.log.len() implies ((
        #[trigger] after.log[i]).kind matches KindView::Lifecycle(event) && event is Down) by {
            if i < middle.log.len() {
                assert(after.log[i] == middle.log[i]);
            }
        }
        assert forall|slot: u64| #[trigger] state.actors.contains_key(slot) && refs_of(
            watches,
            state.actors[slot].id,
        ) == Set::<Ref>::empty() implies after.actors[slot] == state.actors[slot] by {
            let id = state.actors[slot].id;
            lemma_refs_pushed(front, last, id);
            assert(middle.actors.contains_key(slot));
            if last.1 == id {
                assert(refs_of(watches, id).contains(last.0));
            }
        }
        assert forall|i: int| 0 <= i < watches.len() && state.has(
            (#[trigger] watches[i]).1,
        ) implies notified(
            after.actor(watches[i].1),
            DownMessage { reference: watches[i].0, actor, reason },
        ) by {
            let watcher = watches[i].1;
            assert(middle.actors.contains_key(watcher.local_id));
            if i < front.len() {
                assert(front[i] == watches[i]);
                lemma_notified_stays(
                    middle.actor(watcher),
                    after.actor(watcher),
                    DownMessage { reference: watches[i].0, actor, reason },
                );
            }
        }
        assert forall|slot: u64| #[trigger] state.actors.contains_key(slot) implies {
            &&& same_but_watching(state.actors[slot], after.actors[slot])
            &&& nothing_lost(state.actors[slot], after.actors[slot])
            &&& after.actors[slot].monitors_out == state.actors[slot].monitors_out.remove_keys(
                refs_of(watches, state.actors[slot].id),
            )
        } by {
            let id = state.actors[slot].id;
            lemma_refs_pushed(front, last, id);
            let kept = state.actors[slot].monitors_out;
            assert(middle.actors.contains_key(slot));
            lemma_nothing_lost_in_two(state.actors[slot], middle.actors[slot], after.actors[slot]);
            if last.1 == id {
                assert(kept.remove_keys(refs_of(front, id)).remove(last.0) =~= kept.remove_keys(
                    refs_of(watches, id),
                ));
            } else {
                assert(kept.remove_keys(refs_of(front, id)) =~= kept.remove_keys(
                    refs_of(watches, id),
                ));
            }
        }
    }
}

/// What one notification changes.
proof fn lemma_watcher_told(
    state: StateView,
    actor: ActorId,
    reason: ExitReason,
    watch: (Ref, ActorId),
    after: StateView,
)
    requires
        in_place(state),
        !state.has(actor),
        super::spec::watcher_told(state, actor, reason, watch, after),
    ensures
        same_frame(state, after),
        after.log.len() <= state.log.len() + 1,
        only_downs_added(state.log, after.log),
        forall|slot: u64| #[trigger]
            state.actors.contains_key(slot) ==> if state.actors[slot].id == watch.1 {
                &&& same_but_watching(state.actors[slot], after.actors[slot])
                &&& after.actors[slot].monitors_out == state.actors[slot].monitors_out.remove(
                    watch.0,
                )
            } else {
                after.actors[slot] == state.actors[slot]
            },
        forall|slot: u64| #[trigger]
            state.actors.contains_key(slot) ==> nothing_lost(
                state.actors[slot],
                after.actors[slot],
            ),
        state.has(watch.1) ==> notified(
            after.actor(watch.1),
            DownMessage { reference: watch.0, actor, reason },
        ),
{
    let (reference, watcher) = watch;
    if watcher == actor {
        assert(after.log.take(state.log.len() as int) =~= state.log);
        assert forall|slot: u64| #[trigger] state.actors.contains_key(slot) implies nothing_lost(
            state.actors[slot],
            after.actors[slot],
        ) by {
            lemma_nothing_lost_at_first(state.actors[slot]);
        }
    } else {
        let freed = state.watching_removed(watcher, reference);
        let noted = freed.logged(LifecycleView::Down { watcher, actor, reference, reason });
        let down = Envelope::Down(DownMessage { reference, actor, reason });
        lemma_runtime_envelope_disturbs_one(noted, watcher, down, "down"@, after);
        assert(noted.actors.dom() =~= state.actors.dom());
        assert(after.log.take(state.log.len() as int) =~= state.log);
        assert forall|slot: u64| #[trigger] state.actors.contains_key(slot) implies (
        if state.actors[slot].id == watcher {
            &&& same_but_watching(state.actors[slot], after.actors[slot])
            &&& after.actors[slot].monitors_out == state.actors[slot].monitors_out.remove(
                reference,
            )
        } else {
            after.actors[slot] == state.actors[slot]
        }) by {
            assert(noted.actors.contains_key(slot));
            if state.actors[slot].id == watcher {
                assert(state.has(watcher));
            } else if slot == watcher.local_id {
                assert(!state.has(watcher));
            }
        }
        if state.has(watcher) {
            lemma_delivery_loses_nothing(noted, watcher, down, "down"@, after);
            if !state.actor(watcher).mailbox.refuses(down) {
                let queue = after.actor(watcher).mailbox.queue;
                assert(queue[queue.len() - 1].envelope == down);
            }
        }
        assert forall|slot: u64| #[trigger] state.actors.contains_key(slot) implies nothing_lost(
            state.actors[slot],
            after.actors[slot],
        ) by {
            if state.actors[slot].id != watcher {
                lemma_nothing_lost_at_first(state.actors[slot]);
            }
        }
    }
}

/// Whether an actor has got an exit signal: it dies at once, it goes on as before, or it finds the
/// signal at the end of its mailbox, unless there is no room for it and it has to exit.
pub open spec fn heard(before: ActorView, signal: ExitSignal, after: ActorView) -> bool {
    match crate::internal::exit_signal::disposition(before.trap_exit, signal) {
        crate::internal::exit_signal::ExitDisposition::KillNow => {
            &&& after.forced_exit == Some(signal.reason)
            &&& after.status is Exiting
            &&& after.mailbox == before.mailbox
        },
        crate::internal::exit_signal::ExitDisposition::Ignore => {
            &&& after.forced_exit == before.forced_exit
            &&& after.status == before.status
            &&& after.mailbox == before.mailbox
        },
        crate::internal::exit_signal::ExitDisposition::Enqueue => if before.mailbox.refuses(
            Envelope::Exit(signal),
        ) {
            &&& after.forced_exit matches Some(overflow) && crate::internal::error::is_overflow(
                overflow,
                before.id,
                "exit"@,
            )
            &&& after.mailbox == before.mailbox
        } else {
            &&& after.forced_exit == before.forced_exit
            &&& after.mailbox == before.mailbox.pushed(Envelope::Exit(signal))
        },
    }
}

/// What a linked actor is left with once it is told.
proof fn lemma_linked_told(
    state: StateView,
    actor: ActorId,
    reason: ExitReason,
    other: ActorId,
    after: StateView,
)
    requires
        in_place(state),
        !state.has(actor),
        super::spec::linked_told(state, actor, reason, other, after),
    ensures
        same_frame(state, after),
        after.log == state.log,
        forall|slot: u64| #[trigger]
            state.actors.contains_key(slot) ==> if state.actors[slot].id == other {
                &&& same_ties(
                    ActorView {
                        links: state.actors[slot].links.remove(actor),
                        ..state.actors[slot]
                    },
                    after.actors[slot],
                )
                &&& nothing_lost(state.actors[slot], after.actors[slot])
                &&& heard(
                    state.actors[slot],
                    ExitSignal { from: actor, reason, linked: true },
                    after.actors[slot],
                )
            } else {
                after.actors[slot] == state.actors[slot]
            },
{
    if other != actor {
        let signal = ExitSignal { from: actor, reason, linked: true };
        let freed = state.link_removed(other, actor);
        assert(freed.actors.dom() =~= state.actors.dom());
        lemma_signal_disturbs_one(freed, other, signal, after);
        if state.has(other) {
            lemma_nothing_lost_at_first(state.actor(other));
            let disposition = crate::internal::exit_signal::disposition(
                state.actor(other).trap_exit,
                signal,
            );
            if disposition is Enqueue {
                lemma_delivery_loses_nothing(freed, other, Envelope::Exit(signal), "exit"@, after);
                lemma_runtime_envelope_disturbs_one(
                    freed,
                    other,
                    Envelope::Exit(signal),
                    "exit"@,
                    after,
                );
            }
        }
        assert forall|slot: u64| #[trigger] state.actors.contains_key(slot) implies (
        if state.actors[slot].id == other {
            &&& same_ties(
                ActorView {
                    links: state.actors[slot].links.remove(actor),
                    ..state.actors[slot]
                },
                after.actors[slot],
            )
            &&& nothing_lost(state.actors[slot], after.actors[slot])
            &&& heard(state.actors[slot], signal, after.actors[slot])
        } else {
            after.actors[slot] == state.actors[slot]
        }) by {
            assert(freed.actors.contains_key(slot));
            if state.actors[slot].id == other {
                assert(state.has(other));
            }
        }
    }
}

/// What the linked actors are left with once they are all told.
proof fn lemma_all_linked_told(
    state: StateView,
    actor: ActorId,
    reason: ExitReason,
    links: Seq<ActorId>,
    after: StateView,
)
    requires
        in_place(state),
        !state.has(actor),
        crate::collections::is_ascending(links),
        super::spec::all_linked_told(state, actor, reason, links, after),
    ensures
        same_frame(state, after),
        after.log == state.log,
        forall|slot: u64| #[trigger]
            state.actors.contains_key(slot) ==> if links.contains(state.actors[slot].id) {
                &&& same_ties(
                    ActorView {
                        links: state.actors[slot].links.remove(actor),
                        ..state.actors[slot]
                    },
                    after.actors[slot],
                )
                &&& nothing_lost(state.actors[slot], after.actors[slot])
                &&& heard(
                    state.actors[slot],
                    ExitSignal { from: actor, reason, linked: true },
                    after.actors[slot],
                )
            } else {
                after.actors[slot] == state.actors[slot]
            },
    decreases links.len(),
{
    if links.len() > 0 {
        let front = links.drop_last();
        let last = links.last();
        let middle = choose|middle: StateView|
            super::spec::all_linked_told(state, actor, reason, front, middle)
                && #[trigger] super::spec::linked_told(middle, actor, reason, last, after);
        assert(crate::collections::is_ascending(front)) by {
            assert forall|i: int, j: int| 0 <= i < j < front.len() implies (
            #[trigger] front[i]).precedes(#[trigger] front[j]) by {
                assert(links[i] == front[i] && links[j] == front[j]);
            }
        }
        lemma_all_linked_told(state, actor, reason, front, middle);
        lemma_linked_told(middle, actor, reason, last, after);
        assert(!front.contains(last)) by {
            if front.contains(last) {
                let i = choose|i: int| 0 <= i < front.len() && front[i] == last;
                assert(links[i].precedes(links[links.len() - 1]));
            }
        }
        assert forall|id: ActorId| #[trigger] links.contains(id) <==> front.contains(id) || id
            == last by {
            if front.contains(id) {
                let i = choose|i: int| 0 <= i < front.len() && front[i] == id;
                assert(links[i] == id);
            }
            if links.contains(id) && id != last {
                let i = choose|i: int| 0 <= i < links.len() && links[i] == id;
                assert(front[i] == id);
            }
            assert(links[links.len() - 1] == last);
        }
        assert forall|slot: u64| #[trigger] state.actors.contains_key(slot) implies (
        if links.contains(state.actors[slot].id) {
            &&& same_ties(
                ActorView {
                    links: state.actors[slot].links.remove(actor),
                    ..state.actors[slot]
                },
                after.actors[slot],
            )
            &&& nothing_lost(state.actors[slot], after.actors[slot])
            &&& heard(
                state.actors[slot],
                ExitSignal { from: actor, reason, linked: true },
                after.actors[slot],
            )
        } else {
            after.actors[slot] == state.actors[slot]
        }) by {
            assert(middle.actors.contains_key(slot));
        }
    }
}

/// The reason that the linked actors of an actor see.
pub open spec fn linked_reason(state: StateView, actor: ActorId, reason: ExitReason) -> ExitReason {
    crate::internal::shutdown::link_reason(state.actor(actor).shutdown is Some, reason)
}

/// What an exit does to the actor in a slot, in two strokes: the watchers are told, then the
/// links.
pub open spec fn outlived(
    state: StateView,
    actor: ActorId,
    reason: ExitReason,
    slot: u64,
    told: ActorView,
    after: ActorView,
) -> bool {
    let entry = state.actor(actor);
    let before = state.actors[slot];
    &&& told == (ActorView {
        mailbox: told.mailbox,
        metrics: told.metrics,
        status: told.status,
        forced_exit: told.forced_exit,
        supervisor: told.supervisor,
        monitors_in: before.monitors_in.remove_keys(
            refs_of(crate::collections::ascending_pairs(entry.monitors_out), before.id),
        ),
        monitors_out: before.monitors_out.remove_keys(
            refs_of(crate::collections::ascending_pairs(entry.monitors_in), before.id),
        ),
        ..before
    })
    &&& nothing_lost(before, told)
    &&& nothing_lost(told, after)
    &&& refs_of(crate::collections::ascending_pairs(entry.monitors_in), before.id) == Set::<
        Ref,
    >::empty() ==> told == (ActorView {
        supervisor: told.supervisor,
        monitors_in: told.monitors_in,
        ..before
    })
    &&& if entry.links.contains(before.id) {
        &&& same_ties(ActorView { links: told.links.remove(actor), ..told }, after)
        &&& heard(
            told,
            ExitSignal { from: actor, reason: linked_reason(state, actor, reason), linked: true },
            after,
        )
    } else {
        after == told
    }
}

/// What an exit leaves behind.
proof fn lemma_finalized(
    state: StateView,
    actor: ActorId,
    reason: ExitReason,
    after: StateView,
) -> (told: StateView)
    requires
        crate::runtime::table::table_ok(state.actors),
        state.has(actor),
        super::spec::finalized(state, actor, reason, after),
    ensures
        after.actors.dom() == state.actors.dom().remove(actor.local_id),
        same_frame(super::spec::removed(state, actor, reason), after),
        only_downs_added(super::spec::removed(state, actor, reason).log, after.log),
        crate::collections::lists_map(
            crate::collections::ascending_pairs(state.actor(actor).monitors_out),
            state.actor(actor).monitors_out,
        ),
        crate::collections::lists_map(
            crate::collections::ascending_pairs(state.actor(actor).monitors_in),
            state.actor(actor).monitors_in,
        ),
        forall|slot: u64| #[trigger]
            after.actors.contains_key(slot) ==> outlived(
                state,
                actor,
                reason,
                slot,
                told.actors[slot],
                after.actors[slot],
            ),
        forall|reference: Ref, watcher: ActorId| #[trigger]
            is_watched(state, actor, reference, watcher) && state.has(watcher) && watcher != actor
                ==> notified(told.actor(watcher), DownMessage { reference, actor, reason }),
{
    let entry = state.actor(actor);
    assert(state.actors.contains_key(actor.local_id));
    crate::collections::lemma_finite_set_is_listed(entry.links);
    crate::collections::lemma_finite_map_is_listed(entry.monitors_in);
    crate::collections::lemma_finite_map_is_listed(entry.monitors_out);
    let outward = crate::collections::ascending_pairs(entry.monitors_out);
    let inward = crate::collections::ascending_pairs(entry.monitors_in);
    let links = crate::collections::ascending(entry.links);
    let gone = super::spec::removed(state, actor, reason);
    let dropped = gone.watches_dropped(actor, outward);
    let told = choose|told: StateView| #[trigger]
        super::spec::watchers_told(dropped, actor, reason, inward, told)
            && super::spec::all_linked_told(
            told,
            actor,
            linked_reason(state, actor, reason),
            links,
            after,
        );
    lemma_removed(state, actor, reason);
    lemma_watches_dropped(gone, actor, outward);
    lemma_watchers_told(dropped, actor, reason, inward, told);
    lemma_all_linked_told(told, actor, linked_reason(state, actor, reason), links, after);
    assert forall|slot: u64| #[trigger] after.actors.contains_key(slot) implies outlived(
        state,
        actor,
        reason,
        slot,
        told.actors[slot],
        after.actors[slot],
    ) by {
        assert(gone.actors.contains_key(slot));
        assert(dropped.actors.contains_key(slot));
        assert(told.actors.contains_key(slot));
        lemma_nothing_lost_at_first(told.actors[slot]);
        assert(entry.links.contains(state.actors[slot].id) <==> links.contains(
            state.actors[slot].id,
        ));
    }
    assert forall|reference: Ref, watcher: ActorId| #[trigger]
        is_watched(state, actor, reference, watcher) && state.has(watcher) && watcher
            != actor implies notified(
        told.actor(watcher),
        DownMessage { reference, actor, reason },
    ) by {
        assert(inward.contains((reference, entry.monitors_in[reference])));
        let i = choose|i: int| 0 <= i < inward.len() && inward[i] == (reference, watcher);
        assert(gone.actors.contains_key(watcher.local_id)) by {
            assert(state.actors.contains_key(watcher.local_id));
        }
        assert(dropped.has(inward[i].1));
    }
    told
}

/// An actor that exits is gone, no live actor is tied to it any more, and all others are as live
/// as before, with their ties among each other still noted at both ends.
pub proof fn lemma_exit_leaves_no_ties(
    state: StateView,
    actor: ActorId,
    reason: ExitReason,
    after: StateView,
)
    requires
        crate::runtime::table::table_ok(state.actors),
        links_mutual(state),
        monitors_mutual(state),
        state.has(actor),
        super::spec::finalized(state, actor, reason, after),
    ensures
        !after.has(actor),
        forall|other: ActorId| other != actor ==> #[trigger] after.has(other) == state.has(other),
        untied(after, actor),
        links_mutual(after),
        monitors_mutual(after),
{
    let told = lemma_finalized(state, actor, reason, after);
    let entry = state.actor(actor);
    let outward = crate::collections::ascending_pairs(entry.monitors_out);
    let inward = crate::collections::ascending_pairs(entry.monitors_in);
    assert forall|other: ActorId| other != actor implies #[trigger] after.has(other) == state.has(
        other,
    ) by {
        if state.actors.contains_key(other.local_id) && other.local_id != actor.local_id {
            assert(after.actors.contains_key(other.local_id));
            assert(outlived(
                state,
                actor,
                reason,
                other.local_id,
                told.actors[other.local_id],
                after.actors[other.local_id],
            ));
        }
    }
    assert forall|one: ActorId, other: ActorId| #[trigger] is_linked(after, one, other) implies {
        &&& is_linked(state, one, other)
        &&& other != actor
    } by {
        assert(after.actors.contains_key(one.local_id));
        if other == actor {
            assert(is_linked(state, one, actor));
            assert(is_linked(state, actor, one));
        }
    }
    assert forall|one: ActorId, other: ActorId| #[trigger] is_linked(after, one, other)
        && after.has(other) implies is_linked(after, other, one) by {
        assert(is_linked(state, one, other));
        assert(is_linked(state, other, one));
        assert(after.actors.contains_key(other.local_id));
        assert(one != actor);
    }
    assert forall|watcher: ActorId, reference: Ref, target: ActorId| #[trigger]
        is_watching(after, watcher, reference, target) implies {
        &&& is_watching(state, watcher, reference, target)
        &&& target != actor
        &&& after.has(target) ==> is_watched(after, target, reference, watcher)
    } by {
        assert(after.actors.contains_key(watcher.local_id));
        assert(is_watching(state, watcher, reference, target));
        if target == actor {
            assert(is_watched(state, actor, reference, watcher));
            assert(inward.contains((reference, watcher)));
            assert(refs_of(inward, watcher).contains(reference));
        } else if after.has(target) {
            assert(is_watched(state, target, reference, watcher));
            assert(after.actors.contains_key(target.local_id));
            if refs_of(outward, target).contains(reference) {
                let i = choose|i: int| 0 <= i < outward.len() && outward[i] == (reference, target);
                assert(entry.monitors_out.contains_key(outward[i].0));
                assert(is_watching(state, actor, reference, target));
                assert(is_watched(state, target, reference, actor));
            }
        }
    }
    assert forall|target: ActorId, reference: Ref, watcher: ActorId| #[trigger]
        is_watched(after, target, reference, watcher) implies {
        &&& is_watched(state, target, reference, watcher)
        &&& watcher != actor
        &&& after.has(watcher) ==> is_watching(after, watcher, reference, target)
    } by {
        assert(after.actors.contains_key(target.local_id));
        assert(is_watched(state, target, reference, watcher));
        if watcher == actor {
            assert(is_watching(state, actor, reference, target));
            assert(outward.contains((reference, target)));
            assert(refs_of(outward, target).contains(reference));
        } else if after.has(watcher) {
            assert(is_watching(state, watcher, reference, target));
            assert(after.actors.contains_key(watcher.local_id));
            if refs_of(inward, watcher).contains(reference) {
                let i = choose|i: int| 0 <= i < inward.len() && inward[i] == (reference, watcher);
                assert(entry.monitors_in.contains_key(inward[i].0));
                assert(is_watched(state, actor, reference, watcher));
                assert(is_watching(state, watcher, reference, actor));
            }
        }
    }
}

/// An exit reaches every linked actor: one that does not trap exits has to exit with an abnormal
/// reason too, and one that traps exits finds a message, unless it was a kill or the actor has to
/// exit itself.
pub proof fn lemma_exit_reaches_linked_actors(
    state: StateView,
    actor: ActorId,
    reason: ExitReason,
    other: ActorId,
    after: StateView,
)
    requires
        crate::runtime::table::table_ok(state.actors),
        is_linked(state, actor, other),
        state.has(other),
        other != actor,
        super::spec::finalized(state, actor, reason, after),
    ensures
        ({
            let seen = linked_reason(state, actor, reason);
            let trapping = state.actor(other).trap_exit;
            let before = state.actor(other);
            &&& after.has(other)
            &&& seen is Kill || (!trapping && !(seen is Normal)) ==> after.actor(other).forced_exit
                == Some(seen)
            &&& trapping && !(seen is Kill) ==> {
                let queue = after.actor(other).mailbox.queue;
                ||| after.actor(other).forced_exit is Some
                ||| queue.len() > before.mailbox.queue.len() && queue.last().envelope
                    == Envelope::Exit(ExitSignal { from: actor, reason: seen, linked: true })
            }
        }),
{
    let told = lemma_finalized(state, actor, reason, after);
    assert(after.actors.contains_key(other.local_id)) by {
        assert(state.actors.contains_key(other.local_id));
    }
    assert(outlived(
        state,
        actor,
        reason,
        other.local_id,
        told.actors[other.local_id],
        after.actors[other.local_id],
    ));
}

/// An exit reaches every watcher: it has a notification in its mailbox for each of its monitors,
/// unless it has to exit itself.
pub proof fn lemma_exit_reaches_watchers(
    state: StateView,
    actor: ActorId,
    reason: ExitReason,
    watcher: ActorId,
    reference: Ref,
    after: StateView,
)
    requires
        crate::runtime::table::table_ok(state.actors),
        is_watched(state, actor, reference, watcher),
        state.has(watcher),
        watcher != actor,
        super::spec::finalized(state, actor, reason, after),
    ensures
        after.has(watcher),
        notified(after.actor(watcher), DownMessage { reference, actor, reason }),
{
    let told = lemma_finalized(state, actor, reason, after);
    assert(after.actors.contains_key(watcher.local_id)) by {
        assert(state.actors.contains_key(watcher.local_id));
    }
    assert(outlived(
        state,
        actor,
        reason,
        watcher.local_id,
        told.actors[watcher.local_id],
        after.actors[watcher.local_id],
    ));
    lemma_notified_stays(
        told.actor(watcher),
        after.actor(watcher),
        DownMessage { reference, actor, reason },
    );
}

/// No monitor of an actor stands for one that does not watch it.
proof fn lemma_no_watches(state: StateView, actor: ActorId, other: ActorId)
    requires
        state.has(actor),
        crate::runtime::table::table_ok(state.actors),
        forall|reference: Ref| !#[trigger] is_watched(state, actor, reference, other),
        crate::collections::lists_map(
            crate::collections::ascending_pairs(state.actor(actor).monitors_in),
            state.actor(actor).monitors_in,
        ),
    ensures
        refs_of(crate::collections::ascending_pairs(state.actor(actor).monitors_in), other) == Set::<
            Ref,
        >::empty(),
{
    let inward = crate::collections::ascending_pairs(state.actor(actor).monitors_in);
    assert forall|reference: Ref| !#[trigger] refs_of(inward, other).contains(reference) by {
        if inward.contains((reference, other)) {
            let i = choose|i: int| 0 <= i < inward.len() && inward[i] == (reference, other);
            assert(state.actor(actor).monitors_in.contains_key(inward[i].0));
            assert(is_watched(state, actor, reference, other));
        }
    }
    assert(refs_of(inward, other) =~= Set::<Ref>::empty());
}

/// A linked actor that does not watch the one that exits hears of the exit exactly once, as an exit
/// signal: it has to exit too, it goes on as if nothing had happened, or it finds the signal at the
/// end of its mailbox; nothing else of it changes but the link.
pub proof fn lemma_exit_is_one_signal_for_linked_actors(
    state: StateView,
    actor: ActorId,
    reason: ExitReason,
    other: ActorId,
    after: StateView,
)
    requires
        crate::runtime::table::table_ok(state.actors),
        is_linked(state, actor, other),
        state.has(other),
        other != actor,
        forall|reference: Ref| !#[trigger] is_watched(state, actor, reference, other),
        super::spec::finalized(state, actor, reason, after),
    ensures
        after.has(other),
        heard(
            state.actor(other),
            ExitSignal { from: actor, reason: linked_reason(state, actor, reason), linked: true },
            after.actor(other),
        ),
        same_ties(
            ActorView {
                links: state.actor(other).links.remove(actor),
                supervisor: after.actor(other).supervisor,
                monitors_in: after.actor(other).monitors_in,
                ..state.actor(other)
            },
            after.actor(other),
        ),
{
    let told = lemma_finalized(state, actor, reason, after);
    assert(after.actors.contains_key(other.local_id)) by {
        assert(state.actors.contains_key(other.local_id));
    }
    lemma_no_watches(state, actor, other);
    assert(outlived(
        state,
        actor,
        reason,
        other.local_id,
        told.actors[other.local_id],
        after.actors[other.local_id],
    ));
}

/// An exit leaves an actor alone that is neither linked with it nor watches it.
pub proof fn lemma_exit_disturbs_nobody_else(
    state: StateView,
    actor: ActorId,
    reason: ExitReason,
    other: ActorId,
    after: StateView,
)
    requires
        crate::runtime::table::table_ok(state.actors),
        state.has(actor),
        state.has(other),
        other != actor,
        !state.actor(actor).links.contains(other),
        forall|reference: Ref| !#[trigger] is_watched(state, actor, reference, other),
        super::spec::finalized(state, actor, reason, after),
    ensures
        after.has(other),
        after.actor(other) == (ActorView {
            supervisor: after.actor(other).supervisor,
            monitors_in: after.actor(other).monitors_in,
            ..state.actor(other)
        }),
{
    let told = lemma_finalized(state, actor, reason, after);
    assert(after.actors.contains_key(other.local_id)) by {
        assert(state.actors.contains_key(other.local_id));
    }
    lemma_no_watches(state, actor, other);
    assert(outlived(
        state,
        actor,
        reason,
        other.local_id,
        told.actors[other.local_id],
        after.actors[other.local_id],
    ));
}

/// How many exits of an actor a log reports.
pub open spec fn exits_of(log: Seq<EventView>, actor: ActorId) -> nat
    decreases log.len(),
{
    if log.len() == 0 {
        0
    } else {
        exits_of(log.drop_last(), actor) + (if log.last().kind matches KindView::Lifecycle(
            LifecycleView::Exit { actor: gone, .. },
        ) && gone == actor {
            1nat
        } else {
            0nat
        })
    }
}

proof fn lemma_downs_report_no_exit(before: Seq<EventView>, after: Seq<EventView>, actor: ActorId)
    requires
        only_downs_added(before, after),
    ensures
        exits_of(after, actor) == exits_of(before, actor),
    decreases after.len(),
{
    if after.len() > before.len() {
        let front = after.drop_last();
        assert(front.take(before.len() as int) =~= after.take(before.len() as int));
        assert forall|i: int| before.len() <= i < front.len() implies ((
        #[trigger] front[i]).kind matches KindView::Lifecycle(event) && event is Down) by {
            assert(front[i] == after[i]);
        }
        lemma_downs_report_no_exit(before, front, actor);
        assert(after[after.len() - 1] == after.last());
    } else {
        assert(after =~= before);
    }
}

/// An exit is reported exactly once, everything that was reported before stays, and the actor is
/// remembered as a dead one with its reason; its name is free, and nothing waits for it.
pub proof fn lemma_exit_is_reported_once(
    state: StateView,
    actor: ActorId,
    reason: ExitReason,
    after: StateView,
)
    requires
        crate::runtime::table::table_ok(state.actors),
        crate::registry::names_distinct(state.names),
        state.has(actor),
        super::spec::finalized(state, actor, reason, after),
    ensures
        exits_of(after.log, actor) == exits_of(state.log, actor) + 1,
        state.log.len() < after.log.len(),
        after.log.take(state.log.len() as int) == state.log,
        after.snapshot_of(actor) matches Some(snapshot) && {
            &&& snapshot.id == actor
            &&& snapshot.status is Dead
            &&& snapshot.metrics.last_exit == Some(reason)
            &&& snapshot.registered_name is None
        },
        crate::registry::name_in(after.names, actor) is None,
        forall|reference: Ref| !#[trigger] after.timers.contains((actor, reference)),
        forall|reference: Ref| !#[trigger] after.calls.contains((actor, reference)),
{
    let told = lemma_finalized(state, actor, reason, after);
    let gone = super::spec::removed(state, actor, reason);
    lemma_removed(state, actor, reason);
    lemma_downs_report_no_exit(gone.log, after.log, actor);
    let entry = state.actor(actor);
    let first = state.without(actor).released(actor).renounced(entry);
    let second = first.shut_down(entry, reason);
    let third = second.exited(entry, reason);
    assert(first.log == state.log);
    lemma_pushes_count(state, second, third, entry, reason);
    assert(after.log.take(state.log.len() as int) =~= gone.log.take(state.log.len() as int)) by {
        assert(after.log.take(gone.log.len() as int) == gone.log);
        assert forall|i: int| 0 <= i < state.log.len() implies after.log[i] == gone.log[i] by {
            assert(after.log.take(gone.log.len() as int)[i] == gone.log[i]);
        }
    }
    assert(entry.id == actor);
    if crate::registry::name_in(after.names, actor) is Some {
        let found = crate::registry::name_in(after.names, actor)->0;
        assert(state.names.contains_key(found) && state.names[found] == actor);
        let held = crate::registry::name_in(state.names, actor)->0;
        assert(state.names[held] == state.names[found]);
    }
}

proof fn lemma_pushes_count(
    state: StateView,
    second: StateView,
    third: StateView,
    entry: ActorView,
    reason: ExitReason,
)
    requires
        ({
            let first = state.without(entry.id).released(entry.id).renounced(entry);
            &&& second == first.shut_down(entry, reason)
            &&& third == second.exited(entry, reason)
        }),
    ensures
        exits_of(third.log, entry.id) == exits_of(state.log, entry.id) + 1,
        state.log.len() < third.log.len(),
        third.log.take(state.log.len() as int) == state.log,
{
    let first = state.without(entry.id).released(entry.id).renounced(entry);
    assert(first.log == state.log);
    if entry.shutdown is Some {
        assert(second.log.drop_last() =~= state.log);
    }
    let reported = second.logged(
        LifecycleView::Exit {
            actor: entry.id,
            name: entry.name,
            reason,
            parent: entry.parent,
            ancestors: entry.ancestors,
        },
    );
    assert(reported.log.drop_last() =~= second.log);
    assert(exits_of(reported.log, entry.id) == exits_of(second.log, entry.id) + 1);
    if !reason.is_orderly() {
        assert(third.log.drop_last() =~= reported.log);
    }
    assert(third.log.take(state.log.len() as int) =~= state.log);
}

/// An exit adds no ties, and one actor less is live and counted.
pub proof fn lemma_exit_adds_no_ties(
    state: StateView,
    actor: ActorId,
    reason: ExitReason,
    after: StateView,
)
    requires
        crate::runtime::table::table_ok(state.actors),
        state.has(actor),
        super::spec::finalized(state, actor, reason, after),
    ensures
        after.actors.dom() == state.actors.dom().remove(actor.local_id),
        after.live_actors == (if state.live_actors == 0 {
            0
        } else {
            state.live_actors - 1
        }),
        forall|slot: u64| #[trigger]
            after.actors.contains_key(slot) ==> {
                &&& after.actors[slot].id == state.actors[slot].id
                &&& after.actors[slot].links.subset_of(state.actors[slot].links)
                &&& after.actors[slot].monitors_in.submap_of(state.actors[slot].monitors_in)
                &&& after.actors[slot].monitors_out.submap_of(state.actors[slot].monitors_out)
            },
{
    let told = lemma_finalized(state, actor, reason, after);
    lemma_removed(state, actor, reason);
    assert forall|slot: u64| #[trigger] after.actors.contains_key(slot) implies {
        &&& after.actors[slot].id == state.actors[slot].id
        &&& after.actors[slot].links.subset_of(state.actors[slot].links)
        &&& after.actors[slot].monitors_in.submap_of(state.actors[slot].monitors_in)
        &&& after.actors[slot].monitors_out.submap_of(state.actors[slot].monitors_out)
    } by {
        assert(outlived(
            state,
            actor,
            reason,
            slot,
            told.actors[slot],
            after.actors[slot],
        ));
    }
}

} // verus!
