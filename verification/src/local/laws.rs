//! What holds of every state that the single-threaded runtime can reach.

use vstd::prelude::*;

use crate::context::SpawnOptions;
use crate::envelope::{Envelope, ExitSignal};
use crate::internal::id::ActorSlotAllocator;
use crate::internal::turn::TurnEffects;
use crate::runtime::actor_state::ActorView;
use crate::runtime::state::StateView;
use crate::scheduler::SchedulerConfig;
use crate::types::{ActorId, ExitReason};

use super::frame::{FrameView, LeavingView, StageView};
use super::machine::LocalRuntime;
use super::spec::LocalView;

verus! {

/// An actor whose hook runs, or that leaves, is not in its place, so that it cannot get a second
/// turn meanwhile, and it is on the stack only once.
pub proof fn lemma_no_actor_runs_twice(runtime: LocalRuntime)
    requires
        runtime.wf(),
    ensures
        forall|i: int|
            0 <= i < runtime@.stack.len() ==> !runtime@.state.has(
                (#[trigger] runtime@.stack[i]).actor.id,
            ),
        forall|i: int, j: int|
            0 <= i < j < runtime@.stack.len() ==> (#[trigger] runtime@.stack[i]).actor.id != (
            #[trigger] runtime@.stack[j]).actor.id,
{
}

/// Whether a frame is of an actor that does not leave.
pub open spec fn bears(frame: FrameView, id: ActorId) -> bool {
    frame.actor.id == id && !(frame.stage is Leaving)
}

/// Whether an actor is in its place, or on the stack and does not leave.
pub open spec fn active(view: LocalView, id: ActorId) -> bool {
    view.state.has(id) || exists|i: int|
        0 <= i < view.stack.len() && #[trigger] bears(view.stack[i], id)
}

/// Whether an active actor has another one among its links.
pub open spec fn is_linked(view: LocalView, actor: ActorId, other: ActorId) -> bool {
    (view.state.has(actor) && view.state.actor(actor).links.contains(other)) || exists|i: int|
        0 <= i < view.stack.len() && #[trigger] bears(view.stack[i], actor)
            && view.stack[i].actor.links.contains(other)
}

/// Whether every link between active actors is noted at both ends.
pub open spec fn links_mutual(view: LocalView) -> bool {
    forall|actor: ActorId, other: ActorId| #[trigger]
        is_linked(view, actor, other) && active(view, other) ==> is_linked(view, other, actor)
}

/// Whether every link is with an actor that has been started.
pub open spec fn links_known(ids: ActorSlotAllocator, view: LocalView) -> bool {
    forall|actor: ActorId, other: ActorId| #[trigger]
        is_linked(view, actor, other) ==> ids.live(other) || ids.retired(other)
}

/// Whether all links are noted at both ends, and none is with an actor that has yet to be
/// started.
pub open spec fn links_sound(ids: ActorSlotAllocator, view: LocalView) -> bool {
    links_mutual(view) && links_known(ids, view)
}

/// Whether the same actors are active, with the same links.
pub open spec fn same_links(before: LocalView, after: LocalView) -> bool {
    &&& forall|id: ActorId| #[trigger] active(after, id) == active(before, id)
    &&& forall|actor: ActorId, other: ActorId| #[trigger]
        is_linked(after, actor, other) == is_linked(before, actor, other)
}

/// Whether every actor is where it was, with the same links.
pub open spec fn nobody_moved(before: LocalView, after: LocalView) -> bool {
    &&& after.state.actors.dom() == before.state.actors.dom()
    &&& forall|slot: u64| #[trigger]
        before.state.actors.contains_key(slot) ==> after.state.actors[slot].id
            == before.state.actors[slot].id && after.state.actors[slot].links
            == before.state.actors[slot].links
    &&& after.stack.len() == before.stack.len()
    &&& forall|i: int|
        0 <= i < before.stack.len() ==> {
            &&& (#[trigger] after.stack[i]).actor.id == before.stack[i].actor.id
            &&& after.stack[i].actor.links == before.stack[i].actor.links
            &&& after.stack[i].stage is Leaving == before.stack[i].stage is Leaving
        }
}

/// What moves nobody and leaves all links as they are keeps them sound.
pub proof fn lemma_nobody_moved(before: LocalView, after: LocalView)
    requires
        nobody_moved(before, after),
    ensures
        same_links(before, after),
{
    assert forall|id: ActorId| #[trigger] active(after, id) == active(before, id) by {
        if exists|i: int| 0 <= i < after.stack.len() && #[trigger] bears(after.stack[i], id) {
            let i = choose|i: int|
                0 <= i < after.stack.len() && #[trigger] bears(after.stack[i], id);
            assert(bears(before.stack[i], id));
        }
        if exists|i: int| 0 <= i < before.stack.len() && #[trigger] bears(before.stack[i], id) {
            let i = choose|i: int|
                0 <= i < before.stack.len() && #[trigger] bears(before.stack[i], id);
            assert(bears(after.stack[i], id));
        }
    }
    assert forall|actor: ActorId, other: ActorId| #[trigger]
        is_linked(after, actor, other) == is_linked(before, actor, other) by {
        if exists|i: int|
            0 <= i < after.stack.len() && #[trigger] bears(after.stack[i], actor)
                && after.stack[i].actor.links.contains(other) {
            let i = choose|i: int|
                0 <= i < after.stack.len() && #[trigger] bears(after.stack[i], actor)
                    && after.stack[i].actor.links.contains(other);
            assert(bears(before.stack[i], actor));
        }
        if exists|i: int|
            0 <= i < before.stack.len() && #[trigger] bears(before.stack[i], actor)
                && before.stack[i].actor.links.contains(other) {
            let i = choose|i: int|
                0 <= i < before.stack.len() && #[trigger] bears(before.stack[i], actor)
                    && before.stack[i].actor.links.contains(other);
            assert(bears(after.stack[i], actor));
        }
    }
}

/// Moving an actor from its place to the stack keeps all links.
pub proof fn lemma_taken_from_its_place(before: LocalView, after: LocalView, frame: FrameView)
    requires
        crate::runtime::table::table_ok(before.state.actors),
        before.state.has(frame.actor.id),
        frame.actor.links == before.state.actor(frame.actor.id).links,
        !(frame.stage is Leaving),
        after.state.actors == before.state.actors.remove(frame.actor.id.local_id),
        after.stack == before.stack.push(frame),
    ensures
        same_links(before, after),
{
    let last = before.stack.len() as int;
    let moved = frame.actor.id;
    assert(after.stack[last] == frame);
    assert(bears(after.stack[last], moved));
    assert forall|i: int, id: ActorId| 0 <= i < last implies #[trigger] bears(after.stack[i], id)
        == bears(before.stack[i], id) by {}
    assert forall|id: ActorId| #[trigger] active(after, id) == active(before, id) by {
        if exists|i: int| 0 <= i < after.stack.len() && #[trigger] bears(after.stack[i], id) {
            let i = choose|i: int|
                0 <= i < after.stack.len() && #[trigger] bears(after.stack[i], id);
            if i < last {
                assert(bears(before.stack[i], id));
            }
        }
        if exists|i: int| 0 <= i < before.stack.len() && #[trigger] bears(before.stack[i], id) {
            let i = choose|i: int|
                0 <= i < before.stack.len() && #[trigger] bears(before.stack[i], id);
            assert(bears(after.stack[i], id));
        }
    }
    assert forall|actor: ActorId, other: ActorId| #[trigger]
        is_linked(after, actor, other) == is_linked(before, actor, other) by {
        if exists|i: int|
            0 <= i < after.stack.len() && #[trigger] bears(after.stack[i], actor)
                && after.stack[i].actor.links.contains(other) {
            let i = choose|i: int|
                0 <= i < after.stack.len() && #[trigger] bears(after.stack[i], actor)
                    && after.stack[i].actor.links.contains(other);
            if i < last {
                assert(bears(before.stack[i], actor));
            }
        }
        if exists|i: int|
            0 <= i < before.stack.len() && #[trigger] bears(before.stack[i], actor)
                && before.stack[i].actor.links.contains(other) {
            let i = choose|i: int|
                0 <= i < before.stack.len() && #[trigger] bears(before.stack[i], actor)
                    && before.stack[i].actor.links.contains(other);
            assert(bears(after.stack[i], actor));
        }
    }
}

/// Moving the actor on top of the stack to its place keeps all links.
pub proof fn lemma_put_in_its_place(
    ids: ActorSlotAllocator,
    before: LocalView,
    after: LocalView,
    actor: ActorView,
)
    requires
        super::machine::ids_ok(ids, before),
        before.stack.len() > 0,
        bears(before.top(), actor.id),
        actor.links == before.top().actor.links,
        after.state.actors == before.state.actors.insert(actor.id.local_id, actor),
        after.stack == before.stack.drop_last(),
    ensures
        same_links(before, after),
{
    let last = before.stack.len() - 1;
    let moved = actor.id;
    assert(before.stack[last] == before.top());
    assert(bears(before.stack[last], moved));
    assert(!before.state.actors.contains_key(before.stack[last].actor.id.local_id));
    assert forall|i: int, id: ActorId| 0 <= i < last implies #[trigger] bears(after.stack[i], id)
        == bears(before.stack[i], id) by {}
    assert forall|id: ActorId| #[trigger] active(after, id) == active(before, id) by {
        if exists|i: int| 0 <= i < after.stack.len() && #[trigger] bears(after.stack[i], id) {
            let i = choose|i: int|
                0 <= i < after.stack.len() && #[trigger] bears(after.stack[i], id);
            assert(bears(before.stack[i], id));
        }
        if exists|i: int| 0 <= i < before.stack.len() && #[trigger] bears(before.stack[i], id) {
            let i = choose|i: int|
                0 <= i < before.stack.len() && #[trigger] bears(before.stack[i], id);
            if i < last {
                assert(bears(after.stack[i], id));
            } else {
                assert(after.state.has(id));
            }
        }
    }
    assert forall|one: ActorId, other: ActorId| #[trigger]
        is_linked(after, one, other) == is_linked(before, one, other) by {
        if exists|i: int|
            0 <= i < after.stack.len() && #[trigger] bears(after.stack[i], one)
                && after.stack[i].actor.links.contains(other) {
            let i = choose|i: int|
                0 <= i < after.stack.len() && #[trigger] bears(after.stack[i], one)
                    && after.stack[i].actor.links.contains(other);
            assert(bears(before.stack[i], one));
        }
        if exists|i: int|
            0 <= i < before.stack.len() && #[trigger] bears(before.stack[i], one)
                && before.stack[i].actor.links.contains(other) {
            let i = choose|i: int|
                0 <= i < before.stack.len() && #[trigger] bears(before.stack[i], one)
                    && before.stack[i].actor.links.contains(other);
            if i < last {
                assert(bears(after.stack[i], one));
            }
        }
    }
}

/// What keeps all links keeps them sound.
pub proof fn lemma_same_links_stay_sound(
    ids: ActorSlotAllocator,
    before: LocalView,
    after: LocalView,
)
    requires
        links_sound(ids, before),
        same_links(before, after),
    ensures
        links_sound(ids, after),
{
}

/// A delivery to an actor in its place keeps all links.
pub proof fn lemma_delivery_keeps_links(before: LocalView, to: ActorId, envelope: Envelope)
    ensures
        same_links(before, before.sent(to, envelope)),
        same_links(before, before.pushed(to, envelope)),
{
    assert(before.sent(to, envelope).state.actors.dom() =~= before.state.actors.dom());
    assert(before.pushed(to, envelope).state.actors.dom() =~= before.state.actors.dom());
    lemma_nobody_moved(before, before.sent(to, envelope));
    lemma_nobody_moved(before, before.pushed(to, envelope));
}

/// Condemning an actor keeps all links until its termination hook is over.
pub proof fn lemma_condemning_keeps_links(before: LocalView, id: ActorId, reason: ExitReason)
    requires
        crate::runtime::table::table_ok(before.state.actors),
    ensures
        same_links(before, before.condemned(id, reason)),
{
    if before.state.has(id) {
        let after = before.condemned(id, reason);
        lemma_taken_from_its_place(before, after, after.stack.last());
    } else {
        lemma_nobody_moved(before, before);
    }
}

/// An exit signal keeps all links of the actor that it is sent to and of all others.
pub proof fn lemma_signal_keeps_links(
    before: LocalView,
    target: ActorId,
    signal: ExitSignal,
    after: LocalView,
)
    requires
        crate::runtime::table::table_ok(before.state.actors),
        before.signalled(target, signal, after),
    ensures
        same_links(before, after),
{
    lemma_nobody_moved(before, before);
    if before.state.has(target) {
        let exit = Envelope::Exit(signal);
        let disposition = crate::internal::exit_signal::disposition(
            before.state.actor(target).trap_exit,
            signal,
        );
        if disposition is KillNow {
            lemma_condemning_keeps_links(before, target, signal.reason);
        } else if disposition is Enqueue {
            lemma_delivery_keeps_links(before, target, exit);
            if before.state.actor(target).mailbox.refuses(exit) {
                let sent = before.sent(target, exit);
                let reason = choose|reason: ExitReason| #[trigger]
                    crate::internal::error::is_overflow(reason, target, "exit"@) && after
                        == sent.condemned(target, reason);
                assert(crate::runtime::table::table_ok(sent.state.actors));
                lemma_condemning_keeps_links(sent, target, reason);
            }
        }
    }
}

/// A turn that an actor survives, or at whose end it has to exit, keeps all links.
pub proof fn lemma_turns_keep_links(
    ids: ActorSlotAllocator,
    before: LocalView,
    actor: ActorView,
    reason: ExitReason,
)
    requires
        super::machine::ids_ok(ids, before),
        before.stack.len() > 0,
        before.top().stage is Running,
        actor.id == before.top().actor.id,
        actor.links == before.top().actor.links,
    ensures
        same_links(before, before.with_current(actor)),
        same_links(before, before.with_current(actor).doomed(reason)),
        same_links(before, before.with_current(actor).returned()),
        same_links(before, before.popped().with_state(before.state.with(actor.parked()))),
{
    let current = before.with_current(actor);
    lemma_nobody_moved(before, current);
    lemma_nobody_moved(before, current.doomed(reason));
    assert(bears(before.top(), actor.id));
    let parked = before.popped().with_state(before.state.with(actor.parked()));
    lemma_put_in_its_place(ids, before, parked, actor.parked());
    let returned = current.returned();
    assert(current.stack.drop_last() =~= before.stack.drop_last());
    lemma_put_in_its_place(ids, before, returned, returned.state.actor(actor.id));
}

/// Giving the next actor in line a turn keeps all links.
pub proof fn lemma_picking_keeps_links(before: LocalView, id: ActorId, queue: Seq<ActorId>)
    requires
        crate::runtime::table::table_ok(before.state.actors),
        before.state.has(id),
    ensures
        ({
            let frame = FrameView {
                actor: super::turns::picked(before.state.actor(id)),
                effects: TurnEffects::none(),
                stage: StageView::Running,
            };
            same_links(
                before,
                LocalView {
                    state: before.state.without(id),
                    queue,
                    stack: before.stack.push(frame),
                },
            )
        }),
{
    let frame = FrameView {
        actor: super::turns::picked(before.state.actor(id)),
        effects: TurnEffects::none(),
        stage: StageView::Running,
    };
    let after = LocalView {
        state: before.state.without(id),
        queue,
        stack: before.stack.push(frame),
    };
    lemma_taken_from_its_place(before, after, frame);
}

/// An actor whose termination hook is over is no longer active, and the links among all others
/// are as before.
pub proof fn lemma_terminating_keeps_links_sound(
    ids: ActorSlotAllocator,
    before: LocalView,
    reason: ExitReason,
)
    requires
        super::machine::ids_ok(ids, before),
        links_sound(ids, before),
        before.stack.len() > 0,
        before.top().stage is Terminating,
    ensures
        links_sound(ids, before.terminated(reason)),
        !active(before.terminated(reason), before.top().actor.id),
{
    let after = before.terminated(reason);
    let gone = before.top().actor;
    let last = before.stack.len() - 1;
    assert(before.stack[last] == before.top());
    let renounced = before.state.released(gone.id).renounced(gone);
    super::exits::lemma_dropping_keeps_ids(
        renounced,
        gone.id,
        crate::collections::ascending_pairs(gone.monitors_out),
    );
    lemma_dropping_keeps_links(
        renounced,
        gone.id,
        crate::collections::ascending_pairs(gone.monitors_out),
    );
    assert(after.state.actors.dom() =~= before.state.actors.dom());
    assert forall|i: int, id: ActorId| 0 <= i < last implies #[trigger] bears(after.stack[i], id)
        == bears(before.stack[i], id) by {}
    assert forall|id: ActorId| !(#[trigger] bears(after.stack[last], id)) by {}
    assert forall|id: ActorId| #[trigger] active(after, id) implies active(before, id) && id
        != gone.id by {
        if after.state.has(id) {
            assert(before.state.actors.contains_key(id.local_id));
        } else {
            let i = choose|i: int|
                0 <= i < after.stack.len() && #[trigger] bears(after.stack[i], id);
            assert(bears(before.stack[i], id));
            assert(before.stack[i].actor.id != before.stack[last].actor.id);
        }
    }
    assert forall|one: ActorId, other: ActorId| #[trigger] is_linked(after, one, other) == (
    is_linked(before, one, other) && one != gone.id) by {
        if is_linked(after, one, other) && !(after.state.has(one) && after.state.actor(
            one,
        ).links.contains(other)) {
            let i = choose|i: int|
                0 <= i < after.stack.len() && #[trigger] bears(after.stack[i], one)
                    && after.stack[i].actor.links.contains(other);
            assert(bears(before.stack[i], one));
            assert(before.stack[i].actor.id != before.stack[last].actor.id);
        }
        if is_linked(before, one, other) && one != gone.id && !(before.state.has(one)
            && before.state.actor(one).links.contains(other)) {
            let i = choose|i: int|
                0 <= i < before.stack.len() && #[trigger] bears(before.stack[i], one)
                    && before.stack[i].actor.links.contains(other);
            assert(bears(after.stack[i], one));
        }
        if after.state.has(one) {
            assert(before.state.actors.contains_key(one.local_id));
            assert(one != gone.id);
        }
        if before.state.has(one) {
            assert(after.state.actors.contains_key(one.local_id));
        }
    }
}

proof fn lemma_dropping_keeps_links(
    state: StateView,
    actor: ActorId,
    monitoring: Seq<(crate::types::Ref, ActorId)>,
)
    ensures
        forall|slot: u64| #[trigger]
            state.actors.contains_key(slot) ==> state.watches_dropped(
                actor,
                monitoring,
            ).actors[slot].links == state.actors[slot].links,
    decreases monitoring.len(),
{
    if monitoring.len() > 0 {
        lemma_dropping_keeps_links(state, actor, monitoring.drop_last());
        super::exits::lemma_dropping_keeps_ids(state, actor, monitoring.drop_last());
        let others = state.watches_dropped(actor, monitoring.drop_last());
        assert forall|slot: u64| #[trigger]
            state.actors.contains_key(slot) implies state.watches_dropped(
            actor,
            monitoring,
        ).actors[slot].links == state.actors[slot].links by {
            assert(others.actors.contains_key(slot));
        }
    }
}

/// Every step of an actor that leaves keeps the links among all others sound, and the actor does
/// not become active again.
pub proof fn lemma_leaving_keeps_links_sound(
    ids: ActorSlotAllocator,
    before: LocalView,
    leaving: LeavingView,
    after: LocalView,
)
    requires
        super::machine::ids_ok(ids, before),
        crate::runtime::table::table_ok(before.state.actors),
        links_sound(ids, before),
        before.stack.len() > 0,
        before.top().stage == StageView::Leaving(leaving),
        before.leave_step(leaving, after),
    ensures
        links_sound(ids, after),
        !active(after, before.top().actor.id),
{
    let gone = before.top().actor.id;
    lemma_not_active(ids, before);
    let last = before.stack.len() - 1;
    assert(before.stack[last] == before.top());
    if leaving.owed is Some {
        lemma_nobody_moved(before, after);
    } else if leaving.watchers.len() > 0 {
        lemma_watcher_told_keeps_links(before, leaving, after);
    } else if leaving.links.len() > 0 {
        lemma_linked_told_keeps_links_sound(ids, before, leaving, after);
    } else {
        lemma_gone_keeps_links(before, leaving);
    }
}

proof fn lemma_not_active(ids: ActorSlotAllocator, view: LocalView)
    requires
        super::machine::ids_ok(ids, view),
        view.stack.len() > 0,
        view.top().stage is Leaving,
    ensures
        !active(view, view.top().actor.id),
{
    let last = view.stack.len() - 1;
    let gone = view.stack[last].actor.id;
    assert(view.top() == view.stack[last]);
    if exists|i: int| 0 <= i < view.stack.len() && #[trigger] bears(view.stack[i], gone) {
        let i = choose|i: int| 0 <= i < view.stack.len() && #[trigger] bears(view.stack[i], gone);
        assert(view.stack[i].actor.id == view.stack[last].actor.id);
    }
}

proof fn lemma_watcher_told_keeps_links(
    before: LocalView,
    leaving: LeavingView,
    after: LocalView,
)
    requires
        crate::runtime::table::table_ok(before.state.actors),
        before.stack.len() > 0,
        before.top().stage == StageView::Leaving(leaving),
        leaving.watchers.len() > 0,
        before.watcher_told(leaving, after),
    ensures
        same_links(before, after),
{
    let actor = before.top().actor.id;
    let (reference, watcher) = leaving.watchers[0];
    let rest = LeavingView { watchers: leaving.watchers.drop_first(), ..leaving };
    if watcher == actor {
        lemma_nobody_moved(before, after);
    } else {
        let down = Envelope::Down(
            crate::envelope::DownMessage { reference, actor, reason: leaving.reason },
        );
        let freed = before.with_state(before.state.watching_removed(watcher, reference));
        assert(freed.state.actors.dom() =~= before.state.actors.dom());
        let pushed = freed.pushed(watcher, down);
        assert(pushed.state.actors.dom() =~= before.state.actors.dom());
        if before.state.has(watcher) && before.state.actor(watcher).mailbox.refuses(down) {
            let owing = pushed.left(LeavingView { owed: Some((reference, watcher)), ..rest });
            let reason = choose|reason: ExitReason| #[trigger]
                crate::internal::error::is_overflow(reason, watcher, "down"@) && after
                    == owing.condemned(watcher, reason);
            lemma_nobody_moved(before, owing);
            assert(crate::runtime::table::table_ok(owing.state.actors));
            lemma_condemning_keeps_links(owing, watcher, reason);
        } else {
            lemma_nobody_moved(before, after);
        }
    }
}

proof fn lemma_linked_told_keeps_links_sound(
    ids: ActorSlotAllocator,
    before: LocalView,
    leaving: LeavingView,
    after: LocalView,
)
    requires
        super::machine::ids_ok(ids, before),
        crate::runtime::table::table_ok(before.state.actors),
        links_sound(ids, before),
        before.stack.len() > 0,
        before.top().stage == StageView::Leaving(leaving),
        leaving.links.len() > 0,
        before.linked_told(leaving, after),
    ensures
        links_sound(ids, after),
        !active(after, before.top().actor.id),
{
    let actor = before.top().actor.id;
    let other = leaving.links[0];
    let rest = before.left(LeavingView { links: leaving.links.drop_first(), ..leaving });
    lemma_nobody_moved(before, rest);
    lemma_not_active(ids, before);
    if other != actor {
        let freed = rest.with_state(rest.state.link_removed(other, actor));
        assert(freed.state.actors.dom() =~= rest.state.actors.dom());
        assert(crate::runtime::table::table_ok(freed.state.actors));
        assert forall|id: ActorId| #[trigger] active(freed, id) == active(rest, id) by {
            assert(freed.stack == rest.stack);
            assert(freed.state.has(id) == rest.state.has(id));
        }
        assert forall|one: ActorId, two: ActorId| #[trigger] is_linked(
            freed,
            one,
            two,
        ) implies is_linked(rest, one, two) by {
            assert(freed.stack == rest.stack);
        }
        assert forall|one: ActorId, two: ActorId| #[trigger] is_linked(rest, one, two) && two
            != actor implies is_linked(freed, one, two) by {
            assert(freed.stack == rest.stack);
        }
        assert forall|two: ActorId| !#[trigger] is_linked(rest, actor, two) by {
            if is_linked(rest, actor, two) {
                assert(active(rest, actor));
            }
        }
        assert(links_mutual(freed)) by {
            assert forall|one: ActorId, two: ActorId| #[trigger] is_linked(freed, one, two)
                && active(freed, two) implies is_linked(freed, two, one) by {
                assert(is_linked(rest, one, two));
                assert(active(rest, two));
                assert(is_linked(rest, two, one));
                assert(one != actor);
            }
        }
        let signal = ExitSignal { from: actor, reason: leaving.linked_reason, linked: true };
        lemma_signal_keeps_links(freed, other, signal, after);
    }
}

proof fn lemma_gone_keeps_links(before: LocalView, leaving: LeavingView)
    requires
        before.stack.len() > 0,
        before.top().stage is Leaving,
    ensures
        same_links(before, before.gone(leaving)),
{
    let after = before.gone(leaving);
    let last = before.stack.len() - 1;
    assert(before.stack[last] == before.top());
    assert forall|i: int, id: ActorId| 0 <= i < last implies #[trigger] bears(after.stack[i], id)
        == bears(before.stack[i], id) by {}
    assert(after.state.actors == before.state.actors);
    assert forall|id: ActorId| #[trigger] active(after, id) == active(before, id) by {
        if exists|i: int| 0 <= i < before.stack.len() && #[trigger] bears(before.stack[i], id) {
            let i = choose|i: int|
                0 <= i < before.stack.len() && #[trigger] bears(before.stack[i], id);
            assert(bears(after.stack[i], id));
        }
        if exists|i: int| 0 <= i < after.stack.len() && #[trigger] bears(after.stack[i], id) {
            let i = choose|i: int|
                0 <= i < after.stack.len() && #[trigger] bears(after.stack[i], id);
            assert(bears(before.stack[i], id));
        }
    }
    assert forall|one: ActorId, other: ActorId| #[trigger]
        is_linked(after, one, other) == is_linked(before, one, other) by {
        if exists|i: int|
            0 <= i < before.stack.len() && #[trigger] bears(before.stack[i], one)
                && before.stack[i].actor.links.contains(other) {
            let i = choose|i: int|
                0 <= i < before.stack.len() && #[trigger] bears(before.stack[i], one)
                    && before.stack[i].actor.links.contains(other);
            assert(bears(after.stack[i], one));
        }
        if exists|i: int|
            0 <= i < after.stack.len() && #[trigger] bears(after.stack[i], one)
                && after.stack[i].actor.links.contains(other) {
            let i = choose|i: int|
                0 <= i < after.stack.len() && #[trigger] bears(after.stack[i], one)
                    && after.stack[i].actor.links.contains(other);
            assert(bears(before.stack[i], one));
        }
    }
}

/// What linking and unlinking do to the links between all pairs of actors.
proof fn lemma_relinked(ids: ActorSlotAllocator, before: LocalView, other: ActorId)
    requires
        super::machine::ids_ok(ids, before),
        before.in_hook(),
        before.state.has(other),
    ensures
        forall|id: ActorId| #[trigger] active(before.linked(other), id) == active(before, id),
        forall|id: ActorId| #[trigger] active(before.unlinked(other), id) == active(before, id),
        forall|one: ActorId, two: ActorId| #[trigger]
            is_linked(before.linked(other), one, two) == (is_linked(before, one, two) || (one
                == before.top().actor.id && two == other) || (one == other && two
                == before.top().actor.id)),
        forall|one: ActorId, two: ActorId| #[trigger]
            is_linked(before.unlinked(other), one, two) == (is_linked(before, one, two) && !(one
                == before.top().actor.id && two == other) && !(one == other && two
                == before.top().actor.id)),
{
    let current = before.top().actor.id;
    let last = before.stack.len() - 1;
    assert(before.stack[last] == before.top());
    let tied = before.linked(other);
    let free = before.unlinked(other);
    assert forall|i: int, id: ActorId| 0 <= i <= last implies #[trigger] bears(tied.stack[i], id)
        == bears(before.stack[i], id) by {}
    assert forall|i: int, id: ActorId| 0 <= i <= last implies #[trigger] bears(free.stack[i], id)
        == bears(before.stack[i], id) by {}
    assert forall|i: int| 0 <= i < last implies (#[trigger] before.stack[i]).actor.id
        != current by {
        assert(before.stack[i].actor.id != before.stack[last].actor.id);
    }
    assert(bears(before.stack[last], current));
    assert(bears(tied.stack[last], current));
    assert(!before.state.actors.contains_key(before.stack[last].actor.id.local_id));
    assert forall|id: ActorId| #[trigger] active(tied, id) == active(before, id) by {
        if exists|i: int| 0 <= i < before.stack.len() && #[trigger] bears(before.stack[i], id) {
            let i = choose|i: int|
                0 <= i < before.stack.len() && #[trigger] bears(before.stack[i], id);
            assert(bears(tied.stack[i], id));
        }
    }
    assert forall|id: ActorId| #[trigger] active(free, id) == active(before, id) by {
        if exists|i: int| 0 <= i < before.stack.len() && #[trigger] bears(before.stack[i], id) {
            let i = choose|i: int|
                0 <= i < before.stack.len() && #[trigger] bears(before.stack[i], id);
            assert(bears(free.stack[i], id));
        }
    }
    assert forall|one: ActorId, two: ActorId| #[trigger] is_linked(tied, one, two) == (is_linked(
        before,
        one,
        two,
    ) || (one == current && two == other) || (one == other && two == current)) by {
        if exists|i: int|
            0 <= i < before.stack.len() && #[trigger] bears(before.stack[i], one)
                && before.stack[i].actor.links.contains(two) {
            let i = choose|i: int|
                0 <= i < before.stack.len() && #[trigger] bears(before.stack[i], one)
                    && before.stack[i].actor.links.contains(two);
            assert(bears(tied.stack[i], one));
        }
        if exists|i: int|
            0 <= i < tied.stack.len() && #[trigger] bears(tied.stack[i], one)
                && tied.stack[i].actor.links.contains(two) {
            let i = choose|i: int|
                0 <= i < tied.stack.len() && #[trigger] bears(tied.stack[i], one)
                    && tied.stack[i].actor.links.contains(two);
            assert(bears(before.stack[i], one));
        }
    }
    assert forall|one: ActorId, two: ActorId| #[trigger] is_linked(free, one, two) == (is_linked(
        before,
        one,
        two,
    ) && !(one == current && two == other) && !(one == other && two == current)) by {
        if exists|i: int|
            0 <= i < before.stack.len() && #[trigger] bears(before.stack[i], one)
                && before.stack[i].actor.links.contains(two) {
            let i = choose|i: int|
                0 <= i < before.stack.len() && #[trigger] bears(before.stack[i], one)
                    && before.stack[i].actor.links.contains(two);
            assert(bears(free.stack[i], one));
            if i < last {
                assert(one != current);
            }
        }
        if exists|i: int|
            0 <= i < free.stack.len() && #[trigger] bears(free.stack[i], one)
                && free.stack[i].actor.links.contains(two) {
            let i = choose|i: int|
                0 <= i < free.stack.len() && #[trigger] bears(free.stack[i], one)
                    && free.stack[i].actor.links.contains(two);
            assert(bears(before.stack[i], one));
            assert(before.stack[i].actor.id != other) by {
                assert(!before.state.actors.contains_key(before.stack[i].actor.id.local_id));
            }
        }
    }
}

/// Linking keeps all links sound and links both actors with each other.
pub proof fn lemma_link_ties_both(ids: ActorSlotAllocator, before: LocalView, other: ActorId)
    requires
        super::machine::ids_ok(ids, before),
        links_sound(ids, before),
        before.in_hook(),
        before.state.has(other),
    ensures
        links_sound(ids, before.linked(other)),
        is_linked(before.linked(other), before.top().actor.id, other),
        is_linked(before.linked(other), other, before.top().actor.id),
{
    lemma_relinked(ids, before, other);
    assert(before.state.actors.contains_key(other.local_id));
    assert(ids.live(before.stack[before.stack.len() - 1].actor.id));
}

/// Unlinking keeps all links sound, and neither actor is linked with the other any more.
pub proof fn lemma_unlink_unties_both(ids: ActorSlotAllocator, before: LocalView, other: ActorId)
    requires
        super::machine::ids_ok(ids, before),
        links_sound(ids, before),
        before.in_hook(),
        before.state.has(other),
    ensures
        links_sound(ids, before.unlinked(other)),
        !is_linked(before.unlinked(other), before.top().actor.id, other),
        !is_linked(before.unlinked(other), other, before.top().actor.id),
{
    lemma_relinked(ids, before, other);
}

/// What a new actor with a fresh id does to the links between all pairs of actors.
proof fn lemma_admitted(
    ids: ActorSlotAllocator,
    before: LocalView,
    current: ActorView,
    actor: ActorView,
    after: LocalView,
)
    requires
        super::machine::ids_ok(ids, before),
        !ids.live(actor.id),
        before.stack.len() > 0 ==> current.id == before.top().actor.id,
        before.stack.len() > 0 && !before.in_hook() ==> current == before.top().actor,
        after.state == before.state.admitted(actor),
        before.stack.len() > 0 ==> after.stack =~= before.with_current(current).stack,
        before.stack.len() == 0 ==> after.stack == before.stack,
        !before.state.actors.contains_key(actor.id.local_id),
    ensures
        forall|id: ActorId| #[trigger]
            active(after, id) == (active(before, id) || id == actor.id),
        forall|one: ActorId, two: ActorId| #[trigger]
            is_linked(after, one, two) == (if one == actor.id {
                actor.links.contains(two)
            } else if before.in_hook() && one == current.id {
                current.links.contains(two)
            } else {
                is_linked(before, one, two)
            }),
{
    let last = before.stack.len() - 1;
    if before.stack.len() > 0 {
        assert(before.stack[last] == before.top());
    }
    assert forall|i: int, id: ActorId| 0 <= i <= last implies #[trigger] bears(after.stack[i], id)
        == bears(before.stack[i], id) by {}
    assert forall|i: int| 0 <= i < before.stack.len() implies {
        &&& (#[trigger] before.stack[i]).actor.id != actor.id
        &&& !before.state.has(before.stack[i].actor.id)
    } by {
        assert(ids.live(before.stack[i].actor.id));
    }
    assert forall|i: int| 0 <= i < last implies (#[trigger] before.stack[i]).actor.id
        != current.id by {
        assert(before.stack[i].actor.id != before.stack[last].actor.id);
    }
    assert(after.state.has(actor.id));
    assert forall|id: ActorId| id != actor.id implies #[trigger] after.state.has(id)
        == before.state.has(id) && (before.state.has(id) ==> after.state.actor(id).links
        == before.state.actor(id).links) by {}
    assert forall|id: ActorId| #[trigger] active(after, id) == (active(before, id) || id
        == actor.id) by {
        if exists|i: int| 0 <= i < before.stack.len() && #[trigger] bears(before.stack[i], id) {
            let i = choose|i: int|
                0 <= i < before.stack.len() && #[trigger] bears(before.stack[i], id);
            assert(bears(after.stack[i], id));
        }
        if exists|i: int| 0 <= i < after.stack.len() && #[trigger] bears(after.stack[i], id) {
            let i = choose|i: int|
                0 <= i < after.stack.len() && #[trigger] bears(after.stack[i], id);
            assert(bears(before.stack[i], id));
        }
    }
    assert forall|one: ActorId, two: ActorId| #[trigger] is_linked(after, one, two) == (if one
        == actor.id {
        actor.links.contains(two)
    } else if before.in_hook() && one == current.id {
        current.links.contains(two)
    } else {
        is_linked(before, one, two)
    }) by {
        if exists|i: int|
            0 <= i < before.stack.len() && #[trigger] bears(before.stack[i], one)
                && before.stack[i].actor.links.contains(two) {
            let i = choose|i: int|
                0 <= i < before.stack.len() && #[trigger] bears(before.stack[i], one)
                    && before.stack[i].actor.links.contains(two);
            assert(bears(after.stack[i], one));
            if i == last {
                assert(one == current.id);
            }
        }
        if exists|i: int|
            0 <= i < after.stack.len() && #[trigger] bears(after.stack[i], one)
                && after.stack[i].actor.links.contains(two) {
            let i = choose|i: int|
                0 <= i < after.stack.len() && #[trigger] bears(after.stack[i], one)
                    && after.stack[i].actor.links.contains(two);
            assert(bears(before.stack[i], one));
            if i == last {
                assert(one == current.id);
            }
        }
        if before.in_hook() && one == current.id {
            assert(bears(after.stack[last], one));
        }
    }
}

/// A new actor that the current one spawns keeps all links sound, and both are linked with each
/// other when the options ask for that.
pub proof fn lemma_spawn_keeps_links_sound(
    ids: ActorSlotAllocator,
    more_ids: ActorSlotAllocator,
    before: LocalView,
    name: &'static str,
    options: SpawnOptions,
    config: SchedulerConfig,
)
    requires
        super::machine::ids_ok(ids, before),
        crate::runtime::table::table_ok(before.state.actors),
        links_sound(ids, before),
        before.in_hook(),
        super::machine::allocated(ids, more_ids, ids.next_id()),
    ensures
        ({
            let current = before.top().actor;
            let id = ids.next_id();
            let actor = super::services::spawned_view(current, id, name, options, config);
            let after = before.with_current(
                super::services::spawner_after(current, id, options),
            ).with_state(before.state.admitted(actor)).queued(id, true);
            &&& links_sound(more_ids, after)
            &&& options.link_to_parent ==> is_linked(after, id, current.id) && is_linked(
                after,
                current.id,
                id,
            )
        }),
{
    let current = before.top().actor;
    let id = ids.next_id();
    let actor = super::services::spawned_view(current, id, name, options, config);
    let spawner = super::services::spawner_after(current, id, options);
    let after = before.with_current(spawner).with_state(before.state.admitted(actor)).queued(
        id,
        true,
    );
    let last = before.stack.len() - 1;
    assert(before.stack[last] == before.top());
    assert(more_ids.live(id));
    lemma_fresh_slot_is_free(ids, more_ids, before, id);
    lemma_admitted(ids, before, spawner, actor, after);
    assert(ids.live(current.id));
    assert forall|two: ActorId| is_linked(before, current.id, two) == current.links.contains(
        two,
    ) by {
        if current.links.contains(two) {
            assert(bears(before.stack[last], current.id));
        }
        if is_linked(before, current.id, two) {
            let i = choose|i: int|
                0 <= i < before.stack.len() && #[trigger] bears(before.stack[i], current.id)
                    && before.stack[i].actor.links.contains(two);
            if i < last {
                assert(before.stack[i].actor.id != before.stack[last].actor.id);
            }
        }
    }
    assert forall|one: ActorId| !is_linked(before, one, id) by {
        if is_linked(before, one, id) {
            assert(ids.live(id) || ids.retired(id));
        }
    }
    assert forall|one: ActorId, two: ActorId| #[trigger] is_linked(after, one, two) && active(
        after,
        two,
    ) implies is_linked(after, two, one) by {
        if one != id && two != id {
            assert(is_linked(before, one, two));
            assert(is_linked(before, two, one));
        }
    }
    assert forall|one: ActorId, two: ActorId| #[trigger] is_linked(after, one, two) implies
        more_ids.live(two) || more_ids.retired(two) by {
        assert(more_ids.live(current.id));
        if one != id && two != id {
            assert(is_linked(before, one, two));
            assert(ids.live(two) ==> more_ids.live(two));
            assert(ids.retired(two) ==> more_ids.retired(two));
        }
    }
}

/// A new actor from outside keeps all links sound; it has none of its own.
pub proof fn lemma_entering_keeps_links_sound(
    ids: ActorSlotAllocator,
    more_ids: ActorSlotAllocator,
    before: LocalView,
    name: &'static str,
    options: SpawnOptions,
    config: SchedulerConfig,
)
    requires
        super::machine::ids_ok(ids, before),
        crate::runtime::table::table_ok(before.state.actors),
        links_sound(ids, before),
        super::machine::allocated(ids, more_ids, ids.next_id()),
    ensures
        ({
            let id = ids.next_id();
            let actor = ActorView::fresh(id, name, options, config, 0).marked();
            let after = before.with_state(before.state.admitted(actor)).queued(id, true);
            &&& links_sound(more_ids, after)
            &&& forall|other: ActorId| !#[trigger] is_linked(after, id, other)
        }),
{
    let id = ids.next_id();
    let actor = ActorView::fresh(id, name, options, config, 0).marked();
    let after = before.with_state(before.state.admitted(actor)).queued(id, true);
    lemma_fresh_slot_is_free(ids, more_ids, before, id);
    let current = if before.stack.len() > 0 {
        before.top().actor
    } else {
        actor
    };
    if before.stack.len() > 0 {
        let last = before.stack.len() - 1;
        assert(before.stack[last] == before.top());
        assert(before.with_current(current).stack =~= before.stack);
        assert forall|two: ActorId| before.in_hook() implies is_linked(before, current.id, two)
            == current.links.contains(two) by {
            if current.links.contains(two) {
                assert(bears(before.stack[last], current.id));
            }
            if is_linked(before, current.id, two) {
                let i = choose|i: int|
                    0 <= i < before.stack.len() && #[trigger] bears(before.stack[i], current.id)
                        && before.stack[i].actor.links.contains(two);
                if i < last {
                    assert(before.stack[i].actor.id != before.stack[last].actor.id);
                }
            }
        }
    }
    lemma_admitted(ids, before, current, actor, after);
    assert forall|one: ActorId| !is_linked(before, one, id) by {
        if is_linked(before, one, id) {
            assert(ids.live(id) || ids.retired(id));
        }
    }
    assert forall|one: ActorId, two: ActorId| #[trigger] is_linked(after, one, two) && active(
        after,
        two,
    ) implies is_linked(after, two, one) by {
        assert(is_linked(before, one, two));
        assert(two != id);
        assert(is_linked(before, two, one));
    }
    assert forall|one: ActorId, two: ActorId| #[trigger] is_linked(after, one, two) implies
        more_ids.live(two) || more_ids.retired(two) by {
        assert(is_linked(before, one, two));
        assert(ids.live(two) ==> more_ids.live(two));
        assert(ids.retired(two) ==> more_ids.retired(two));
    }
}

proof fn lemma_fresh_slot_is_free(
    ids: ActorSlotAllocator,
    more_ids: ActorSlotAllocator,
    view: LocalView,
    id: ActorId,
)
    requires
        super::machine::ids_ok(ids, view),
        crate::runtime::table::table_ok(view.state.actors),
        super::machine::allocated(ids, more_ids, id),
    ensures
        !view.state.actors.contains_key(id.local_id),
{
    assert(more_ids.live(id));
    if view.state.actors.contains_key(id.local_id) {
        let other = view.state.actors[id.local_id].id;
        assert(ids.live(other));
        assert(more_ids.live(other));
    }
}

/// An actor that leaves takes a linked actor in its place with it, unless that one traps exits or
/// the exit is normal.
pub proof fn lemma_linked_exit_condemns(before: LocalView, leaving: LeavingView, after: LocalView)
    requires
        before.stack.len() > 0,
        before.top().stage == StageView::Leaving(leaving),
        leaving.owed is None,
        leaving.watchers.len() == 0,
        leaving.links.len() > 0,
        leaving.links[0] != before.top().actor.id,
        before.state.has(leaving.links[0]),
        leaving.linked_reason is Kill || (!before.state.actor(leaving.links[0]).trap_exit && !(
        leaving.linked_reason is Normal)),
        before.leave_step(leaving, after),
    ensures
        after.top().actor.id == leaving.links[0],
        after.top().stage == StageView::Condemned(leaving.linked_reason),
        !after.state.has(leaving.links[0]),
{
}

/// A normal exit changes nothing of a linked actor in its place that does not trap exits but the
/// link.
pub proof fn lemma_normal_exit_only_unlinks(
    before: LocalView,
    leaving: LeavingView,
    after: LocalView,
)
    requires
        before.stack.len() > 0,
        before.top().stage == StageView::Leaving(leaving),
        leaving.owed is None,
        leaving.watchers.len() == 0,
        leaving.links.len() > 0,
        leaving.links[0] != before.top().actor.id,
        before.state.has(leaving.links[0]),
        !before.state.actor(leaving.links[0]).trap_exit,
        leaving.linked_reason is Normal,
        before.leave_step(leaving, after),
    ensures
        after.state == before.state.with(
            (ActorView {
                links: before.state.actor(leaving.links[0]).links.remove(before.top().actor.id),
                ..before.state.actor(leaving.links[0])
            }),
        ),
        after.stack.len() == before.stack.len(),
{
}

/// An actor that leaves leaves a message with a linked actor in its place that traps exits, as
/// long as there is room for it and the exit is not a kill.
pub proof fn lemma_trapped_exit_is_a_message(
    before: LocalView,
    leaving: LeavingView,
    after: LocalView,
)
    requires
        before.stack.len() > 0,
        before.top().stage == StageView::Leaving(leaving),
        leaving.owed is None,
        leaving.watchers.len() == 0,
        leaving.links.len() > 0,
        leaving.links[0] != before.top().actor.id,
        before.state.has(leaving.links[0]),
        before.state.actor(leaving.links[0]).trap_exit,
        !(leaving.linked_reason is Kill),
        !before.state.actor(leaving.links[0]).mailbox.refuses(
            Envelope::Exit(
                ExitSignal {
                    from: before.top().actor.id,
                    reason: leaving.linked_reason,
                    linked: true,
                },
            ),
        ),
        before.leave_step(leaving, after),
    ensures
        after.state.has(leaving.links[0]),
        after.state.actor(leaving.links[0]).mailbox == before.state.actor(
            leaving.links[0],
        ).mailbox.pushed(
            Envelope::Exit(
                ExitSignal {
                    from: before.top().actor.id,
                    reason: leaving.linked_reason,
                    linked: true,
                },
            ),
        ),
        after.stack.len() == before.stack.len(),
{
}

} // verus!
