//! What holds of the run queue and of the number of actors of the single-threaded runtime.

use vstd::prelude::*;

use crate::envelope::Envelope;
use crate::internal::turn::TurnEffects;
use crate::runtime::actor_state::ActorView;
use crate::types::{ActorId, ExitReason};

use super::frame::{FrameView, LeavingView, StageView};
use super::spec::LocalView;

verus! {

/// Whether every actor that counts as scheduled is in the run queue.
pub open spec fn queue_sound(view: LocalView) -> bool {
    &&& forall|slot: u64| #[trigger]
        view.state.actors.contains_key(slot) && view.state.actors[slot].scheduled
            ==> view.queue.contains(view.state.actors[slot].id)
    &&& forall|i: int|
        0 <= i < view.stack.len() && (#[trigger] view.stack[i]).actor.scheduled
            ==> view.queue.contains(view.stack[i].actor.id)
}

proof fn lemma_push_contains(queue: Seq<ActorId>, id: ActorId)
    ensures
        queue.push(id).contains(id),
        forall|other: ActorId| #[trigger] queue.contains(other) ==> queue.push(id).contains(other),
{
    assert(queue.push(id)[queue.len() as int] == id);
    assert forall|other: ActorId| #[trigger] queue.contains(other) implies queue.push(
        id,
    ).contains(other) by {
        let i = choose|i: int| 0 <= i < queue.len() && queue[i] == other;
        assert(queue.push(id)[i] == other);
    }
}

/// No wake-up is lost: an actor in its place that gets an envelope is in the run queue
/// afterwards, unless it is on its way out or its mailbox has no room.
pub proof fn lemma_delivery_leads_to_a_turn(before: LocalView, to: ActorId, envelope: Envelope)
    requires
        queue_sound(before),
        crate::runtime::table::table_ok(before.state.actors),
    ensures
        queue_sound(before.sent(to, envelope)),
        before.state.has(to) && !before.state.actor(to).mailbox.refuses(envelope)
            && !before.state.actor(to).is_leaving() ==> before.sent(to, envelope).queue.contains(to),
{
    let after = before.sent(to, envelope);
    lemma_push_contains(before.queue, to);
    if before.state.has(to) {
        assert(before.state.actors.contains_key(to.local_id));
    }
    assert forall|slot: u64| #[trigger]
        after.state.actors.contains_key(slot)
            && after.state.actors[slot].scheduled implies after.queue.contains(
        after.state.actors[slot].id,
    ) by {
        assert(before.state.actors.contains_key(slot));
    }
    assert forall|i: int| 0 <= i < after.stack.len() && (
    #[trigger] after.stack[i]).actor.scheduled implies after.queue.contains(
        after.stack[i].actor.id,
    ) by {
        assert(before.stack[i].actor.scheduled);
    }
}

/// The same holds of an envelope that the current actor sends to itself.
pub proof fn lemma_self_delivery_leads_to_a_turn(before: LocalView, envelope: Envelope)
    requires
        queue_sound(before),
        before.stack.len() > 0,
    ensures
        queue_sound(before.self_sent(envelope)),
        !before.top().actor.mailbox.refuses(envelope) && !before.top().actor.is_leaving()
            ==> before.self_sent(envelope).queue.contains(before.top().actor.id),
{
    let after = before.self_sent(envelope);
    let last = before.stack.len() - 1;
    assert(before.stack[last] == before.top());
    lemma_push_contains(before.queue, before.top().actor.id);
    assert forall|slot: u64| #[trigger]
        after.state.actors.contains_key(slot)
            && after.state.actors[slot].scheduled implies after.queue.contains(
        after.state.actors[slot].id,
    ) by {
        assert(before.state.actors.contains_key(slot));
    }
    assert forall|i: int| 0 <= i < after.stack.len() && (
    #[trigger] after.stack[i]).actor.scheduled implies after.queue.contains(
        after.stack[i].actor.id,
    ) by {
        if i < last {
            assert(after.stack[i] == before.stack[i]);
            assert(before.stack[i].actor.scheduled);
        } else if before.top().actor.scheduled {
            assert(before.stack[last].actor.scheduled);
        }
    }
}

/// An actor that comes back from a turn with envelopes left is in the run queue.
pub proof fn lemma_unfinished_work_leads_to_a_turn(before: LocalView)
    requires
        queue_sound(before),
        before.stack.len() > 0,
        !before.state.actors.contains_key(before.top().actor.id.local_id),
    ensures
        queue_sound(before.returned()),
        before.top().actor.mailbox.queue.len() > 0 ==> before.returned().queue.contains(
            before.top().actor.id,
        ),
{
    let after = before.returned();
    let last = before.stack.len() - 1;
    assert(before.stack[last] == before.top());
    lemma_push_contains(before.queue, before.top().actor.id);
    if before.top().actor.scheduled {
        assert(before.stack[last].actor.scheduled);
    }
    assert forall|slot: u64| #[trigger]
        after.state.actors.contains_key(slot)
            && after.state.actors[slot].scheduled implies after.queue.contains(
        after.state.actors[slot].id,
    ) by {
        if slot != before.top().actor.id.local_id {
            assert(before.state.actors.contains_key(slot));
        }
    }
    assert forall|i: int| 0 <= i < after.stack.len() && (
    #[trigger] after.stack[i]).actor.scheduled implies after.queue.contains(
        after.stack[i].actor.id,
    ) by {
        assert(after.stack[i] == before.stack[i]);
        assert(before.stack[i].actor.scheduled);
    }
}

/// A new actor is in the run queue.
pub proof fn lemma_new_actor_gets_a_turn(before: LocalView, actor: ActorView)
    requires
        queue_sound(before),
        crate::runtime::table::table_ok(before.state.actors),
        !before.state.actors.contains_key(actor.id.local_id),
    ensures
        ({
            let after = before.with_state(before.state.admitted(actor)).queued(actor.id, true);
            queue_sound(after) && after.queue.contains(actor.id)
        }),
{
    let after = before.with_state(before.state.admitted(actor)).queued(actor.id, true);
    lemma_push_contains(before.queue, actor.id);
    assert forall|slot: u64| #[trigger]
        after.state.actors.contains_key(slot)
            && after.state.actors[slot].scheduled implies after.queue.contains(
        after.state.actors[slot].id,
    ) by {
        if slot != actor.id.local_id {
            assert(before.state.actors.contains_key(slot));
        }
    }
    assert forall|i: int| 0 <= i < after.stack.len() && (
    #[trigger] after.stack[i]).actor.scheduled implies after.queue.contains(
        after.stack[i].actor.id,
    ) by {
        assert(before.stack[i].actor.scheduled);
    }
}

/// Condemning an actor keeps every scheduled actor in the run queue.
pub proof fn lemma_condemning_keeps_the_queue_sound(
    before: LocalView,
    id: ActorId,
    reason: ExitReason,
)
    requires
        queue_sound(before),
    ensures
        queue_sound(before.condemned(id, reason)),
{
    let after = before.condemned(id, reason);
    if before.state.has(id) {
        assert(before.state.actors.contains_key(id.local_id));
        assert forall|slot: u64| #[trigger]
            after.state.actors.contains_key(slot)
                && after.state.actors[slot].scheduled implies after.queue.contains(
            after.state.actors[slot].id,
        ) by {
            assert(before.state.actors.contains_key(slot));
        }
        assert forall|i: int| 0 <= i < after.stack.len() && (
        #[trigger] after.stack[i]).actor.scheduled implies after.queue.contains(
            after.stack[i].actor.id,
        ) by {
            if i < before.stack.len() {
                assert(after.stack[i] == before.stack[i]);
                assert(before.stack[i].actor.scheduled);
            }
        }
    }
}

proof fn lemma_skipping_keeps_live_entries(
    before: LocalView,
    queue: Seq<ActorId>,
    id: ActorId,
)
    requires
        before.state.has(id),
        queue.contains(id),
    ensures
        super::turns::next_in_line(before.state, queue).contains(id),
    decreases queue.len(),
{
    if queue.len() > 0 && !before.state.has(queue[0]) {
        let i = choose|i: int| 0 <= i < queue.len() && queue[i] == id;
        assert(i > 0);
        assert(queue.drop_first()[i - 1] == id);
        lemma_skipping_keeps_live_entries(before, queue.drop_first(), id);
    }
}

/// Giving the next actor in line a turn, while no hook runs, keeps every other scheduled actor in
/// the run queue.
pub proof fn lemma_picking_keeps_the_queue_sound(before: LocalView)
    requires
        queue_sound(before),
        crate::runtime::table::table_ok(before.state.actors),
        before.stack.len() == 0,
    ensures
        ({
            let line = super::turns::next_in_line(before.state, before.queue);
            if line.len() == 0 {
                queue_sound(LocalView { queue: line, ..before })
            } else {
                queue_sound(
                    LocalView {
                        state: before.state.without(line[0]),
                        queue: line.drop_first(),
                        stack: before.stack.push(
                            FrameView {
                                actor: super::turns::picked(before.state.actor(line[0])),
                                effects: TurnEffects::none(),
                                stage: StageView::Running,
                            },
                        ),
                    },
                )
            }
        }),
{
    let line = super::turns::next_in_line(before.state, before.queue);
    assert forall|slot: u64| #[trigger]
        before.state.actors.contains_key(slot)
            && before.state.actors[slot].scheduled implies line.contains(
        before.state.actors[slot].id,
    ) by {
        assert(before.state.has(before.state.actors[slot].id));
        lemma_skipping_keeps_live_entries(before, before.queue, before.state.actors[slot].id);
    }
    if line.len() > 0 {
        lemma_head_is_live(before, before.queue);
        let after = LocalView {
            state: before.state.without(line[0]),
            queue: line.drop_first(),
            stack: before.stack.push(
                FrameView {
                    actor: super::turns::picked(before.state.actor(line[0])),
                    effects: TurnEffects::none(),
                    stage: StageView::Running,
                },
            ),
        };
        assert forall|slot: u64| #[trigger]
            after.state.actors.contains_key(slot)
                && after.state.actors[slot].scheduled implies after.queue.contains(
            after.state.actors[slot].id,
        ) by {
            let id = before.state.actors[slot].id;
            assert(before.state.actors.contains_key(slot));
            assert(line.contains(id));
            let i = choose|i: int| 0 <= i < line.len() && line[i] == id;
            assert(id != line[0]);
            assert(after.queue[i - 1] == id);
        }
    }
}

proof fn lemma_head_is_live(before: LocalView, queue: Seq<ActorId>)
    requires
        super::turns::next_in_line(before.state, queue).len() > 0,
    ensures
        before.state.has(super::turns::next_in_line(before.state, queue)[0]),
    decreases queue.len(),
{
    if queue.len() > 0 && !before.state.has(queue[0]) {
        lemma_head_is_live(before, queue.drop_first());
    }
}

/// Whether the runtime counts the actors in their places and on the stack correctly, and has no
/// more of them than it may.
pub open spec fn counted(view: LocalView, max_actors: usize) -> bool {
    &&& view.state.actors.dom().finite()
    &&& view.state.live_actors == view.state.actors.dom().len() + view.stack.len()
    &&& view.state.live_actors <= max_actors
}

/// A new actor with a free slot is counted, and the limit holds as long as there was room for it.
pub proof fn lemma_new_actor_is_counted(before: LocalView, actor: ActorView, max_actors: usize)
    requires
        counted(before, max_actors),
        before.state.has_room(max_actors),
        !before.state.actors.contains_key(actor.id.local_id),
    ensures
        counted(
            before.with_state(before.state.admitted(actor)).queued(actor.id, true),
            max_actors,
        ),
{
    let after = before.with_state(before.state.admitted(actor)).queued(actor.id, true);
    assert(after.state.actors.dom() =~= before.state.actors.dom().insert(actor.id.local_id));
}

/// An actor that is gone is counted.
pub proof fn lemma_gone_is_counted(before: LocalView, leaving: LeavingView, max_actors: usize)
    requires
        counted(before, max_actors),
        before.stack.len() > 0,
    ensures
        counted(before.gone(leaving), max_actors),
        before.gone(leaving).state.live_actors == before.state.live_actors - 1,
{
}

/// Moving an actor between its place and the stack changes no count.
pub proof fn lemma_moving_changes_no_count(
    before: LocalView,
    id: ActorId,
    reason: ExitReason,
    max_actors: usize,
)
    requires
        counted(before, max_actors),
    ensures
        counted(before.condemned(id, reason), max_actors),
        before.stack.len() > 0 && !before.state.actors.contains_key(
            before.top().actor.id.local_id,
        ) ==> counted(before.returned(), max_actors),
{
    if before.state.has(id) {
        let after = before.condemned(id, reason);
        assert(before.state.actors.dom().contains(id.local_id));
        assert(after.state.actors.dom() =~= before.state.actors.dom().remove(id.local_id));
    }
    if before.stack.len() > 0 && !before.state.actors.contains_key(
        before.top().actor.id.local_id,
    ) {
        let after = before.returned();
        assert(after.state.actors.dom() =~= before.state.actors.dom().insert(
            before.top().actor.id.local_id,
        ));
    }
}

} // verus!
