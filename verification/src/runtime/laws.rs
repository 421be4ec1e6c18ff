//! What holds of timers and calls, whichever way a runtime runs its actors.

use vstd::prelude::*;

use crate::envelope::{Envelope, Payload, TimerFired};
use crate::mailbox::QueuedEnvelope;
use crate::runtime::actor_state::ActorView;
use crate::runtime::state::StateView;
use crate::types::{ActorId, Ref, TimerToken};

verus! {

/// How many firings of a timer wait in a queue.
pub open spec fn firings(queue: Seq<QueuedEnvelope>, token: TimerToken) -> nat
    decreases queue.len(),
{
    if queue.len() == 0 {
        0
    } else {
        firings(queue.drop_last(), token) + (if queue.last().envelope.is_firing_of(token) {
            1nat
        } else {
            0nat
        })
    }
}

/// How many firings of a timer are ahead of an actor: one that has not happened, and those that
/// wait in its mailbox.
pub open spec fn outstanding(state: StateView, id: ActorId, token: TimerToken) -> nat {
    (if state.timers.contains((id, token.spec_ref())) {
        1nat
    } else {
        0nat
    }) + (if state.has(id) {
        firings(state.actor(id).mailbox.queue, token)
    } else {
        0nat
    })
}

proof fn lemma_no_firing_is_left(queue: Seq<QueuedEnvelope>, token: TimerToken)
    ensures
        firings(crate::mailbox::without_firings(queue, token), token) == 0,
        crate::mailbox::has_firing(queue, token) || firings(queue, token) == 0,
    decreases queue.len(),
{
    reveal(Seq::filter);
    if queue.len() > 0 {
        let front = queue.drop_last();
        let kept = crate::mailbox::without_firings(front, token);
        lemma_no_firing_is_left(front, token);
        assert(kept.push(queue.last()).drop_last() =~= kept);
        if crate::mailbox::has_firing(front, token) {
            let i = choose|i: int|
                0 <= i < front.len() && (#[trigger] front[i]).envelope.is_firing_of(token);
            assert(queue[i].envelope.is_firing_of(token));
        }
        assert(queue[queue.len() - 1] == queue.last());
    }
}

/// A cancelled timer never arrives: whether it has fired or not, and however often, no firing is
/// ahead of the actor afterwards.
pub proof fn lemma_cancelled_timer_never_arrives(state: StateView, id: ActorId, token: TimerToken)
    ensures
        outstanding(state.timer_cancelled(id, token), id, token) == 0,
{
    if state.has(id) {
        lemma_no_firing_is_left(state.actor(id).mailbox.queue, token);
    }
}

/// A timer fires at most once: what is ahead of the actor does not grow when it fires.
pub proof fn lemma_timer_fires_at_most_once(
    state: StateView,
    id: ActorId,
    token: TimerToken,
    after: StateView,
)
    requires
        state.timers.contains((id, token.spec_ref())),
        crate::concurrent::spec::runtime_sent(
            StateView { timers: state.timers.remove((id, token.spec_ref())), ..state },
            id,
            Envelope::Timer(TimerFired { token }),
            "timer"@,
            after,
        ),
    ensures
        outstanding(after, id, token) <= outstanding(state, id, token),
        !after.timers.contains((id, token.spec_ref())),
{
    if state.has(id) {
        let queue = state.actor(id).mailbox.queue;
        let firing = Envelope::Timer(TimerFired { token });
        let entry = QueuedEnvelope {
            sequence: state.actor(id).mailbox.next_sequence,
            envelope: firing,
        };
        assert(queue.push(entry).drop_last() =~= queue);
    }
}

/// A reply cancels the timeout of its call, whether or not there is room for the reply.
pub proof fn lemma_reply_cancels_the_timeout(
    state: StateView,
    id: ActorId,
    reference: Ref,
    message: Payload,
)
    ensures
        !crate::concurrent::spec::sent(
            state,
            id,
            Envelope::Reply { reference, message },
        ).calls.contains((id, reference)),
{
}

/// Only one envelope can be claimed per turn: after a claim, no receive gives another one until
/// the turn has ended.
pub proof fn lemma_one_claim_per_turn(
    actor: ActorView,
    first: spec_fn(QueuedEnvelope, bool) -> bool,
    envelope: Envelope,
    claimed: ActorView,
    second: spec_fn(QueuedEnvelope, bool) -> bool,
    another: Option<Envelope>,
    after: ActorView,
)
    requires
        actor.selected(first, Some(envelope), claimed),
        claimed.selected(second, another, after),
    ensures
        another is None,
        after == claimed,
{
}

/// A receive with a timeout leaves the timeout ahead of the actor only while it waits: once another
/// envelope has won, no firing of it is ahead.
pub proof fn lemma_beaten_timeout_never_arrives(
    before: StateView,
    id: ActorId,
    token: TimerToken,
    answers: spec_fn(QueuedEnvelope, bool) -> bool,
    envelope: Option<Envelope>,
    after: StateView,
)
    requires
        crate::concurrent::turns::received_in_time(before, id, token, answers, envelope, after),
        super::actor_state::beats_timeout(envelope, token),
    ensures
        outstanding(after, id, token) == 0,
{
    let claimed = choose|claimed: StateView| #[trigger]
        crate::concurrent::turns::received(before, id, answers, envelope, claimed) && after
            == claimed.timer_cancelled(id, token);
    lemma_cancelled_timer_never_arrives(claimed, id, token);
}

} // verus!
