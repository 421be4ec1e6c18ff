//! What holds of mailboxes as a whole.

use vstd::prelude::*;

use crate::envelope::{Envelope, EnvelopeKind};
use crate::types::TimerToken;

use super::{Mailbox, MailboxView, QueuedEnvelope};

verus! {

/// The envelopes in a mailbox, oldest first.
pub open spec fn contents(mailbox: MailboxView) -> Seq<Envelope> {
    mailbox.queue.map_values(|entry: QueuedEnvelope| entry.envelope)
}

/// The mailbox after several envelopes have arrived one by one.
pub open spec fn filled(mailbox: MailboxView, arrivals: Seq<Envelope>) -> MailboxView
    decreases arrivals.len(),
{
    if arrivals.len() == 0 {
        mailbox
    } else {
        filled(mailbox, arrivals.drop_last()).pushed(arrivals.last())
    }
}

/// The mailbox after several envelopes were taken from its front.
pub open spec fn drained(mailbox: MailboxView, taken: nat) -> MailboxView
    decreases taken,
{
    if taken == 0 {
        mailbox
    } else {
        drained(mailbox, (taken - 1) as nat).popped()
    }
}

/// Whether the queue is in order of arrival and everything in it is older than what comes next.
pub open spec fn in_arrival_order(mailbox: MailboxView) -> bool {
    &&& forall|i: int, j: int|
        0 <= i < j < mailbox.queue.len() ==> (#[trigger] mailbox.queue[i]).sequence < (
        #[trigger] mailbox.queue[j]).sequence
    &&& forall|i: int|
        0 <= i < mailbox.queue.len() ==> (#[trigger] mailbox.queue[i]).sequence
            < mailbox.next_sequence
}

/// Whether a bounded mailbox holds no more than it may.
pub open spec fn within_bounds(mailbox: MailboxView) -> bool {
    mailbox.capacity != usize::MAX ==> mailbox.queue.len() <= mailbox.capacity
}

/// Envelopes leave a mailbox in the order in which they arrived: behind what was queued already
/// come the new ones, in the order in which they were pushed.
pub proof fn lemma_first_in_first_out(mailbox: MailboxView, arrivals: Seq<Envelope>, taken: nat)
    requires
        taken <= mailbox.queue.len() + arrivals.len(),
    ensures
        contents(filled(mailbox, arrivals)) == contents(mailbox) + arrivals,
        contents(drained(filled(mailbox, arrivals), taken)) == (contents(mailbox) + arrivals).skip(
            taken as int,
        ),
{
    lemma_filled(mailbox, arrivals);
    let full = filled(mailbox, arrivals);
    lemma_drained(full, taken);
    assert(contents(drained(full, taken)) =~= contents(full).skip(taken as int));
}

proof fn lemma_filled(mailbox: MailboxView, arrivals: Seq<Envelope>)
    ensures
        contents(filled(mailbox, arrivals)) == contents(mailbox) + arrivals,
    decreases arrivals.len(),
{
    if arrivals.len() == 0 {
        assert(contents(mailbox) + arrivals =~= contents(mailbox));
    } else {
        lemma_filled(mailbox, arrivals.drop_last());
        let before = filled(mailbox, arrivals.drop_last());
        assert(contents(before.pushed(arrivals.last())) =~= contents(before).push(
            arrivals.last(),
        ));
        assert(contents(mailbox) + arrivals =~= (contents(mailbox) + arrivals.drop_last()).push(
            arrivals.last(),
        ));
    }
}

proof fn lemma_drained(mailbox: MailboxView, taken: nat)
    requires
        taken <= mailbox.queue.len(),
    ensures
        drained(mailbox, taken).queue == mailbox.queue.skip(taken as int),
    decreases taken,
{
    if taken == 0 {
        assert(mailbox.queue.skip(0) =~= mailbox.queue);
    } else {
        lemma_drained(mailbox, (taken - 1) as nat);
        assert(mailbox.queue.skip(taken - 1).drop_first() =~= mailbox.queue.skip(taken as int));
    }
}

/// Taking an envelope out of the middle keeps the order of all the others.
pub proof fn lemma_taking_one_keeps_the_others_in_order(mailbox: MailboxView, at: int)
    requires
        0 <= at < mailbox.queue.len(),
    ensures
        mailbox.without(at).queue == mailbox.queue.take(at) + mailbox.queue.skip(at + 1),
        in_arrival_order(mailbox) ==> in_arrival_order(mailbox.without(at)),
        within_bounds(mailbox) ==> within_bounds(mailbox.without(at)),
{
    let after = mailbox.without(at);
    assert(after.queue =~= mailbox.queue.take(at) + mailbox.queue.skip(at + 1));
    if in_arrival_order(mailbox) {
        assert forall|i: int| 0 <= i < after.queue.len() implies #[trigger] after.queue[i]
            == mailbox.queue[if i < at {
            i
        } else {
            i + 1
        }] by {}
    }
}

/// A new arrival keeps the order of arrival, as long as the sequence counter does not wrap
/// around.
pub proof fn lemma_arrivals_keep_order(mailbox: MailboxView, envelope: Envelope)
    requires
        in_arrival_order(mailbox),
        mailbox.next_sequence < u64::MAX,
    ensures
        in_arrival_order(mailbox.pushed(envelope)),
{
    let after = mailbox.pushed(envelope);
    assert forall|i: int| 0 <= i < after.queue.len() implies #[trigger] after.queue[i] == (if i
        < mailbox.queue.len() {
        mailbox.queue[i]
    } else {
        QueuedEnvelope { sequence: mailbox.next_sequence, envelope }
    }) by {}
}

/// A watermark parts what was queued when it was taken from what arrives later, as long as the
/// sequence counter does not wrap around.
pub proof fn lemma_watermark_parts_old_from_new(mailbox: MailboxView, arrivals: Seq<Envelope>)
    requires
        in_arrival_order(mailbox),
        mailbox.next_sequence + arrivals.len() <= u64::MAX,
    ensures
        forall|i: int|
            0 <= i < filled(mailbox, arrivals).queue.len() ==> ((#[trigger] filled(
                mailbox,
                arrivals,
            ).queue[i]).sequence >= mailbox.next_sequence <==> i >= mailbox.queue.len()),
        in_arrival_order(filled(mailbox, arrivals)),
        filled(mailbox, arrivals).next_sequence == mailbox.next_sequence + arrivals.len(),
        filled(mailbox, arrivals).queue.len() == mailbox.queue.len() + arrivals.len(),
    decreases arrivals.len(),
{
    if arrivals.len() > 0 {
        lemma_watermark_parts_old_from_new(mailbox, arrivals.drop_last());
        lemma_arrivals_keep_order(filled(mailbox, arrivals.drop_last()), arrivals.last());
    }
}

/// A mailbox that accepts only what it does not refuse stays within its bounds, and accepted
/// user traffic leaves the reserve free.
pub proof fn lemma_accepted_traffic_stays_within_bounds(mailbox: MailboxView, envelope: Envelope)
    requires
        mailbox.limits_ok(),
        within_bounds(mailbox),
        !mailbox.refuses(envelope),
    ensures
        within_bounds(mailbox.pushed(envelope)),
        mailbox.capacity != usize::MAX && !envelope.spec_kind().is_runtime_kind()
            ==> mailbox.pushed(envelope).queue.len() <= mailbox.capacity - mailbox.reserve,
{
}

/// As long as user traffic alone has filled a mailbox, the reserve accepts that many envelopes of
/// the runtime.
pub proof fn lemma_reserve_is_kept_for_the_runtime(
    mailbox: MailboxView,
    earlier: Seq<Envelope>,
    envelope: Envelope,
)
    requires
        mailbox.limits_ok(),
        mailbox.queue.len() <= mailbox.capacity - mailbox.reserve,
        earlier.len() < mailbox.reserve,
        envelope.spec_kind().is_runtime_kind(),
    ensures
        !filled(mailbox, earlier).refuses(envelope),
{
    lemma_filled(mailbox, earlier);
    lemma_filling_keeps_limits(mailbox, earlier);
    assert(contents(filled(mailbox, earlier)).len() == filled(mailbox, earlier).queue.len());
}

proof fn lemma_filling_keeps_limits(mailbox: MailboxView, arrivals: Seq<Envelope>)
    ensures
        filled(mailbox, arrivals).capacity == mailbox.capacity,
        filled(mailbox, arrivals).reserve == mailbox.reserve,
    decreases arrivals.len(),
{
    if arrivals.len() > 0 {
        lemma_filling_keeps_limits(mailbox, arrivals.drop_last());
    }
}

/// Which envelopes a mailbox takes. One without a bound takes everything. A bounded one takes
/// replies, task results, timeouts, exits, notifications, timers and control messages as long as
/// it holds fewer envelopes than its capacity, and messages and requests of users as long as the
/// reserve would stay free.
pub proof fn lemma_which_envelopes_a_mailbox_takes(mailbox: MailboxView, envelope: Envelope)
    ensures
        mailbox.capacity == usize::MAX ==> !mailbox.refuses(envelope),
        mailbox.capacity != usize::MAX && (envelope is Reply || envelope is Task
            || envelope is CallTimeout || envelope is Exit || envelope is Down || envelope is Timer
            || envelope is System) ==> (mailbox.refuses(envelope) <==> mailbox.queue.len()
            >= mailbox.capacity),
        mailbox.capacity != usize::MAX && (envelope is User || envelope is Request) ==> (
        mailbox.refuses(envelope) <==> mailbox.queue.len() >= mailbox.capacity - mailbox.reserve),
{
}

/// Which envelopes of the runtime the reserve is kept for: as long as users alone have filled a
/// bounded mailbox up to what they may, it takes as many replies, task results, timeouts, exits,
/// notifications, timers and control messages as the reserve has slots, and no message or request
/// of a user.
pub proof fn lemma_a_full_mailbox_takes_no_user_traffic(
    mailbox: MailboxView,
    arrivals: Seq<Envelope>,
    envelope: Envelope,
)
    requires
        mailbox.capacity != usize::MAX,
        mailbox.limits_ok(),
        mailbox.queue.len() == mailbox.capacity - mailbox.reserve,
        arrivals.len() <= mailbox.reserve,
    ensures
        envelope is User || envelope is Request ==> filled(mailbox, arrivals).refuses(envelope),
        !(envelope is User) && !(envelope is Request) && arrivals.len() < mailbox.reserve
            ==> !filled(mailbox, arrivals).refuses(envelope),
        arrivals.len() == mailbox.reserve ==> filled(mailbox, arrivals).refuses(envelope),
{
    lemma_filled(mailbox, arrivals);
    lemma_filling_keeps_limits(mailbox, arrivals);
    assert(contents(filled(mailbox, arrivals)).len() == filled(mailbox, arrivals).queue.len());
}

/// A mailbox turns envelopes of users away as soon as only its reserve is left, and envelopes of
/// the runtime only when nothing is left; without a limit it turns nothing away.
pub proof fn lemma_when_a_mailbox_is_full(mailbox: Mailbox, kind: EnvelopeKind)
    ensures
        mailbox.spec_capacity() == usize::MAX ==> !mailbox.full_for(kind),
        mailbox.spec_capacity() != usize::MAX && (kind is User || kind is Request)
            ==> mailbox.full_for(kind) == (mailbox@.len() + mailbox.spec_reserve()
            >= mailbox.spec_capacity()),
        mailbox.spec_capacity() != usize::MAX && !(kind is User) && !(kind is Request)
            ==> mailbox.full_for(kind) == (mailbox@.len() >= mailbox.spec_capacity()),
{
}

/// Which envelopes are the firing of a timer: those of the timer with that token, and no others.
pub proof fn lemma_what_a_firing_is(envelope: Envelope, token: TimerToken)
    ensures
        envelope matches Envelope::Timer(fired) ==> envelope.is_firing_of(token) == (fired.token
            == token),
        !(envelope is Timer) ==> !envelope.is_firing_of(token),
{
}

/// The envelope that no receive can pass over is the first control message, exit or notification.
pub proof fn lemma_which_envelope_comes_first(queue: Seq<QueuedEnvelope>, at: int)
    requires
        0 <= at < queue.len(),
        queue[at].envelope is System || queue[at].envelope is Exit || queue[at].envelope is Down,
        forall|i: int|
            0 <= i < at ==> !((#[trigger] queue[i]).envelope is System) && !(
            queue[i].envelope is Exit) && !(queue[i].envelope is Down),
    ensures
        super::reserved_place(queue) == Some(at),
    decreases queue.len(),
{
    let front = queue.drop_last();
    if at < front.len() {
        assert(front[at] == queue[at]);
        lemma_which_envelope_comes_first(front, at);
    } else {
        lemma_no_envelope_comes_first(front);
    }
}

/// Where there is no control message, exit or notification, a receive can pass over everything.
pub proof fn lemma_no_envelope_comes_first(queue: Seq<QueuedEnvelope>)
    requires
        forall|i: int|
            0 <= i < queue.len() ==> !((#[trigger] queue[i]).envelope is System) && !(
            queue[i].envelope is Exit) && !(queue[i].envelope is Down),
    ensures
        super::reserved_place(queue) is None,
    decreases queue.len(),
{
    if queue.len() > 0 {
        let front = queue.drop_last();
        assert forall|i: int| 0 <= i < front.len() implies !((
        #[trigger] front[i]).envelope is System) && !(front[i].envelope is Exit) && !(
        front[i].envelope is Down) by {
            assert(front[i] == queue[i]);
        }
        lemma_no_envelope_comes_first(front);
        assert(queue.last() == queue[queue.len() - 1]);
    }
}

} // verus!
