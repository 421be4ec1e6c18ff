//! FIFO mailboxes with bounded capacity and selective receive.

pub mod laws;

use std::collections::VecDeque;

use vstd::prelude::*;

use crate::envelope::{Envelope, EnvelopeKind};
use crate::types::TimerToken;

verus! {

/// An envelope together with its place in the order of arrival.
#[derive(Debug)]
pub struct QueuedEnvelope {
    /// Number of envelopes that arrived before this one.
    pub sequence: u64,
    /// The envelope itself.
    pub envelope: Envelope,
}

/// A stable mailbox watermark used to skip older entries during selective receive.
#[derive(Debug, Clone, Copy, PartialEq, Eq, Structural, Hash, PartialOrd, Ord)]
pub struct MailboxWatermark {
    sequence: u64,
}

impl MailboxWatermark {
    /// The sequence number that the watermark stands for.
    pub closed spec fn spec_sequence(self) -> u64 {
        self.sequence
    }

    /// Creates a watermark from the next mailbox sequence number.
    pub fn new(sequence: u64) -> (watermark: Self)
        ensures
            watermark.spec_sequence() == sequence,
    {
        MailboxWatermark { sequence }
    }

    /// Returns the next sequence number represented by the watermark.
    pub fn sequence(self) -> (sequence: u64)
        ensures
            sequence == self.spec_sequence(),
    {
        self.sequence
    }
}

/// Capacity failure while enqueuing into a bounded mailbox.
#[derive(Debug, Clone, Copy, PartialEq, Eq, Structural)]
pub struct MailboxFull {
    /// Total mailbox capacity.
    pub capacity: usize,
}

/// How many envelopes a mailbox holds, and how many of those slots user traffic leaves free.
#[derive(Debug)]
struct MailboxLimits {
    capacity: usize,
    reserve: usize,
}

impl MailboxLimits {
    #[verifier::type_invariant]
    spec fn leaves_room(self) -> bool {
        self.reserve < self.capacity
    }
}

/// FIFO mailbox storage with `O(N)` selective receive.
///
/// The sequence counter is 64 bits wide and wraps around after 2^64 envelopes.
#[derive(Debug)]
pub struct Mailbox {
    next_sequence: u64,
    queue: VecDeque<QueuedEnvelope>,
    limits: MailboxLimits,
}

/// What a mailbox holds, and its limits.
pub struct MailboxView {
    /// The queued envelopes, oldest first.
    pub queue: Seq<QueuedEnvelope>,
    /// The sequence number of the next envelope.
    pub next_sequence: u64,
    /// The most envelopes that the mailbox holds.
    pub capacity: usize,
    /// The slots that user traffic leaves free.
    pub reserve: usize,
}

impl MailboxView {
    /// Whether the limits make sense: room for one envelope outside the reserve.
    pub open spec fn limits_ok(self) -> bool {
        self.reserve < self.capacity
    }

    /// Whether the mailbox turns an envelope away.
    pub open spec fn refuses(self, envelope: Envelope) -> bool {
        self.capacity != usize::MAX && self.queue.len() >= (if envelope.spec_kind().is_runtime_kind() {
            self.capacity as int
        } else {
            self.capacity - self.reserve
        })
    }

    /// The mailbox with one more envelope at the end.
    pub open spec fn pushed(self, envelope: Envelope) -> MailboxView {
        MailboxView {
            queue: self.queue.push(QueuedEnvelope { sequence: self.next_sequence, envelope }),
            next_sequence: if self.next_sequence == u64::MAX {
                0
            } else {
                (self.next_sequence + 1) as u64
            },
            ..self
        }
    }

    /// The mailbox without its oldest envelope.
    pub open spec fn popped(self) -> MailboxView {
        MailboxView { queue: self.queue.drop_first(), ..self }
    }

    /// The mailbox without the firings of a timer.
    pub open spec fn silenced(self, token: TimerToken) -> MailboxView {
        MailboxView { queue: without_firings(self.queue, token), ..self }
    }

    /// The mailbox without the envelope at a place.
    pub open spec fn without(self, at: int) -> MailboxView {
        MailboxView { queue: self.queue.remove(at), ..self }
    }
}

/// The place of the first envelope that no receive can pass over, if there is one.
pub open spec fn reserved_place(queue: Seq<QueuedEnvelope>) -> Option<int>
    decreases queue.len(),
{
    if queue.len() == 0 {
        None
    } else {
        match reserved_place(queue.drop_last()) {
            Some(at) => Some(at),
            None => if queue.last().envelope.is_reserved() {
                Some(queue.len() - 1)
            } else {
                None
            },
        }
    }
}

/// Whether a firing of a timer waits in a queue.
pub open spec fn has_firing(queue: Seq<QueuedEnvelope>, token: TimerToken) -> bool {
    exists|i: int| 0 <= i < queue.len() && (#[trigger] queue[i]).envelope.is_firing_of(token)
}

/// A queue without the firings of a timer.
pub open spec fn without_firings(queue: Seq<QueuedEnvelope>, token: TimerToken) -> Seq<
    QueuedEnvelope,
> {
    queue.filter(|entry: QueuedEnvelope| !entry.envelope.is_firing_of(token))
}

proof fn lemma_reserved_found(queue: Seq<QueuedEnvelope>, at: int)
    requires
        0 <= at < queue.len(),
        reserved_place(queue.take(at)) is None,
        queue[at].envelope.is_reserved(),
    ensures
        reserved_place(queue) == Some(at),
    decreases queue.len(),
{
    if at == queue.len() - 1 {
        assert(queue.drop_last() =~= queue.take(at));
    } else {
        assert(queue.drop_last().take(at) =~= queue.take(at));
        lemma_reserved_found(queue.drop_last(), at);
    }
}

/// One more entry is kept unless it is a firing.
proof fn lemma_one_more_kept(queue: Seq<QueuedEnvelope>, token: TimerToken, at: int)
    requires
        0 <= at < queue.len(),
    ensures
        without_firings(queue.take(at + 1), token) == (if queue[at].envelope.is_firing_of(token) {
            without_firings(queue.take(at), token)
        } else {
            without_firings(queue.take(at), token).push(queue[at])
        }),
{
    reveal(Seq::filter);
    assert(queue.take(at + 1).drop_last() =~= queue.take(at));
}

/// Without a firing in it, a queue stays as it is.
pub proof fn lemma_nothing_to_withdraw(queue: Seq<QueuedEnvelope>, token: TimerToken)
    requires
        !has_firing(queue, token),
    ensures
        without_firings(queue, token) == queue,
    decreases queue.len(),
{
    reveal(Seq::filter);
    if queue.len() > 0 {
        let front = queue.drop_last();
        assert(!has_firing(front, token)) by {
            if has_firing(front, token) {
                let i = choose|i: int|
                    0 <= i < front.len() && (#[trigger] front[i]).envelope.is_firing_of(token);
                assert(queue[i].envelope.is_firing_of(token));
            }
        }
        lemma_nothing_to_withdraw(front, token);
        assert(!queue[queue.len() - 1].envelope.is_firing_of(token));
        assert(front.push(queue.last()) =~= queue);
    }
}

impl View for Mailbox {
    type V = Seq<QueuedEnvelope>;

    /// The queued envelopes, oldest first.
    closed spec fn view(&self) -> Seq<QueuedEnvelope> {
        self.queue@
    }
}

impl Mailbox {
    /// The sequence number of the next envelope.
    pub closed spec fn spec_next_sequence(self) -> u64 {
        self.next_sequence
    }

    /// The most envelopes that the mailbox holds; `usize::MAX` when it is unbounded.
    pub closed spec fn spec_capacity(self) -> usize {
        self.limits.capacity
    }

    /// The slots that user traffic leaves free.
    pub closed spec fn spec_reserve(self) -> usize {
        self.limits.reserve
    }

    /// What the mailbox holds, and its limits.
    pub open spec fn model(self) -> MailboxView {
        MailboxView {
            queue: self@,
            next_sequence: self.spec_next_sequence(),
            capacity: self.spec_capacity(),
            reserve: self.spec_reserve(),
        }
    }

    /// Whether two mailboxes have the same limits.
    pub open spec fn same_limits(self, other: Mailbox) -> bool {
        self.spec_capacity() == other.spec_capacity() && self.spec_reserve()
            == other.spec_reserve()
    }

    /// Whether the limits make sense: room for one envelope outside the reserve.
    pub open spec fn limits_ok(self) -> bool {
        self.spec_reserve() < self.spec_capacity()
    }

    /// How many queued envelopes keep an envelope of the given kind out.
    pub open spec fn limit_for(self, kind: EnvelopeKind) -> int {
        if kind.is_runtime_kind() || self.spec_capacity() == usize::MAX {
            self.spec_capacity() as int
        } else {
            self.spec_capacity() - self.spec_reserve()
        }
    }

    /// Whether the mailbox turns an envelope of the given kind away.
    pub open spec fn full_for(self, kind: EnvelopeKind) -> bool {
        self.spec_capacity() != usize::MAX && self@.len() >= self.limit_for(kind)
    }

    /// Creates an empty mailbox.
    pub fn new() -> (mailbox: Self)
        ensures
            mailbox@ == Seq::<QueuedEnvelope>::empty(),
            mailbox.spec_next_sequence() == 0,
            mailbox.spec_capacity() == usize::MAX,
            mailbox.spec_reserve() == 0,
    {
        Mailbox {
            next_sequence: 0,
            queue: VecDeque::new(),
            limits: MailboxLimits { capacity: usize::MAX, reserve: 0 },
        }
    }

    /// Creates a bounded mailbox.
    pub fn with_capacity(capacity: usize) -> (mailbox: Self)
        ensures
            mailbox@ == Seq::<QueuedEnvelope>::empty(),
            mailbox.spec_next_sequence() == 0,
            mailbox.spec_capacity() == (if capacity == 0 {
                1
            } else {
                capacity
            }),
            mailbox.spec_reserve() == 0,
    {
        Self::with_limits(capacity, 0)
    }

    /// Creates a bounded mailbox with reserve slots for runtime-originated events.
    pub fn with_limits(capacity: usize, runtime_reserve: usize) -> (mailbox: Self)
        ensures
            mailbox@ == Seq::<QueuedEnvelope>::empty(),
            mailbox.spec_next_sequence() == 0,
            mailbox.spec_capacity() == (if capacity == 0 {
                1
            } else {
                capacity
            }),
            mailbox.spec_reserve() == (if runtime_reserve < mailbox.spec_capacity() {
                runtime_reserve as int
            } else {
                mailbox.spec_capacity() - 1
            }),
            mailbox.limits_ok(),
    {
        let capacity: usize = if capacity == 0 {
            1
        } else {
            capacity
        };
        let reserve: usize = if runtime_reserve < capacity {
            runtime_reserve
        } else {
            capacity - 1
        };

        Mailbox {
            next_sequence: 0,
            queue: VecDeque::new(),
            limits: MailboxLimits { capacity, reserve },
        }
    }

    /// Returns the number of queued envelopes.
    pub fn len(&self) -> (len: usize)
        ensures
            len == self@.len(),
    {
        self.queue.len()
    }

    /// Returns `true` when the mailbox has no queued envelopes.
    pub fn is_empty(&self) -> (empty: bool)
        ensures
            empty == (self@.len() == 0),
    {
        self.queue.len() == 0
    }

    /// Returns the mailbox capacity when bounded.
    pub fn capacity(&self) -> (capacity: Option<usize>)
        ensures
            capacity == (if self.spec_capacity() == usize::MAX {
                None
            } else {
                Some(self.spec_capacity())
            }),
    {
        if self.limits.capacity == usize::MAX {
            None
        } else {
            Some(self.limits.capacity)
        }
    }

    /// Returns the reserved slots kept available for runtime-originated events.
    pub fn runtime_reserve(&self) -> (reserve: usize)
        ensures
            reserve == self.spec_reserve(),
    {
        self.limits.reserve
    }

    /// Returns a watermark representing messages that will arrive in the future.
    pub fn watermark(&self) -> (watermark: MailboxWatermark)
        ensures
            watermark.spec_sequence() == self.spec_next_sequence(),
    {
        MailboxWatermark::new(self.next_sequence)
    }

    /// Appends an envelope to the mailbox.
    pub fn push(&mut self, envelope: Envelope)
        ensures
            final(self)@ == old(self)@.push(
                (QueuedEnvelope { sequence: old(self).spec_next_sequence(), envelope }),
            ),
            final(self).spec_next_sequence() == (if old(self).spec_next_sequence() == u64::MAX {
                0
            } else {
                old(self).spec_next_sequence() + 1
            }),
            final(self).same_limits(*old(self)),
    {
        let sequence: u64 = self.next_sequence;
        self.next_sequence = sequence.wrapping_add(1);
        self.queue.push_back(QueuedEnvelope { sequence, envelope });
    }

    /// Appends an envelope, returning a backpressure error when bounded capacity is exhausted.
    pub fn try_push(&mut self, envelope: Envelope) -> (outcome: Result<(), MailboxFull>)
        ensures
            outcome == (if old(self).full_for(envelope.spec_kind()) {
                Err(MailboxFull { capacity: old(self).spec_capacity() })
            } else {
                Ok(())
            }),
            envelope is User || envelope is Request ==> (outcome is Err <==> old(self).spec_capacity()
                != usize::MAX && old(self)@.len() >= old(self).spec_capacity() - old(
                self,
            ).spec_reserve()),
            envelope is Reply || envelope is Task || envelope is CallTimeout || envelope is Exit
                || envelope is Down || envelope is Timer || envelope is System ==> (outcome is Err
                <==> old(self).spec_capacity() != usize::MAX && old(self)@.len() >= old(
                self,
            ).spec_capacity()),
            outcome is Err ==> *final(self) == *old(self),
            outcome is Ok ==> {
                &&& final(self)@ == old(self)@.push(
                    (QueuedEnvelope { sequence: old(self).spec_next_sequence(), envelope }),
                )
                &&& final(self).spec_next_sequence() == (if old(self).spec_next_sequence()
                    == u64::MAX {
                    0
                } else {
                    old(self).spec_next_sequence() + 1
                })
            },
            final(self).same_limits(*old(self)),
    {
        if self.is_full_for(envelope.kind()) {
            return Err(MailboxFull { capacity: self.limits.capacity });
        }
        self.push(envelope);
        Ok(())
    }

    /// Pops the oldest queued envelope.
    pub fn pop_front(&mut self) -> (envelope: Option<Envelope>)
        ensures
            match envelope {
                Some(envelope) => old(self)@.len() > 0 && envelope == old(self)@[0].envelope
                    && final(self)@ == old(self)@.drop_first(),
                None => old(self)@.len() == 0 && final(self)@ == old(self)@,
            },
            final(self).spec_next_sequence() == old(self).spec_next_sequence(),
            final(self).same_limits(*old(self)),
    {
        match self.queue.pop_front() {
            Some(entry) => {
                assert(self.queue@ =~= old(self)@.drop_first());
                Some(entry.envelope)
            },
            None => None,
        }
    }

    /// Removes the first queued envelope that matches the predicate.
    ///
    /// What is in front of the envelope was rejected by the predicate; what
    /// stays behind keeps its order.
    pub fn selective_receive<F>(&mut self, predicate: F) -> (envelope: Option<Envelope>) where
        F: Fn(&Envelope) -> bool,

        requires
            forall|envelope: &Envelope| #[trigger] predicate.requires((envelope,)),
        ensures
            match envelope {
                Some(envelope) => exists|at: int|
                    {
                        &&& 0 <= at < old(self)@.len()
                        &&& envelope == (#[trigger] old(self)@[at]).envelope
                        &&& predicate.ensures((&envelope,), true)
                        &&& forall|i: int|
                            0 <= i < at ==> predicate.ensures(
                                (&(#[trigger] old(self)@[i]).envelope,),
                                false,
                            )
                        &&& final(self)@ == old(self)@.remove(at)
                    },
                None => {
                    &&& final(self)@ == old(self)@
                    &&& forall|i: int|
                        0 <= i < old(self)@.len() ==> predicate.ensures(
                            (&(#[trigger] old(self)@[i]).envelope,),
                            false,
                        )
                },
            },
            final(self).spec_next_sequence() == old(self).spec_next_sequence(),
            final(self).same_limits(*old(self)),
    {
        let mut index: usize = 0;
        while index < self.queue.len()
            invariant
                *self == *old(self),
                index <= self.queue@.len(),
                forall|envelope: &Envelope| #[trigger] predicate.requires((envelope,)),
                forall|i: int|
                    0 <= i < index ==> predicate.ensures(
                        (&(#[trigger] old(self)@[i]).envelope,),
                        false,
                    ),
            decreases self.queue@.len() - index,
        {
            let matched: bool = predicate(&self.queue[index].envelope);
            if matched {
                assert(old(self)@[index as int] == self.queue@[index as int]);
                return self.remove_entry(index);
            }
            index = index + 1;
        }
        None
    }

    /// Removes the first matching envelope whose sequence is at or after the watermark.
    pub fn selective_receive_after<F>(
        &mut self,
        watermark: MailboxWatermark,
        predicate: F,
    ) -> (envelope: Option<Envelope>) where F: Fn(&Envelope) -> bool
        requires
            forall|envelope: &Envelope| #[trigger] predicate.requires((envelope,)),
        ensures
            match envelope {
                Some(envelope) => exists|at: int|
                    {
                        &&& 0 <= at < old(self)@.len()
                        &&& envelope == (#[trigger] old(self)@[at]).envelope
                        &&& old(self)@[at].sequence >= watermark.spec_sequence()
                        &&& predicate.ensures((&envelope,), true)
                        &&& forall|i: int|
                            0 <= i < at && (#[trigger] old(self)@[i]).sequence
                                >= watermark.spec_sequence() ==> predicate.ensures(
                                (&old(self)@[i].envelope,),
                                false,
                            )
                        &&& final(self)@ == old(self)@.remove(at)
                    },
                None => {
                    &&& final(self)@ == old(self)@
                    &&& forall|i: int|
                        0 <= i < old(self)@.len() && (#[trigger] old(self)@[i]).sequence
                            >= watermark.spec_sequence() ==> predicate.ensures(
                            (&old(self)@[i].envelope,),
                            false,
                        )
                },
            },
            final(self).spec_next_sequence() == old(self).spec_next_sequence(),
            final(self).same_limits(*old(self)),
    {
        let mut index: usize = 0;
        while index < self.queue.len()
            invariant
                *self == *old(self),
                index <= self.queue@.len(),
                forall|envelope: &Envelope| #[trigger] predicate.requires((envelope,)),
                forall|i: int|
                    0 <= i < index && (#[trigger] old(self)@[i]).sequence
                        >= watermark.spec_sequence() ==> predicate.ensures(
                        (&old(self)@[i].envelope,),
                        false,
                    ),
            decreases self.queue@.len() - index,
        {
            if self.queue[index].sequence >= watermark.sequence() {
                let matched: bool = predicate(&self.queue[index].envelope);
                if matched {
                    assert(old(self)@[index as int] == self.queue@[index as int]);
                    return self.remove_entry(index);
                }
            }
            index = index + 1;
        }
        None
    }

    /// Removes the first queued envelope that no receive can pass over.
    pub fn receive_reserved(&mut self) -> (envelope: Option<Envelope>)
        ensures
            match reserved_place(old(self)@) {
                Some(at) => {
                    &&& 0 <= at < old(self)@.len()
                    &&& envelope == Some(old(self)@[at].envelope)
                    &&& final(self).model() == old(self).model().without(at)
                },
                None => envelope is None && final(self).model() == old(self).model(),
            },
    {
        let mut index: usize = 0;
        assert(self.queue@.take(0) =~= Seq::<QueuedEnvelope>::empty());
        while index < self.queue.len()
            invariant
                *self == *old(self),
                index <= self.queue@.len(),
                reserved_place(self.queue@.take(index as int)) is None,
            decreases self.queue@.len() - index,
        {
            if self.queue[index].envelope.can_run_while_suspended() {
                proof {
                    lemma_reserved_found(self.queue@, index as int);
                }
                return self.remove_entry(index);
            }
            assert(self.queue@.take(index + 1).drop_last() =~= self.queue@.take(index as int));
            index = index + 1;
        }
        assert(self.queue@.take(index as int) =~= self.queue@);
        None
    }

    /// Removes every queued firing of a timer and tells whether there was one.
    pub fn withdraw_timer(&mut self, token: TimerToken) -> (withdrawn: bool)
        ensures
            withdrawn == has_firing(old(self)@, token),
            final(self).model() == old(self).model().silenced(token),
    {
        let mut withdrawn: bool = false;
        let mut index: usize = 0;
        let ghost mut seen: int = 0;
        let ghost queue = self.queue@;
        assert(without_firings(queue.take(0), token) =~= Seq::<QueuedEnvelope>::empty()) by {
            reveal(Seq::filter);
        }
        while index < self.queue.len()
            invariant
                queue == old(self)@,
                0 <= index <= seen <= queue.len(),
                index <= self.queue@.len(),
                self.queue@.take(index as int) == without_firings(queue.take(seen), token),
                self.queue@.skip(index as int) == queue.skip(seen),
                withdrawn == has_firing(queue.take(seen), token),
                self.spec_next_sequence() == old(self).spec_next_sequence(),
                self.same_limits(*old(self)),
            decreases self.queue@.len() - index,
        {
            let ghost before = self.queue@;
            proof {
                assert(before.skip(index as int).len() == queue.skip(seen).len());
                assert(before.skip(index as int)[0] == queue.skip(seen)[0]);
                assert(before[index as int] == queue[seen]);
                lemma_one_more_kept(queue, token, seen);
            }
            let fired: bool = match &self.queue[index].envelope {
                Envelope::Timer(timer) => timer.token == token,
                _ => false,
            };
            if fired {
                let _envelope = self.remove_entry(index);
                withdrawn = true;
                proof {
                    assert(self.queue@.take(index as int) =~= before.take(index as int));
                    assert(self.queue@.skip(index as int) =~= before.skip(index as int).skip(1));
                    assert(queue.take(seen + 1)[seen].envelope.is_firing_of(token));
                }
            } else {
                index = index + 1;
                proof {
                    assert(self.queue@.take(index as int) =~= before.take(index - 1).push(
                        before[index - 1],
                    ));
                    assert(self.queue@.skip(index as int) =~= before.skip(index - 1).skip(1));
                    assert(has_firing(queue.take(seen), token) == has_firing(
                        queue.take(seen + 1),
                        token,
                    )) by {
                        if has_firing(queue.take(seen), token) {
                            let i = choose|i: int|
                                0 <= i < seen && (#[trigger] queue.take(
                                    seen,
                                )[i]).envelope.is_firing_of(token);
                            assert(queue.take(seen + 1)[i].envelope.is_firing_of(token));
                        }
                        if has_firing(queue.take(seen + 1), token) {
                            let i = choose|i: int|
                                0 <= i < seen + 1 && (#[trigger] queue.take(
                                    seen + 1,
                                )[i]).envelope.is_firing_of(token);
                            assert(queue.take(seen)[i].envelope.is_firing_of(token));
                        }
                    }
                }
            }
            proof {
                assert(queue.skip(seen).skip(1) =~= queue.skip(seen + 1));
                seen = seen + 1;
            }
        }
        proof {
            assert(self.queue@.skip(index as int).len() == 0);
            assert(queue.skip(seen).len() == 0);
            assert(queue.take(seen) =~= queue);
            assert(self.queue@.take(index as int) =~= self.queue@);
        }
        withdrawn
    }

    /// Takes the entry at an index out of the queue.
    fn remove_entry(&mut self, index: usize) -> (envelope: Option<Envelope>)
        requires
            index < old(self)@.len(),
        ensures
            envelope == Some(old(self)@[index as int].envelope),
            final(self)@ == old(self)@.remove(index as int),
            final(self).spec_next_sequence() == old(self).spec_next_sequence(),
            final(self).same_limits(*old(self)),
    {
        match self.queue.remove(index) {
            Some(entry) => Some(entry.envelope),
            None => None,
        }
    }

    /// Tells whether the mailbox turns an envelope of the given kind away.
    fn is_full_for(&self, kind: EnvelopeKind) -> (full: bool)
        ensures
            full == self.full_for(kind),
    {
        proof {
            use_type_invariant(&self.limits);
        }
        if self.limits.capacity == usize::MAX {
            return false;
        }
        let len: usize = self.queue.len();
        if kind.uses_runtime_reserve() {
            len >= self.limits.capacity
        } else {
            len >= self.limits.capacity - self.limits.reserve
        }
    }
}

impl Default for Mailbox {
    fn default() -> (mailbox: Self)
        ensures
            mailbox@ == Seq::<QueuedEnvelope>::empty(),
            mailbox.spec_next_sequence() == 0,
            mailbox.spec_capacity() == usize::MAX,
            mailbox.spec_reserve() == 0,
    {
        Mailbox::new()
    }
}

} // verus!
