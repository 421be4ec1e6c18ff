//! Restart-intensity windows.

use std::collections::VecDeque;
use std::time::Duration;

use vstd::prelude::*;

use crate::time::Timestamp;
use crate::types::SupervisorFlags;

verus! {

/// Whether a restart still counts: it is not in the future and no longer ago than the period.
pub open spec fn in_window(start: Timestamp, now: Timestamp, period: Duration) -> bool {
    start.nanos <= now.nanos && now.nanos - start.nanos
        <= crate::types::supervision::duration_nanos(period)
}

/// The restarts that are left once those at the front that no longer count are dropped.
pub open spec fn pruned(restarts: Seq<Timestamp>, now: Timestamp, period: Duration) -> Seq<
    Timestamp,
>
    decreases restarts.len(),
{
    if restarts.len() > 0 && !in_window(restarts[0], now, period) {
        pruned(restarts.drop_first(), now, period)
    } else {
        restarts
    }
}

/// Whether restarts were recorded in order of time, none of them after `now`.
pub open spec fn in_time_order(restarts: Seq<Timestamp>, now: Timestamp) -> bool {
    &&& forall|i: int, j: int|
        0 <= i <= j < restarts.len() ==> (#[trigger] restarts[i]).nanos <= (
        #[trigger] restarts[j]).nanos
    &&& forall|i: int| 0 <= i < restarts.len() ==> (#[trigger] restarts[i]).nanos <= now.nanos
}

fn within_period(start: Timestamp, now: Timestamp, period: Duration) -> (within: bool)
    ensures
        within == in_window(start, now, period),
{
    now.nanos >= start.nanos && now.nanos - start.nanos <= period.as_nanos()
}

/// Sliding window used to enforce supervisor restart intensity.
#[derive(Debug, Clone)]
pub struct RestartIntensity {
    flags: SupervisorFlags,
    restarts: VecDeque<Timestamp>,
}

impl View for RestartIntensity {
    type V = Seq<Timestamp>;

    /// The recorded restarts, oldest first.
    closed spec fn view(&self) -> Seq<Timestamp> {
        self.restarts@
    }
}

impl RestartIntensity {
    /// The flags of the tracker.
    pub closed spec fn spec_flags(self) -> SupervisorFlags {
        self.flags
    }

    /// Creates a new restart-intensity tracker.
    pub fn new(flags: SupervisorFlags) -> (intensity: Self)
        ensures
            intensity.spec_flags() == flags,
            intensity@ == Seq::<Timestamp>::empty(),
    {
        RestartIntensity { flags, restarts: VecDeque::new() }
    }

    /// Returns the supervisor flags for this tracker.
    pub fn flags(&self) -> (flags: &SupervisorFlags)
        ensures
            *flags == self.spec_flags(),
    {
        &self.flags
    }

    /// Replaces the flags and keeps the recorded restarts.
    pub fn reconfigure(&mut self, flags: SupervisorFlags)
        ensures
            final(self).spec_flags() == flags,
            final(self)@ == old(self)@,
    {
        self.flags = flags;
    }

    /// Records a restart and returns `true` when the restart is still within limits.
    pub fn record_restart(&mut self, now: Timestamp) -> (allowed: bool)
        ensures
            final(self)@ == pruned(old(self)@, now, old(self).spec_flags().period).push(now),
            final(self).spec_flags() == old(self).spec_flags(),
            allowed == (final(self)@.len() <= old(self).spec_flags().intensity),
    {
        self.prune(now);
        self.restarts.push_back(now);
        let count: usize = self.restarts.len();
        count as u64 <= self.flags.intensity as u64
    }

    /// Returns the current restart count inside the active period.
    pub fn active_restarts(&mut self, now: Timestamp) -> (count: usize)
        ensures
            final(self)@ == pruned(old(self)@, now, old(self).spec_flags().period),
            final(self).spec_flags() == old(self).spec_flags(),
            count == final(self)@.len(),
    {
        self.prune(now);
        self.restarts.len()
    }

    fn prune(&mut self, now: Timestamp)
        ensures
            final(self)@ == pruned(old(self)@, now, old(self).spec_flags().period),
            final(self).spec_flags() == old(self).spec_flags(),
    {
        let period = self.flags.period;
        while self.restarts.len() > 0 && !within_period(self.restarts[0], now, period)
            invariant
                self.flags == old(self).flags,
                period == old(self).flags.period,
                pruned(self.restarts@, now, period) == pruned(old(self)@, now, period),
            decreases self.restarts@.len(),
        {
            let ghost before = self.restarts@;
            let _oldest = self.restarts.pop_front();
            assert(self.restarts@ =~= before.drop_first());
        }
    }
}

/// When restarts are recorded in order of time, exactly those inside the window are kept.
pub proof fn lemma_window_holds_recent_restarts(
    restarts: Seq<Timestamp>,
    now: Timestamp,
    period: Duration,
)
    requires
        in_time_order(restarts, now),
    ensures
        pruned(restarts, now, period) == restarts.filter(
            |start: Timestamp| in_window(start, now, period),
        ),
        in_time_order(pruned(restarts, now, period), now),
    decreases restarts.len(),
{
    let counts = |start: Timestamp| in_window(start, now, period);
    if restarts.len() == 0 {
        reveal(Seq::filter);
        assert(restarts.filter(counts) =~= restarts);
    } else if in_window(restarts[0], now, period) {
        assert forall|i: int| 0 <= i < restarts.len() implies counts(#[trigger] restarts[i]) by {
            assert(restarts[0].nanos <= restarts[i].nanos);
        }
        lemma_filter_keeps_all(restarts, counts);
    } else {
        let rest = restarts.drop_first();
        assert forall|i: int, j: int| 0 <= i <= j < rest.len() implies (#[trigger] rest[i]).nanos
            <= (#[trigger] rest[j]).nanos by {
            assert(restarts[i + 1].nanos <= restarts[j + 1].nanos);
        }
        assert forall|i: int| 0 <= i < rest.len() implies (#[trigger] rest[i]).nanos
            <= now.nanos by {
            assert(restarts[i + 1].nanos <= now.nanos);
        }
        lemma_window_holds_recent_restarts(rest, now, period);
        lemma_filter_skips_first(restarts, counts);
    }
}

proof fn lemma_filter_keeps_all(items: Seq<Timestamp>, keep: spec_fn(Timestamp) -> bool)
    requires
        forall|i: int| 0 <= i < items.len() ==> keep(#[trigger] items[i]),
    ensures
        items.filter(keep) == items,
    decreases items.len(),
{
    reveal(Seq::filter);
    if items.len() > 0 {
        let front = items.drop_last();
        assert forall|i: int| 0 <= i < front.len() implies keep(#[trigger] front[i]) by {
            assert(front[i] == items[i]);
        }
        lemma_filter_keeps_all(front, keep);
        assert(keep(items[items.len() - 1]));
        assert(items =~= front.push(items.last()));
    } else {
        assert(items.filter(keep) =~= items);
    }
}

proof fn lemma_filter_skips_first(items: Seq<Timestamp>, keep: spec_fn(Timestamp) -> bool)
    requires
        items.len() > 0,
        !keep(items[0]),
    ensures
        items.filter(keep) == items.drop_first().filter(keep),
    decreases items.len(),
{
    reveal(Seq::filter);
    if items.len() == 1 {
        assert(items.drop_last() =~= Seq::<Timestamp>::empty());
        assert(items.drop_first() =~= Seq::<Timestamp>::empty());
    } else {
        lemma_filter_skips_first(items.drop_last(), keep);
        assert(items.drop_first().drop_last() =~= items.drop_last().drop_first());
        assert(items.drop_first().last() == items.last());
    }
}

} // verus!
