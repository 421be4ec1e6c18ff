//! The runtime's event log and cursors into it.

use vstd::prelude::*;

use crate::lifecycle::{CrashReport, CrashView, LifecycleEvent, LifecycleView};
use crate::scheduler::bump;
use crate::time::Timestamp;

verus! {

/// Cursor for incremental runtime event consumption.
#[derive(Debug, Clone, Copy, PartialEq, Eq, Structural)]
pub struct EventCursor {
    next_sequence: u64,
}

impl View for EventCursor {
    type V = u64;

    /// The next sequence number that will be requested.
    closed spec fn view(&self) -> u64 {
        self.next_sequence
    }
}

impl Default for EventCursor {
    fn default() -> (cursor: Self)
        ensures
            cursor@ == 0,
    {
        EventCursor { next_sequence: 0 }
    }
}

impl EventCursor {
    /// Creates a cursor positioned at the start of the retained event log.
    pub fn from_start() -> (cursor: Self)
        ensures
            cursor@ == 0,
    {
        EventCursor { next_sequence: 0 }
    }

    /// Returns the next sequence number that will be requested.
    pub fn next_sequence(self) -> (sequence: u64)
        ensures
            sequence == self@,
    {
        self.next_sequence
    }

    /// Creates a cursor positioned at a sequence number.
    pub fn new(next_sequence: u64) -> (cursor: Self)
        ensures
            cursor@ == next_sequence,
    {
        EventCursor { next_sequence }
    }
}

/// Typed runtime event variants emitted by the observability layer.
#[derive(Debug, PartialEq, Eq)]
pub enum RuntimeEventKind {
    /// Lifecycle transition emitted by the runtime.
    Lifecycle(LifecycleEvent),
    /// Abnormal crash report emitted for an actor exit.
    Crash(CrashReport),
}

/// What an event is about, with sequences in place of vectors.
pub enum KindView {
    /// See [`RuntimeEventKind::Lifecycle`].
    Lifecycle(LifecycleView),
    /// See [`RuntimeEventKind::Crash`].
    Crash(CrashView),
}

impl View for RuntimeEventKind {
    type V = KindView;

    open spec fn view(&self) -> KindView {
        match *self {
            RuntimeEventKind::Lifecycle(event) => KindView::Lifecycle(event@),
            RuntimeEventKind::Crash(report) => KindView::Crash(report@),
        }
    }
}

impl Clone for RuntimeEventKind {
    fn clone(&self) -> (copy: Self)
        ensures
            copy@ == self@,
    {
        match self {
            RuntimeEventKind::Lifecycle(event) => RuntimeEventKind::Lifecycle(event.clone()),
            RuntimeEventKind::Crash(report) => RuntimeEventKind::Crash(report.clone()),
        }
    }
}

/// Structured runtime event suitable for tracing, debugging, and tests.
#[derive(Debug, PartialEq, Eq)]
pub struct RuntimeEvent {
    /// Monotonic sequence number within a runtime instance.
    pub sequence: u64,
    /// Wall-clock timestamp when the event was emitted.
    pub emitted_at: Timestamp,
    /// Typed runtime event payload.
    pub kind: RuntimeEventKind,
}

/// What an event says, with sequences in place of vectors.
pub struct EventView {
    /// Monotonic sequence number.
    pub sequence: u64,
    /// When the event was emitted.
    pub emitted_at: Timestamp,
    /// What the event is about.
    pub kind: KindView,
}

impl View for RuntimeEvent {
    type V = EventView;

    open spec fn view(&self) -> EventView {
        EventView { sequence: self.sequence, emitted_at: self.emitted_at, kind: self.kind@ }
    }
}

impl Clone for RuntimeEvent {
    fn clone(&self) -> (copy: Self)
        ensures
            copy@ == self@,
    {
        RuntimeEvent {
            sequence: self.sequence,
            emitted_at: self.emitted_at,
            kind: self.kind.clone(),
        }
    }
}

/// What a list of events says.
pub open spec fn views(events: Seq<RuntimeEvent>) -> Seq<EventView> {
    events.map_values(|event: RuntimeEvent| event@)
}

/// What a list of lifecycle events says.
pub open spec fn lifecycle_views(events: Seq<LifecycleEvent>) -> Seq<LifecycleView> {
    events.map_values(|event: LifecycleEvent| event@)
}

/// What a list of crash reports says.
pub open spec fn crash_views(reports: Seq<CrashReport>) -> Seq<CrashView> {
    reports.map_values(|report: CrashReport| report@)
}

/// Whether all events before a cursor stand in front of all others.
pub open spec fn split_by(events: Seq<EventView>, cursor: u64) -> bool {
    forall|i: int, j: int|
        0 <= i < j < events.len() && (#[trigger] events[j]).sequence < cursor ==> (
        #[trigger] events[i]).sequence < cursor
}

/// How many events at the front lie before a cursor.
pub open spec fn seen(events: Seq<EventView>, cursor: u64) -> nat
    decreases events.len(),
{
    if events.len() == 0 || events[0].sequence >= cursor {
        0
    } else {
        1 + seen(events.drop_first(), cursor)
    }
}

/// The events that a cursor has not passed yet.
pub open spec fn pending(events: Seq<EventView>, cursor: u64) -> Seq<EventView> {
    events.skip(seen(events, cursor) as int)
}

/// The cursor once the pending events were handed out.
pub open spec fn advanced(events: Seq<EventView>, cursor: u64) -> u64 {
    if pending(events, cursor).len() == 0 {
        cursor
    } else {
        crate::scheduler::bumped(pending(events, cursor).last().sequence)
    }
}

/// The events before the cursor are those counted as seen.
pub proof fn lemma_seen(events: Seq<EventView>, cursor: u64)
    ensures
        seen(events, cursor) <= events.len(),
        forall|i: int| 0 <= i < seen(events, cursor) ==> (#[trigger] events[i]).sequence < cursor,
        seen(events, cursor) < events.len() ==> events[seen(events, cursor) as int].sequence
            >= cursor,
    decreases events.len(),
{
    if events.len() > 0 && events[0].sequence < cursor {
        let rest = events.drop_first();
        lemma_seen(rest, cursor);
        assert forall|i: int| 0 <= i < seen(events, cursor) implies (
        #[trigger] events[i]).sequence < cursor by {
            if i > 0 {
                assert(rest[i - 1] == events[i]);
            }
        }
    }
}

proof fn lemma_is_seen(events: Seq<EventView>, cursor: u64, at: int)
    requires
        0 <= at <= events.len(),
        forall|i: int| 0 <= i < at ==> (#[trigger] events[i]).sequence < cursor,
        at < events.len() ==> events[at].sequence >= cursor,
    ensures
        seen(events, cursor) == at,
{
    lemma_seen(events, cursor);
    let count = seen(events, cursor) as int;
    if count < at {
        assert(events[count].sequence < cursor);
    }
    if at < count {
        assert(events[at].sequence < cursor);
    }
}

/// Copies events from a place on.
fn copy_from(events: &[RuntimeEvent], start: usize) -> (copy: Vec<RuntimeEvent>)
    requires
        start <= events@.len(),
    ensures
        views(copy@) == views(events@).skip(start as int),
{
    let mut copy: Vec<RuntimeEvent> = Vec::new();
    let mut at: usize = start;
    assert(views(copy@) =~= views(events@).subrange(start as int, start as int));
    while at < events.len()
        invariant
            start <= at <= events@.len(),
            views(copy@) == views(events@).subrange(start as int, at as int),
        decreases events@.len() - at,
    {
        let ghost before = copy@;
        copy.push(events[at].clone());
        proof {
            assert(views(copy@) =~= views(before).push(copy@[copy@.len() - 1]@));
            assert(views(copy@) =~= views(events@).subrange(start as int, at + 1));
        }
        at = at + 1;
    }
    assert(views(copy@) =~= views(events@).skip(start as int));
    copy
}

/// Returns the events at or after the cursor and advances it past them.
pub fn events_since(events: &[RuntimeEvent], cursor: &mut EventCursor) -> (delta: Vec<
    RuntimeEvent,
>)
    requires
        split_by(views(events@), old(cursor)@),
    ensures
        views(delta@) == pending(views(events@), old(cursor)@),
        final(cursor)@ == advanced(views(events@), old(cursor)@),
        forall|i: int|
            0 <= i < views(events@).len() ==> (pending(views(events@), old(cursor)@).contains(
                #[trigger] views(events@)[i],
            ) <== views(events@)[i].sequence >= old(cursor)@),
{
    let ghost all = views(events@);
    let mut start: usize = 0;
    while start < events.len() && events[start].sequence < cursor.next_sequence
        invariant
            start <= events@.len(),
            all == views(events@),
            *cursor == *old(cursor),
            forall|i: int| 0 <= i < start ==> (#[trigger] all[i]).sequence < old(cursor)@,
        decreases events@.len() - start,
    {
        start = start + 1;
    }
    proof {
        lemma_is_seen(all, old(cursor)@, start as int);
        assert forall|i: int| 0 <= i < all.len() && (#[trigger] all[i]).sequence >= old(
            cursor,
        )@ implies pending(all, old(cursor)@).contains(all[i]) by {
            assert(i >= start);
            assert(all.skip(start as int)[i - start] == all[i]);
        }
    }
    let delta = copy_from(events, start);
    if delta.len() > 0 {
        proof {
            assert(views(delta@).last() == delta@[delta@.len() - 1]@);
        }
        cursor.next_sequence = bump(delta[delta.len() - 1].sequence);
    }
    delta
}

/// Everything that the runtime has recorded, in order.
#[derive(Debug)]
pub struct EventLog {
    lifecycle: Vec<LifecycleEvent>,
    crashes: Vec<CrashReport>,
    events: Vec<RuntimeEvent>,
    now: Timestamp,
}

/// The lifecycle events among recorded events.
pub open spec fn lifecycle_of(events: Seq<EventView>) -> Seq<LifecycleView>
    decreases events.len(),
{
    if events.len() == 0 {
        Seq::empty()
    } else {
        match events.last().kind {
            KindView::Lifecycle(event) => lifecycle_of(events.drop_last()).push(event),
            KindView::Crash(_) => lifecycle_of(events.drop_last()),
        }
    }
}

/// The crash reports among recorded events.
pub open spec fn crashes_of(events: Seq<EventView>) -> Seq<CrashView>
    decreases events.len(),
{
    if events.len() == 0 {
        Seq::empty()
    } else {
        match events.last().kind {
            KindView::Lifecycle(_) => crashes_of(events.drop_last()),
            KindView::Crash(report) => crashes_of(events.drop_last()).push(report),
        }
    }
}

/// Whether events are numbered 1, 2, 3 and so on.
pub open spec fn numbered(events: Seq<EventView>) -> bool {
    forall|i: int| 0 <= i < events.len() ==> (#[trigger] events[i]).sequence == i + 1
}

impl View for EventLog {
    type V = Seq<EventView>;

    /// The recorded events, oldest first.
    closed spec fn view(&self) -> Seq<EventView> {
        views(self.events@)
    }
}

impl EventLog {
    /// The lifecycle events on their own.
    pub closed spec fn spec_lifecycle(self) -> Seq<LifecycleView> {
        lifecycle_views(self.lifecycle@)
    }

    /// The crash reports on their own.
    pub closed spec fn spec_crashes(self) -> Seq<CrashView> {
        crash_views(self.crashes@)
    }

    /// The time at which the next event is stamped.
    pub closed spec fn spec_now(self) -> Timestamp {
        self.now
    }

    /// Whether the events are numbered without a gap, and the separate lists hold exactly what
    /// the log holds.
    pub open spec fn wf(self) -> bool {
        &&& numbered(self@)
        &&& self@.len() <= u64::MAX
        &&& self.spec_lifecycle() == lifecycle_of(self@)
        &&& self.spec_crashes() == crashes_of(self@)
    }

    /// The log with one more event of the given kind.
    pub open spec fn extended(self, kind: KindView) -> Seq<EventView> {
        self@.push(
            EventView {
                sequence: (self@.len() + 1) as u64,
                emitted_at: self.spec_now(),
                kind,
            },
        )
    }

    /// Creates an empty log, with the time at the origin until it is set.
    pub fn new() -> (log: Self)
        ensures
            log@ == Seq::<EventView>::empty(),
            log.spec_now() == (Timestamp { nanos: 0 }),
            log.wf(),
    {
        let log = EventLog {
            lifecycle: Vec::new(),
            crashes: Vec::new(),
            events: Vec::new(),
            now: Timestamp { nanos: 0 },
        };
        proof {
            assert(log@ =~= Seq::<EventView>::empty());
            assert(log.spec_lifecycle() =~= Seq::<LifecycleView>::empty());
            assert(log.spec_crashes() =~= Seq::<CrashView>::empty());
        }
        log
    }

    /// Sets the time at which the next events are stamped.
    pub fn set_time(&mut self, now: Timestamp)
        ensures
            final(self).spec_now() == now,
            final(self)@ == old(self)@,
            final(self).spec_lifecycle() == old(self).spec_lifecycle(),
            final(self).spec_crashes() == old(self).spec_crashes(),
            old(self).wf() ==> final(self).wf(),
    {
        self.now = now;
    }

    /// Appends an event with the next number.
    fn record(&mut self, kind: RuntimeEventKind)
        requires
            numbered(old(self)@),
        ensures
            final(self)@ == old(self).extended(kind@),
            numbered(final(self)@),
            final(self)@.len() <= u64::MAX,
            final(self).lifecycle == old(self).lifecycle,
            final(self).crashes == old(self).crashes,
            final(self).now == old(self).now,
    {
        let count: u64 = self.events.len() as u64;
        let record = RuntimeEvent { sequence: count.wrapping_add(1), emitted_at: self.now, kind };
        let ghost before = self.events@;
        self.events.push(record);
        proof {
            assert(self.events.len() == before.len() + 1);
            assert(views(self.events@) =~= views(before).push(record@));
        }
    }

    /// Records a lifecycle event.
    pub fn record_lifecycle(&mut self, event: LifecycleEvent)
        requires
            old(self).wf(),
        ensures
            final(self)@ == old(self).extended(KindView::Lifecycle(event@)),
            final(self).spec_now() == old(self).spec_now(),
            final(self).wf(),
    {
        let copy = event.clone();
        let ghost before = self.lifecycle@;
        self.lifecycle.push(copy);
        self.record(RuntimeEventKind::Lifecycle(event));
        proof {
            assert(lifecycle_views(self.lifecycle@) =~= lifecycle_views(before).push(event@));
            assert(self@.drop_last() =~= old(self)@);
        }
    }

    /// Records a crash report.
    pub fn record_crash(&mut self, report: CrashReport)
        requires
            old(self).wf(),
        ensures
            final(self)@ == old(self).extended(KindView::Crash(report@)),
            final(self).spec_now() == old(self).spec_now(),
            final(self).wf(),
    {
        let copy = report.clone();
        let ghost before = self.crashes@;
        self.crashes.push(copy);
        self.record(RuntimeEventKind::Crash(report));
        proof {
            assert(crash_views(self.crashes@) =~= crash_views(before).push(report@));
            assert(self@.drop_last() =~= old(self)@);
        }
    }

    /// Returns the lifecycle events.
    pub fn lifecycle_events(&self) -> (events: &[LifecycleEvent])
        ensures
            lifecycle_views(events@) == self.spec_lifecycle(),
    {
        self.lifecycle.as_slice()
    }

    /// Returns the crash reports.
    pub fn crash_reports(&self) -> (reports: &[CrashReport])
        ensures
            crash_views(reports@) == self.spec_crashes(),
    {
        self.crashes.as_slice()
    }

    /// Returns a copy of all events.
    pub fn event_log(&self) -> (events: Vec<RuntimeEvent>)
        ensures
            views(events@) == self@,
    {
        let events = copy_from(self.events.as_slice(), 0);
        assert(views(events@) =~= self@);
        events
    }

    /// Returns a cursor positioned after the last event.
    pub fn event_cursor(&self) -> (cursor: EventCursor)
        ensures
            cursor@ == crate::scheduler::bumped(self@.len() as u64),
    {
        EventCursor::new(bump(self.events.len() as u64))
    }

    /// Returns the events at or after the cursor and advances it past them.
    pub fn events_since(&self, cursor: &mut EventCursor) -> (delta: Vec<RuntimeEvent>)
        requires
            self.wf(),
        ensures
            views(delta@) == pending(self@, old(cursor)@),
            final(cursor)@ == advanced(self@, old(cursor)@),
    {
        assert(split_by(views(self.events@), cursor@));
        events_since(self.events.as_slice(), cursor)
    }
}

/// Whether the sequence numbers of events never go down.
pub open spec fn ascending(events: Seq<EventView>) -> bool {
    forall|i: int, j: int|
        0 <= i < j < events.len() ==> (#[trigger] events[i]).sequence <= (
        #[trigger] events[j]).sequence
}

/// Reading a growing log twice in a row hands out every event once: what was pending at first and
/// what came in between the two reads. That holds for every cursor and every log with ascending
/// sequence numbers, as long as what comes in between has a new number and there is a number
/// behind the last one that was read.
pub proof fn lemma_events_are_handed_out_once(
    earlier: Seq<EventView>,
    later: Seq<EventView>,
    cursor: u64,
)
    requires
        ascending(later),
        earlier.len() <= later.len(),
        earlier == later.take(earlier.len() as int),
        0 < earlier.len() < later.len() ==> earlier.last().sequence
            < later[earlier.len() as int].sequence,
        earlier.len() > 0 ==> earlier.last().sequence < u64::MAX,
    ensures
        pending(earlier, cursor) + pending(later, advanced(earlier, cursor)) == pending(
            later,
            cursor,
        ),
        advanced(later, advanced(earlier, cursor)) == advanced(later, cursor),
{
    let first = seen(earlier, cursor) as int;
    let length = earlier.len() as int;
    lemma_seen(earlier, cursor);
    assert forall|i: int| 0 <= i < length implies (#[trigger] earlier[i]) == later[i] by {}
    let middle = advanced(earlier, cursor);
    if first == length {
        assert(pending(earlier, cursor) =~= Seq::<EventView>::empty());
        assert(pending(earlier, cursor) + pending(later, cursor) =~= pending(later, cursor));
    } else {
        assert forall|i: int| 0 <= i < first implies (#[trigger] later[i]).sequence < cursor by {
            assert(earlier[i].sequence < cursor);
        }
        lemma_is_seen(later, cursor, first);
        assert(pending(earlier, cursor).last() == earlier[length - 1]);
        assert(middle == later[length - 1].sequence + 1);
        assert forall|i: int| 0 <= i < length implies (#[trigger] later[i]).sequence < middle by {
            if i < length - 1 {
                assert(later[i].sequence <= later[length - 1].sequence);
            }
        }
        lemma_is_seen(later, middle, length);
        assert(pending(earlier, cursor) + pending(later, middle) =~= pending(later, cursor));
        if length == later.len() {
            assert(later =~= earlier);
        } else {
            assert(pending(later, middle).last() == later[later.len() - 1]);
            assert(pending(later, cursor).last() == later[later.len() - 1]);
        }
    }
}

/// Reading the log of a runtime twice in a row hands out every event once, whatever the cursor.
pub proof fn lemma_a_runtime_log_is_handed_out_once(
    earlier: Seq<EventView>,
    later: Seq<EventView>,
    cursor: u64,
)
    requires
        numbered(later),
        later.len() < u64::MAX,
        earlier.len() <= later.len(),
        earlier == later.take(earlier.len() as int),
    ensures
        pending(earlier, cursor) + pending(later, advanced(earlier, cursor)) == pending(
            later,
            cursor,
        ),
        advanced(later, advanced(earlier, cursor)) == advanced(later, cursor),
{
    if earlier.len() > 0 {
        assert(earlier.last() == later[earlier.len() - 1]);
    }
    lemma_events_are_handed_out_once(earlier, later, cursor);
}

} // verus!
