//! How runtime events are traced.

use vstd::prelude::*;

use crate::lifecycle::{LifecycleEvent, LifecycleView, ShutdownPhase};
use crate::types::ExitReason;

use super::events::{KindView, RuntimeEvent, RuntimeEventKind};

verus! {

/// How important a traced event is.
#[derive(Debug, Clone, Copy, PartialEq, Eq, Structural)]
pub enum TraceLevel {
    /// Ordinary operation.
    Info,
    /// Something went wrong and was dealt with.
    Warn,
    /// An actor crashed.
    Error,
}

/// The line under which an event is traced.
#[derive(Debug, Clone, Copy, PartialEq, Eq)]
pub struct TraceLine {
    /// Target of the trace.
    pub target: &'static str,
    /// Importance.
    pub level: TraceLevel,
    /// Number of the event.
    pub sequence: u64,
    /// What happened.
    pub message: &'static str,
}

/// How important an event is: crashes are errors, abnormal exits and timed-out shutdowns are
/// warnings, and the rest is information.
pub open spec fn level_of(kind: KindView) -> TraceLevel {
    match kind {
        KindView::Crash(_) => TraceLevel::Error,
        KindView::Lifecycle(LifecycleView::Exit { reason, .. }) => if reason.is_orderly() {
            TraceLevel::Info
        } else {
            TraceLevel::Warn
        },
        KindView::Lifecycle(LifecycleView::Shutdown { phase, .. }) => if phase is TimedOut {
            TraceLevel::Warn
        } else {
            TraceLevel::Info
        },
        KindView::Lifecycle(_) => TraceLevel::Info,
    }
}

/// Where an event is traced.
pub open spec fn target_of(kind: KindView) -> Seq<char> {
    match kind {
        KindView::Crash(_) => "lamport.crash"@,
        KindView::Lifecycle(_) => "lamport.lifecycle"@,
    }
}

/// What is said of an event.
pub open spec fn message_of(kind: KindView) -> Seq<char> {
    match kind {
        KindView::Crash(_) => "actor crashed"@,
        KindView::Lifecycle(event) => match event {
            LifecycleView::Spawn { .. } => "actor spawned"@,
            LifecycleView::Exit { .. } => "actor exited"@,
            LifecycleView::Down { .. } => "monitor delivered DOWN"@,
            LifecycleView::Restart { .. } => "supervisor restarted child"@,
            LifecycleView::Shutdown { .. } => "actor shutdown lifecycle update"@,
        },
    }
}

/// Decides how an exit is traced.
fn exit_level(reason: &ExitReason) -> (level: TraceLevel)
    ensures
        level == (if reason.is_orderly() {
            TraceLevel::Info
        } else {
            TraceLevel::Warn
        }),
{
    if reason.orderly() {
        TraceLevel::Info
    } else {
        TraceLevel::Warn
    }
}

/// Decides how a lifecycle event is traced.
fn lifecycle_line(event: &LifecycleEvent) -> (line: (TraceLevel, &'static str))
    ensures
        line.0 == level_of(KindView::Lifecycle(event@)),
        line.1@ == message_of(KindView::Lifecycle(event@)),
{
    match event {
        LifecycleEvent::Spawn { .. } => (TraceLevel::Info, "actor spawned"),
        LifecycleEvent::Exit { reason, .. } => (exit_level(reason), "actor exited"),
        LifecycleEvent::Down { .. } => (TraceLevel::Info, "monitor delivered DOWN"),
        LifecycleEvent::Restart { .. } => (TraceLevel::Info, "supervisor restarted child"),
        LifecycleEvent::Shutdown { phase, .. } => {
            let level = match phase {
                ShutdownPhase::TimedOut => TraceLevel::Warn,
                _ => TraceLevel::Info,
            };
            (level, "actor shutdown lifecycle update")
        },
    }
}

/// Decides how an event is traced.
pub fn trace_event(record: &RuntimeEvent) -> (line: TraceLine)
    ensures
        line.target@ == target_of(record@.kind),
        line.level == level_of(record@.kind),
        line.sequence == record.sequence,
        line.message@ == message_of(record@.kind),
        line.level is Error <==> record.kind is Crash,
        record.kind matches RuntimeEventKind::Lifecycle(LifecycleEvent::Exit { reason, .. }) ==> (
        line.level is Info <==> reason is Normal || reason is Shutdown),
        record.kind matches RuntimeEventKind::Lifecycle(LifecycleEvent::Shutdown { phase, .. })
            ==> (line.level is Warn <==> phase is TimedOut),
{
    match &record.kind {
        RuntimeEventKind::Lifecycle(event) => {
            let (level, message) = lifecycle_line(event);
            TraceLine { target: "lamport.lifecycle", level, sequence: record.sequence, message }
        },
        RuntimeEventKind::Crash(_) => TraceLine {
            target: "lamport.crash",
            level: TraceLevel::Error,
            sequence: record.sequence,
            message: "actor crashed",
        },
    }
}

/// How events are traced: crashes as errors; exits as information when they are normal or by
/// shutdown, and as warnings otherwise; a shutdown that timed out as a warning; and everything else
/// as information.
pub proof fn lemma_how_events_are_traced(kind: KindView)
    ensures
        kind is Crash ==> level_of(kind) is Error && target_of(kind) == "lamport.crash"@
            && message_of(kind) == "actor crashed"@,
        kind is Lifecycle ==> target_of(kind) == "lamport.lifecycle"@ && !(level_of(kind) is Error),
        kind matches KindView::Lifecycle(LifecycleView::Exit { reason, .. }) ==> {
            &&& message_of(kind) == "actor exited"@
            &&& level_of(kind) is Info <==> reason is Normal || reason is Shutdown
            &&& level_of(kind) is Warn <==> !(reason is Normal) && !(reason is Shutdown)
        },
        kind matches KindView::Lifecycle(LifecycleView::Shutdown { phase, .. }) ==> {
            &&& message_of(kind) == "actor shutdown lifecycle update"@
            &&& level_of(kind) is Warn <==> phase is TimedOut
            &&& level_of(kind) is Info <==> !(phase is TimedOut)
        },
        kind matches KindView::Lifecycle(LifecycleView::Spawn { .. }) ==> level_of(kind) is Info
            && message_of(kind) == "actor spawned"@,
        kind matches KindView::Lifecycle(LifecycleView::Down { .. }) ==> level_of(kind) is Info
            && message_of(kind) == "monitor delivered DOWN"@,
        kind matches KindView::Lifecycle(LifecycleView::Restart { .. }) ==> level_of(kind) is Info
            && message_of(kind) == "supervisor restarted child"@,
{
}

} // verus!
