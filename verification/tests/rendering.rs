use lamport::control::{
    check_version, ControlError, LocalUpgradeError, LocalUpgradeFailure, LocalUpgradeStage,
};
use lamport::internal::error::{mailbox_overflow_reason, panic_reason};
use lamport::observability::{trace_event, TraceLevel};
use lamport::scheduler::SchedulerMetrics;
use lamport::time::Timestamp;
use lamport::{
    ActorId, ActorIdentity, CrashReport, ExitReason, LifecycleEvent, Ref, RunQueueSnapshot,
    RuntimeEvent, RuntimeEventKind, RuntimeMetricsSnapshot, SendError, Shutdown, ShutdownPhase,
};

#[test]
fn reasons_and_ids_are_rendered() {
    assert_eq!(ActorId::new(18_446_744_073_709_551_615, 10).to_string(), "18446744073709551615.10");
    assert_eq!(ExitReason::Normal.to_string(), "normal");
    assert_eq!(ExitReason::Shutdown.to_string(), "shutdown");
    assert_eq!(ExitReason::Kill.to_string(), "killed");
    assert_eq!(ExitReason::NoProc.to_string(), "no process");
    assert_eq!(ExitReason::NoConnection.to_string(), "no connection");
    assert_eq!(ExitReason::Error("boom".into()).to_string(), "error: boom");
}

#[test]
fn panics_and_overflows_name_the_actor() {
    let actor = ActorId::new(4, 2);
    assert_eq!(
        panic_reason(actor, "worker", Some("boom".into())),
        ExitReason::Error("actor `worker` (4.2) panicked: boom".into())
    );
    assert_eq!(
        panic_reason(actor, "worker", None),
        ExitReason::Error("actor `worker` (4.2) panicked: unknown panic".into())
    );
    assert_eq!(
        mailbox_overflow_reason(actor, "exit"),
        ExitReason::Error("actor `4.2` mailbox overflow while delivering exit".into())
    );
}

fn crash() -> CrashReport {
    CrashReport {
        actor: ActorId::new(3, 1),
        name: "worker",
        registered_name: Some("cache".into()),
        parent: Some(ActorId::new(2, 0)),
        parent_context: Some(ActorIdentity::new(ActorId::new(2, 0), "super", None)),
        ancestors: vec![ActorId::new(1, 0), ActorId::new(2, 0)],
        ancestor_contexts: vec![
            ActorIdentity::new(ActorId::new(1, 0), "root", Some("top".into())),
            ActorIdentity::new(ActorId::new(2, 0), "super", None),
        ],
        supervisor_child: Some("cache"),
        reason: ExitReason::Error("boom".into()),
    }
}

#[test]
fn crash_reports_are_rendered_with_their_context() {
    assert_eq!(
        crash().to_string(),
        "3.1 `worker` (cache) exited abnormally: error: boom [supervisor child: cache]; \
         parent: 2.0 `super`; ancestors: 1.0 `root` (top) -> 2.0 `super`"
    );
    let bare = CrashReport {
        registered_name: None,
        parent_context: None,
        ancestor_contexts: Vec::new(),
        supervisor_child: None,
        ..crash()
    };
    assert_eq!(
        bare.to_string(),
        "3.1 `worker` exited abnormally: error: boom; parent: 2.0; ancestors: 1.0 -> 2.0"
    );
    let orphan = CrashReport { parent: None, ancestors: Vec::new(), ..bare };
    assert_eq!(orphan.to_string(), "3.1 `worker` exited abnormally: error: boom");
    assert_eq!(orphan.actor_identity().to_string(), "3.1 `worker`");
}

#[test]
fn control_errors_are_rendered() {
    assert_eq!(
        ControlError::NoProc(ActorId::new(1, 0)).to_string(),
        "actor `1.0` does not exist"
    );
    assert_eq!(
        ControlError::unsupported("inspect_state").to_string(),
        "actor does not support control operation `inspect_state`"
    );
    assert_eq!(
        check_version(3, 4).unwrap_err().to_string(),
        "control state version mismatch: current=3, requested=4"
    );
    assert_eq!(check_version(3, 3), Ok(()));
    assert_eq!(
        ControlError::invalid_state("u32", "u64").to_string(),
        "invalid replacement state payload: expected `u32`, got `u64`"
    );
    assert_eq!(
        ControlError::rejected("replace_state", "not now").to_string(),
        "control operation `replace_state` rejected: not now"
    );
}

fn upgrade_error(failure: LocalUpgradeFailure, placed: bool) -> LocalUpgradeError {
    LocalUpgradeError {
        root: ActorId::new(1, 0),
        target_version: 2,
        actor: if placed { Some(ActorId::new(5, 0)) } else { None },
        stage: if placed { Some(LocalUpgradeStage::CodeChange) } else { None },
        failure: Box::new(failure),
        suspended: Vec::new(),
        upgraded: Vec::new(),
    }
}

#[test]
fn upgrade_errors_are_rendered() {
    let control = || LocalUpgradeFailure::Control(ControlError::unsupported("code_change"));
    assert_eq!(
        upgrade_error(control(), true).to_string(),
        "local upgrade failed during CodeChange for actor `5.0`: \
         actor does not support control operation `code_change`"
    );
    assert_eq!(
        upgrade_error(control(), false).to_string(),
        "local upgrade failed: actor does not support control operation `code_change`"
    );
    assert_eq!(
        upgrade_error(
            LocalUpgradeFailure::Send(SendError::NoProc(ActorId::new(5, 0))),
            true,
        )
        .to_string(),
        "local upgrade failed during CodeChange for actor `5.0`: \
         NoProc(ActorId { local_id: 5, generation: 0 })"
    );
    assert_eq!(
        upgrade_error(LocalUpgradeFailure::NotLiveSupervisor(ActorId::new(7, 0)), true).to_string(),
        "actor `7.0` is not a live supervisor root"
    );
    assert_eq!(
        upgrade_error(
            LocalUpgradeFailure::InvalidTree {
                actor: ActorId::new(7, 0),
                reason: "cycle".into(),
            },
            true,
        )
        .to_string(),
        "invalid supervisor tree at actor `7.0`: cycle"
    );
}

fn event(kind: RuntimeEventKind) -> RuntimeEvent {
    RuntimeEvent { sequence: 9, emitted_at: Timestamp::from_nanos(1), kind }
}

fn exit(reason: ExitReason) -> RuntimeEventKind {
    RuntimeEventKind::Lifecycle(LifecycleEvent::Exit {
        actor: ActorId::new(1, 0),
        name: "worker",
        reason,
        parent: None,
        ancestors: Vec::new(),
    })
}

fn shutdown(phase: ShutdownPhase) -> RuntimeEventKind {
    RuntimeEventKind::Lifecycle(LifecycleEvent::Shutdown {
        requester: ActorId::new(1, 0),
        actor: ActorId::new(2, 0),
        policy: Shutdown::Infinity,
        phase,
        reason: None,
    })
}

#[test]
fn events_are_traced_by_importance() {
    let line = trace_event(&event(exit(ExitReason::Normal)));
    assert_eq!(line.target, "lamport.lifecycle");
    assert_eq!(line.level, TraceLevel::Info);
    assert_eq!(line.sequence, 9);
    assert_eq!(line.message, "actor exited");
    assert_eq!(trace_event(&event(exit(ExitReason::Kill))).level, TraceLevel::Warn);
    let line = trace_event(&event(RuntimeEventKind::Crash(crash())));
    assert_eq!(line.target, "lamport.crash");
    assert_eq!(line.level, TraceLevel::Error);
    assert_eq!(line.message, "actor crashed");
    assert_eq!(
        trace_event(&event(shutdown(ShutdownPhase::TimedOut))).level,
        TraceLevel::Warn
    );
    assert_eq!(
        trace_event(&event(shutdown(ShutdownPhase::Completed))).level,
        TraceLevel::Info
    );
    let down = RuntimeEventKind::Lifecycle(LifecycleEvent::Down {
        watcher: ActorId::new(1, 0),
        actor: ActorId::new(2, 0),
        reference: Ref::new(3),
        reason: ExitReason::Kill,
    });
    assert_eq!(trace_event(&event(down)).message, "monitor delivered DOWN");
}

fn metrics_with(run_queues: Vec<RunQueueSnapshot>) -> RuntimeMetricsSnapshot {
    RuntimeMetricsSnapshot {
        observed_at: Timestamp::from_nanos(1_500_000_000),
        live_actors: 3,
        completed_actors: 1,
        starting_actors: 0,
        runnable_actors: 1,
        waiting_actors: 2,
        running_actors: 0,
        exiting_actors: 0,
        dead_actors: 1,
        total_mailbox_len: 5,
        max_mailbox_len: 4,
        scheduler_metrics: SchedulerMetrics {
            normal_turns: 10,
            idle_turns: 11,
            blocking_io_jobs: 12,
            blocking_cpu_jobs: 13,
            ..SchedulerMetrics::default()
        },
        run_queues,
    }
}

#[test]
fn metrics_are_exported_as_prometheus_text() {
    let queue = |scheduler_id: usize| RunQueueSnapshot {
        scheduler_id,
        runnable: 1,
        waiting: 2,
        injected: 3,
        stolen: 4,
    };
    let metrics = metrics_with(vec![queue(1), queue(0)]);
    let text = metrics.to_prometheus("1.5", "0.25");
    let expected = [
        "# HELP lamport_runtime_observed_at_seconds Unix timestamp when the runtime metrics snapshot was captured.",
        "# TYPE lamport_runtime_observed_at_seconds gauge",
        "lamport_runtime_observed_at_seconds 1.5",
        "# HELP lamport_runtime_live_actors Current number of live actors in the runtime.",
        "# TYPE lamport_runtime_live_actors gauge",
        "lamport_runtime_live_actors 3",
        "# HELP lamport_runtime_completed_actors Number of completed actor snapshots retained for introspection.",
        "# TYPE lamport_runtime_completed_actors gauge",
        "lamport_runtime_completed_actors 1",
        "# HELP lamport_runtime_mailbox_messages Total number of messages queued across live actor mailboxes.",
        "# TYPE lamport_runtime_mailbox_messages gauge",
        "lamport_runtime_mailbox_messages 5",
        "# HELP lamport_runtime_mailbox_max_messages Largest mailbox length across live actors.",
        "# TYPE lamport_runtime_mailbox_max_messages gauge",
        "lamport_runtime_mailbox_max_messages 4",
        "# HELP lamport_scheduler_utilization_ratio Estimated fraction of busy scheduler time over the runtime lifetime.",
        "# TYPE lamport_scheduler_utilization_ratio gauge",
        "lamport_scheduler_utilization_ratio 0.25",
        "# HELP lamport_scheduler_normal_turns_total Total actor turns executed on normal schedulers.",
        "# TYPE lamport_scheduler_normal_turns_total counter",
        "lamport_scheduler_normal_turns_total 10",
        "# HELP lamport_scheduler_idle_turns_total Total idle polling turns observed by schedulers.",
        "# TYPE lamport_scheduler_idle_turns_total counter",
        "lamport_scheduler_idle_turns_total 11",
        "# HELP lamport_scheduler_blocking_io_jobs_total Total jobs submitted to the blocking I/O pool.",
        "# TYPE lamport_scheduler_blocking_io_jobs_total counter",
        "lamport_scheduler_blocking_io_jobs_total 12",
        "# HELP lamport_scheduler_blocking_cpu_jobs_total Total jobs submitted to the blocking CPU pool.",
        "# TYPE lamport_scheduler_blocking_cpu_jobs_total counter",
        "lamport_scheduler_blocking_cpu_jobs_total 13",
        "# HELP lamport_runtime_actor_status Number of actors in each lifecycle state.",
        "# TYPE lamport_runtime_actor_status gauge",
        "lamport_runtime_actor_status{status=\"starting\"} 0",
        "lamport_runtime_actor_status{status=\"runnable\"} 1",
        "lamport_runtime_actor_status{status=\"waiting\"} 2",
        "lamport_runtime_actor_status{status=\"running\"} 0",
        "lamport_runtime_actor_status{status=\"exiting\"} 0",
        "lamport_runtime_actor_status{status=\"dead\"} 1",
        "# HELP lamport_scheduler_runnable_actors Number of runnable actors assigned to each scheduler.",
        "# TYPE lamport_scheduler_runnable_actors gauge",
        "# HELP lamport_scheduler_waiting_actors Number of waiting actors assigned to each scheduler.",
        "# TYPE lamport_scheduler_waiting_actors gauge",
        "# HELP lamport_scheduler_injected_total Actors injected onto each scheduler from the global queue.",
        "# TYPE lamport_scheduler_injected_total counter",
        "# HELP lamport_scheduler_stolen_total Actors stolen by each scheduler.",
        "# TYPE lamport_scheduler_stolen_total counter",
        "lamport_scheduler_runnable_actors{scheduler_id=\"0\"} 1",
        "lamport_scheduler_waiting_actors{scheduler_id=\"0\"} 2",
        "lamport_scheduler_injected_total{scheduler_id=\"0\"} 3",
        "lamport_scheduler_stolen_total{scheduler_id=\"0\"} 4",
        "lamport_scheduler_runnable_actors{scheduler_id=\"1\"} 1",
        "lamport_scheduler_waiting_actors{scheduler_id=\"1\"} 2",
        "lamport_scheduler_injected_total{scheduler_id=\"1\"} 3",
        "lamport_scheduler_stolen_total{scheduler_id=\"1\"} 4",
        "",
    ];
    assert_eq!(text, expected.join("\n"));
}

#[test]
fn run_queues_are_exported_in_the_order_of_their_schedulers() {
    let queue = |scheduler_id: usize, runnable: usize| RunQueueSnapshot {
        scheduler_id,
        runnable,
        ..RunQueueSnapshot::default()
    };
    let metrics = metrics_with(vec![queue(2, 5), queue(0, 6), queue(2, 7), queue(1, 8)]);
    let text = metrics.to_prometheus("1.5", "0.25");
    let runnable: Vec<&str> = text
        .lines()
        .filter_map(|line| line.strip_prefix("lamport_scheduler_runnable_actors{scheduler_id="))
        .collect();
    assert_eq!(runnable, vec!["\"0\"} 6", "\"1\"} 8", "\"2\"} 5", "\"2\"} 7"]);
}
