use lamport::internal::supervisor_state::SupervisorRuntimeState;
use lamport::observability::{build_actor_tree, events_since, EventLog};
use lamport::supervisor::{SupervisorNotice, SupervisorRequest};
use lamport::time::Timestamp;
use lamport::{
    ActorId, ActorMetrics, ActorSnapshot, ActorStatus, ActorTurn, ChildSpec, Envelope,
    EventCursor, ExitReason, ExitSignal, LifecycleEvent, Ref, Restart, Shutdown, StartChildError,
    Strategy, SupervisorActor, SupervisorDirective, SupervisorFlags, SystemMessage,
};
use std::time::Duration;

fn specs(ids: &[&'static str]) -> Vec<ChildSpec> {
    ids.iter()
        .map(|id| ChildSpec {
            id,
            restart: Restart::Permanent,
            shutdown: Shutdown::Infinity,
            is_supervisor: false,
        })
        .collect()
}

fn flags() -> SupervisorFlags {
    SupervisorFlags {
        strategy: Strategy::OneForOne,
        intensity: 1,
        period: Duration::from_secs(5),
    }
}

fn actor(local_id: u64) -> ActorId {
    ActorId::new(local_id, 0)
}

/// A supervisor whose children run as actors 1, 2 and so on.
fn started(ids: &[&'static str]) -> SupervisorActor<()> {
    let mut supervisor = SupervisorActor::new((), flags(), specs(ids));
    let mut step = supervisor.init();
    let mut next: u64 = 1;
    while let SupervisorRequest::StartChild(spec) = step.request {
        assert_eq!(spec.id, ids[next as usize - 1]);
        step = supervisor.child_started(Ok(actor(next)), Some(actor(next)));
        assert!(matches!(
            step.notices.as_slice(),
            [SupervisorNotice::ChildStarted { actor: seen, .. }] if *seen == actor(next)
        ));
        next += 1;
    }
    assert!(matches!(step.request, SupervisorRequest::Started(Ok(()))));
    supervisor
}

fn exit(from: ActorId, reason: ExitReason) -> Envelope {
    Envelope::Exit(ExitSignal { from, reason, linked: true })
}

fn shutdown_of(request: &SupervisorRequest) -> ActorId {
    match request {
        SupervisorRequest::ShutdownChild { actor, .. } => *actor,
        other => panic!("unexpected request: {other:?}"),
    }
}

#[test]
fn failed_startup_kills_what_was_started() {
    let mut supervisor = SupervisorActor::new((), flags(), specs(&["a", "b"]));
    supervisor.init();
    supervisor.child_started(Ok(actor(1)), Some(actor(1)));
    let step = supervisor.child_started(Err(StartChildError::SpawnRejected), None);
    assert!(matches!(
        step.request,
        SupervisorRequest::ShutdownChild { actor: seen, policy: Shutdown::BrutalKill }
            if seen == actor(1)
    ));
    let step = supervisor.shutdown_answered(true);
    match step.request {
        SupervisorRequest::Started(Err(reason)) => assert_eq!(
            reason,
            ExitReason::Error("supervisor rejected child spawn for `b`".into())
        ),
        other => panic!("unexpected request: {other:?}"),
    }
}

#[test]
fn child_that_was_not_spawned_is_rejected() {
    let mut supervisor = SupervisorActor::new((), flags(), specs(&["a"]));
    supervisor.init();
    let step = supervisor.child_started(Ok(actor(1)), Some(actor(2)));
    assert!(matches!(
        step.request,
        SupervisorRequest::Started(Err(ExitReason::Error(_)))
    ));
    let mut supervisor = SupervisorActor::new((), flags(), specs(&["a"]));
    supervisor.init();
    let failed = StartChildError::InitFailed(ExitReason::Kill);
    let step = supervisor.child_started(Err(failed), None);
    assert!(matches!(
        step.request,
        SupervisorRequest::Started(Err(ExitReason::Kill))
    ));
}

#[test]
fn same_child_id_twice_fails_the_startup() {
    let mut supervisor = SupervisorActor::new((), flags(), specs(&["a", "a"]));
    supervisor.init();
    let step = supervisor.child_started(Ok(actor(1)), Some(actor(1)));
    assert_eq!(shutdown_of(&step.request), actor(1));
    let step = supervisor.shutdown_answered(true);
    assert_eq!(shutdown_of(&step.request), actor(1));
    let step = supervisor.shutdown_answered(false);
    match step.request {
        SupervisorRequest::Started(Err(reason)) => assert_eq!(
            reason,
            ExitReason::Error("supervisor child `a` is already running".into())
        ),
        other => panic!("unexpected request: {other:?}"),
    }
}

#[test]
fn shutdown_stops_children_last_started_first() {
    let mut supervisor = started(&["a", "b", "c"]);
    let step = supervisor.handle(Envelope::System(SystemMessage::Shutdown));
    assert_eq!(shutdown_of(&step.request), actor(3));
    let step = supervisor.shutdown_answered(true);
    assert!(matches!(
        step.request,
        SupervisorRequest::Finish(ActorTurn::Continue)
    ));
    let step = supervisor.handle(exit(actor(3), ExitReason::Shutdown));
    assert!(matches!(
        step.notices.as_slice(),
        [SupervisorNotice::ChildExited { child_id: "c", .. }]
    ));
    assert_eq!(shutdown_of(&step.request), actor(2));
    supervisor.shutdown_answered(true);
    let step = supervisor.handle(exit(actor(2), ExitReason::Kill));
    assert_eq!(shutdown_of(&step.request), actor(1));
    supervisor.shutdown_answered(true);
    let step = supervisor.handle(exit(actor(1), ExitReason::Shutdown));
    assert!(matches!(
        step.request,
        SupervisorRequest::Finish(ActorTurn::Stop(ExitReason::Shutdown))
    ));
}

#[test]
fn restart_starts_the_failed_child_again() {
    let mut supervisor = started(&["a", "b"]);
    let step = supervisor.handle(exit(actor(1), ExitReason::Error("boom".into())));
    assert!(matches!(
        &step.request,
        SupervisorRequest::Decide { spec, actor: gone, .. }
            if spec.id == "a" && *gone == actor(1)
    ));
    let step = supervisor.decided(SupervisorDirective::Restart(vec!["a"]));
    assert!(matches!(step.request, SupervisorRequest::CountRestart));
    let step = supervisor.restart_counted(true);
    assert!(matches!(&step.request, SupervisorRequest::StartChild(spec) if spec.id == "a"));
    let step = supervisor.child_started(Ok(actor(9)), Some(actor(9)));
    assert!(matches!(
        step.notices.as_slice(),
        [
            SupervisorNotice::ChildStarted { child_id: "a", .. },
            SupervisorNotice::Restarted { child_id: "a", old_actor: Some(old), new_actor },
        ] if *old == actor(1) && *new_actor == actor(9)
    ));
    assert!(matches!(
        step.request,
        SupervisorRequest::Finish(ActorTurn::Continue)
    ));
}

#[test]
fn shutdown_without_children_stops_at_once() {
    let mut supervisor = started(&["a"]);
    supervisor.handle(exit(actor(1), ExitReason::Kill));
    supervisor.decided(SupervisorDirective::Ignore);
    let step = supervisor.handle(Envelope::System(SystemMessage::Shutdown));
    assert!(matches!(
        step.request,
        SupervisorRequest::Finish(ActorTurn::Stop(ExitReason::Shutdown))
    ));
}

#[test]
fn restart_stops_running_children_backwards_and_starts_all_forwards() {
    let mut supervisor = started(&["a", "b", "c"]);
    supervisor.handle(exit(actor(2), ExitReason::Kill));
    supervisor.decided(SupervisorDirective::Restart(vec!["c", "b", "a"]));
    let step = supervisor.restart_counted(true);
    assert_eq!(shutdown_of(&step.request), actor(3));
    supervisor.shutdown_answered(true);
    let step = supervisor.handle(exit(actor(3), ExitReason::Shutdown));
    assert_eq!(shutdown_of(&step.request), actor(1));
    supervisor.shutdown_answered(true);
    let mut step = supervisor.handle(exit(actor(1), ExitReason::Shutdown));
    for (id, new) in [("a", 11), ("b", 12), ("c", 13)] {
        assert!(matches!(&step.request, SupervisorRequest::StartChild(spec) if spec.id == id));
        step = supervisor.child_started(Ok(actor(new)), Some(actor(new)));
    }
    assert!(matches!(
        step.request,
        SupervisorRequest::Finish(ActorTurn::Continue)
    ));
}

#[test]
fn failed_restart_ends_the_supervisor() {
    let mut supervisor = started(&["a"]);
    supervisor.handle(exit(actor(1), ExitReason::Kill));
    supervisor.decided(SupervisorDirective::Restart(vec!["a"]));
    supervisor.restart_counted(true);
    let error = StartChildError::InitFailed(ExitReason::Error("no \"luck\"".into()));
    let step = supervisor.child_started(Err(error), None);
    match step.request {
        SupervisorRequest::Finish(ActorTurn::Stop(reason)) => assert_eq!(
            reason,
            ExitReason::Error(
                "failed to restart child `a`: init failed: Error(\"no \\\"luck\\\"\")".into()
            )
        ),
        other => panic!("unexpected request: {other:?}"),
    }
}

#[test]
fn directives_ignore_unknown_children_or_stop_everything() {
    let mut supervisor = started(&["a", "b"]);
    supervisor.handle(exit(actor(1), ExitReason::Kill));
    let step = supervisor.decided(SupervisorDirective::Restart(vec!["z"]));
    assert!(matches!(
        step.request,
        SupervisorRequest::Finish(ActorTurn::Continue)
    ));
    supervisor.handle(exit(actor(2), ExitReason::Kill));
    let step = supervisor.decided(SupervisorDirective::Shutdown(ExitReason::NoConnection));
    assert!(matches!(
        step.request,
        SupervisorRequest::Finish(ActorTurn::Stop(ExitReason::NoConnection))
    ));
}

#[test]
fn exit_of_a_stranger_ends_the_supervisor() {
    let mut supervisor = started(&["a"]);
    let step = supervisor.handle(exit(actor(77), ExitReason::Kill));
    assert_eq!(shutdown_of(&step.request), actor(1));
    let mut supervisor = started(&["a"]);
    let step = supervisor.handle(Envelope::user((), "()"));
    assert!(matches!(
        step.request,
        SupervisorRequest::Finish(ActorTurn::Continue)
    ));
}

#[test]
fn runtime_state_of_a_supervisor_tracks_children_and_restarts() {
    let mut state = SupervisorRuntimeState::new(flags(), specs(&["a", "b"]));
    state.set_running("a", actor(1));
    state.set_running("b", actor(2));
    state.clear_running("b", actor(1));
    let now = Timestamp::from_nanos(10);
    let snapshot = state.snapshot(actor(5), now);
    assert_eq!(snapshot.actor, actor(5));
    assert_eq!(
        snapshot
            .children
            .iter()
            .map(|child| child.actor)
            .collect::<Vec<_>>(),
        vec![Some(actor(1)), Some(actor(2))]
    );
    state.clear_running("b", actor(2));
    assert_eq!(state.snapshot(actor(5), now).children[1].actor, None);
    assert_eq!(snapshot.active_restarts, 0);
}

fn snapshot(id: ActorId, parent: Option<ActorId>) -> ActorSnapshot {
    ActorSnapshot {
        id,
        name: "actor",
        registered_name: None,
        parent,
        ancestors: Vec::new(),
        links: Vec::new(),
        monitors_in: Vec::new(),
        monitors_out: Vec::new(),
        trap_exit: false,
        status: ActorStatus::Waiting,
        metrics: ActorMetrics::default(),
    }
}

#[test]
fn every_actor_is_a_root_or_a_child_of_one_other() {
    let actors = vec![
        snapshot(actor(3), Some(actor(1))),
        snapshot(actor(1), None),
        snapshot(actor(4), Some(actor(99))),
        snapshot(actor(2), Some(actor(1))),
    ];
    let tree = build_actor_tree(&actors);
    assert_eq!(tree.roots, vec![actor(1), actor(4)]);
    assert_eq!(
        tree.nodes.iter().map(|node| node.actor.id).collect::<Vec<_>>(),
        vec![actor(1), actor(2), actor(3), actor(4)]
    );
    assert_eq!(tree.nodes[0].children, vec![actor(2), actor(3)]);
    assert!(tree.nodes[1].children.is_empty());
}

#[test]
fn events_are_handed_out_once_in_order() {
    let mut log = EventLog::new();
    let mut cursor = EventCursor::from_start();
    let down = |count: u64| LifecycleEvent::Down {
        watcher: actor(1),
        actor: actor(2),
        reference: Ref::new(count),
        reason: ExitReason::Normal,
    };
    log.set_time(Timestamp::from_nanos(5));
    log.record_lifecycle(down(1));
    log.record_lifecycle(down(2));
    let first = log.events_since(&mut cursor);
    assert_eq!(
        first.iter().map(|event| event.sequence).collect::<Vec<_>>(),
        vec![1, 2]
    );
    assert_eq!(first[0].emitted_at, Timestamp::from_nanos(5));
    log.record_lifecycle(down(3));
    let all = log.event_log();
    let second = events_since(&all, &mut cursor);
    assert_eq!(
        second.iter().map(|event| event.sequence).collect::<Vec<_>>(),
        vec![3]
    );
    assert!(log.events_since(&mut cursor).is_empty());
    assert_eq!(log.event_cursor().next_sequence(), 4);
}

#[test]
fn events_with_gaps_are_handed_out_once() {
    let mut log = EventLog::new();
    for count in 1..=3 {
        log.record_lifecycle(LifecycleEvent::Down {
            watcher: actor(1),
            actor: actor(2),
            reference: Ref::new(count),
            reason: ExitReason::Normal,
        });
    }
    let mut events = log.event_log();
    for (event, sequence) in events.iter_mut().zip([10, 20, 30]) {
        event.sequence = sequence;
    }
    let mut cursor = EventCursor::new(15);
    let first = events_since(&events[..2], &mut cursor);
    let second = events_since(&events, &mut cursor);
    assert_eq!(first.iter().map(|event| event.sequence).collect::<Vec<_>>(), vec![20]);
    assert_eq!(second.iter().map(|event| event.sequence).collect::<Vec<_>>(), vec![30]);
    assert_eq!(cursor.next_sequence(), 31);
}
