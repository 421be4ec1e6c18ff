use std::cell::RefCell;
use std::collections::BTreeMap;
use std::rc::Rc;
use std::time::Duration;

use lamport::concurrent::{HookEnd, Worker, WorkerAction};
use lamport::context::ReceiveTimeout;
use lamport::internal::turn::TurnEffects;
use lamport::time::Timestamp;
use lamport::types::RefSource;
use lamport::{
    ActorId, ActorStatus, ActorTurn, ConcurrentRuntime, DownMessage, Envelope, ExitReason,
    LifecycleEvent, LinkError, Message, MonitorError, Payload, PendingCall, PoolKind, Ref,
    RuntimeEventKind, SchedulerConfig, SendError, Shutdown, ShutdownPhase, SpawnError,
    SpawnOptions, TaskCompleted, TimerToken,
};

/// What an actor asks for while a hook of it runs, with the runtime at hand.
struct Turn<'a> {
    runtime: &'a mut ConcurrentRuntime,
    refs: &'a mut RefSource,
    actor: ActorId,
    effects: TurnEffects,
}

trait Hooks {
    fn init(&mut self, _turn: &mut Turn) -> Result<(), ExitReason> {
        Ok(())
    }

    fn handle(&mut self, envelope: Envelope, turn: &mut Turn) -> ActorTurn;

    fn terminate(&mut self, _reason: ExitReason) -> HookEnd<()> {
        HookEnd::Returned(())
    }
}

struct Member {
    worker: Worker,
    hooks: Box<dyn Hooks>,
    next: Option<WorkerAction>,
    selected: Option<Envelope>,
}

/// Runs the workers of all actors one after the other.
struct Crew {
    runtime: ConcurrentRuntime,
    refs: RefSource,
    members: BTreeMap<ActorId, Member>,
}

impl Crew {
    fn new(config: SchedulerConfig) -> Self {
        Crew {
            runtime: ConcurrentRuntime::new(config),
            refs: RefSource::new(),
            members: BTreeMap::new(),
        }
    }

    fn of(scheduler_count: usize) -> Self {
        Crew::new(SchedulerConfig::for_parallelism(scheduler_count))
    }

    fn spawn(&mut self, hooks: impl Hooks + 'static) -> Result<ActorId, SpawnError> {
        self.spawn_with_options(hooks, SpawnOptions::default())
    }

    fn spawn_with_options(
        &mut self,
        hooks: impl Hooks + 'static,
        options: SpawnOptions,
    ) -> Result<ActorId, SpawnError> {
        let id = self.runtime.spawn_with_options("actor", options)?;
        self.members.insert(
            id,
            Member {
                worker: Worker::new(id),
                hooks: Box::new(hooks),
                next: None,
                selected: None,
            },
        );
        Ok(id)
    }

    fn send<M: Message>(&mut self, to: ActorId, message: M) -> Result<(), SendError> {
        self.runtime.send_envelope(to, Envelope::user(message, "message"))
    }

    /// Takes one step of one actor and tells whether there was anything to do.
    fn step(&mut self, id: ActorId) -> bool {
        let mut member = self.members.remove(&id).unwrap();
        let runtime = &mut self.runtime;
        let action = match member.next.take() {
            Some(action) => action,
            None => member.worker.start(runtime),
        };
        let effects = TurnEffects::new();
        let mut turn = Turn { runtime, refs: &mut self.refs, actor: id, effects };
        let next = match action {
            WorkerAction::Init(_) => {
                let outcome = member.hooks.init(&mut turn);
                let requested = turn.effects.exit_reason.take();
                member
                    .worker
                    .init_done(turn.runtime, HookEnd::Returned(outcome), requested)
            }
            WorkerAction::Select => {
                member.selected = turn.runtime.receive_next(id);
                let found = member.selected.is_some();
                member
                    .worker
                    .select_done(turn.runtime, HookEnd::Returned(found), turn.effects)
            }
            WorkerAction::Turn(_) => {
                let envelope = member.selected.take().unwrap();
                let outcome = member.hooks.handle(envelope, &mut turn);
                let Turn { runtime, effects, .. } = turn;
                member
                    .worker
                    .turn_done(runtime, HookEnd::Returned(outcome), effects)
            }
            WorkerAction::GiveWay => member.worker.resume(turn.runtime),
            WorkerAction::Wait => {
                let status = turn.runtime.actor_snapshot(id).unwrap().status;
                if status == ActorStatus::Waiting {
                    member.next = Some(WorkerAction::Wait);
                    self.members.insert(id, member);
                    return false;
                }
                member.worker.resume(turn.runtime)
            }
            WorkerAction::Terminate { reason, .. } => {
                let ended = member.hooks.terminate(reason.clone());
                member.worker.terminate_done(turn.runtime, reason, ended);
                return true;
            }
            WorkerAction::Done => return true,
        };
        member.next = Some(next);
        self.members.insert(id, member);
        true
    }

    fn run_until_idle(&mut self) {
        loop {
            let mut progress = false;
            let ids: Vec<ActorId> = self.members.keys().copied().collect();
            for id in ids {
                progress |= self.step(id);
            }
            if !progress {
                return;
            }
        }
    }

    fn status(&self, actor: ActorId) -> ActorStatus {
        self.runtime.actor_snapshot(actor).unwrap().status
    }

    fn last_exit(&self, actor: ActorId) -> Option<ExitReason> {
        self.runtime.actor_snapshot(actor).unwrap().metrics.last_exit
    }
}

struct SinkActor;

impl Hooks for SinkActor {
    fn handle(&mut self, _envelope: Envelope, _turn: &mut Turn) -> ActorTurn {
        ActorTurn::Continue
    }
}

/// Keeps every envelope that it gets.
struct Recorder {
    seen: Rc<RefCell<Vec<Envelope>>>,
}

impl Hooks for Recorder {
    fn handle(&mut self, envelope: Envelope, _turn: &mut Turn) -> ActorTurn {
        self.seen.borrow_mut().push(envelope);
        ActorTurn::Continue
    }
}

struct TimerActor {
    token: TimerToken,
    seen: Rc<RefCell<Vec<TimerToken>>>,
}

impl Hooks for TimerActor {
    fn init(&mut self, turn: &mut Turn) -> Result<(), ExitReason> {
        assert!(turn.runtime.set_timer(turn.actor, self.token));
        Ok(())
    }

    fn handle(&mut self, envelope: Envelope, _turn: &mut Turn) -> ActorTurn {
        if let Envelope::Timer(timer) = envelope {
            self.seen.borrow_mut().push(timer.token);
        }
        ActorTurn::Continue
    }
}

struct BlockingActor {
    seen: Rc<RefCell<Vec<(Ref, PoolKind, i32)>>>,
    expected: Rc<RefCell<Option<Ref>>>,
}

impl Hooks for BlockingActor {
    fn init(&mut self, turn: &mut Turn) -> Result<(), ExitReason> {
        turn.runtime.count_job(PoolKind::BlockingCpu);
        *self.expected.borrow_mut() = Some(Ref::next(turn.refs));
        Ok(())
    }

    fn handle(&mut self, envelope: Envelope, _turn: &mut Turn) -> ActorTurn {
        if let Envelope::Task(task) = envelope {
            let value = task.result.downcast::<i32>().ok().unwrap();
            self.seen.borrow_mut().push((task.reference, task.pool, value));
            assert_eq!(Some(task.reference), *self.expected.borrow());
        }
        ActorTurn::Continue
    }
}

struct TimeoutClient {
    server: ActorId,
    asked: Rc<RefCell<Option<PendingCall>>>,
    seen: Rc<RefCell<Vec<Ref>>>,
}

impl Hooks for TimeoutClient {
    fn init(&mut self, turn: &mut Turn) -> Result<(), ExitReason> {
        let reference = Ref::next(turn.refs);
        let call = turn
            .runtime
            .ask(
                turn.actor,
                self.server,
                reference,
                Payload::new("ping", "&str"),
                Some(Duration::from_millis(10)),
            )
            .unwrap()
            .map_err(|error| ExitReason::Error(format!("ask failed: {error:?}")))?;
        *self.asked.borrow_mut() = Some(call);
        Ok(())
    }

    fn handle(&mut self, envelope: Envelope, _turn: &mut Turn) -> ActorTurn {
        if let Envelope::CallTimeout(timeout) = envelope {
            if self.asked.borrow().is_some_and(|call| call.matches(timeout.reference)) {
                self.seen.borrow_mut().push(timeout.reference);
            }
        }
        ActorTurn::Continue
    }
}

#[test]
fn bounded_mailbox_returns_backpressure() {
    let mut crew = Crew::of(1);
    let actor = crew
        .spawn_with_options(
            SinkActor,
            SpawnOptions { mailbox_capacity: Some(1), ..SpawnOptions::default() },
        )
        .unwrap();

    crew.send(actor, 1_u32).unwrap();
    assert_eq!(
        crew.send(actor, 2_u32),
        Err(SendError::MailboxFull { actor, capacity: 1 })
    );
}

#[test]
fn concurrent_actor_capacity_limit_rejects_new_spawns() {
    let mut crew = Crew::new(SchedulerConfig {
        max_actors: 1,
        ..SchedulerConfig::for_parallelism(1)
    });

    crew.spawn(SinkActor).unwrap();
    assert_eq!(crew.spawn(SinkActor), Err(SpawnError::CapacityExceeded));
}

#[test]
fn timers_fire_on_concurrent_runtime() {
    let mut crew = Crew::of(1);
    let seen = Rc::new(RefCell::new(Vec::new()));
    let token = TimerToken::next(&mut crew.refs);
    let actor = crew.spawn(TimerActor { token, seen: Rc::clone(&seen) }).unwrap();

    crew.run_until_idle();
    crew.runtime.fire_timer(actor, token);
    crew.runtime.fire_timer(actor, token);
    crew.run_until_idle();

    assert_eq!(seen.borrow().as_slice(), &[token]);
}

#[test]
fn blocking_cpu_completion_returns_to_mailbox() {
    let mut crew = Crew::of(1);
    let seen = Rc::new(RefCell::new(Vec::new()));
    let expected = Rc::new(RefCell::new(None));

    let actor = crew
        .spawn(BlockingActor { seen: Rc::clone(&seen), expected: Rc::clone(&expected) })
        .unwrap();
    crew.run_until_idle();
    let reference = expected.borrow().unwrap();
    assert!(crew.runtime.complete_task(
        actor,
        TaskCompleted {
            reference,
            pool: PoolKind::BlockingCpu,
            result: Payload::new(42_i32, "i32"),
        },
    ));
    crew.run_until_idle();

    let seen = seen.borrow();
    assert_eq!(seen.len(), 1);
    assert_eq!(seen[0].1, PoolKind::BlockingCpu);
    assert_eq!(seen[0].2, 42);
}

#[test]
fn ask_timeout_is_delivered_to_caller() {
    let mut crew = Crew::of(1);
    let seen = Rc::new(RefCell::new(Vec::new()));
    let asked = Rc::new(RefCell::new(None));
    let server = crew.spawn(SinkActor).unwrap();
    let client = crew
        .spawn(TimeoutClient { server, asked: Rc::clone(&asked), seen: Rc::clone(&seen) })
        .unwrap();

    crew.run_until_idle();
    let call = asked.borrow().unwrap();
    crew.runtime.fire_call_timeout(client, call.reference);
    crew.run_until_idle();

    assert_eq!(seen.borrow().len(), 1);
}

#[test]
fn observability_apis_work_on_concurrent_runtime() {
    let mut crew = Crew::of(2);
    let root = crew
        .spawn_with_options(
            SinkActor,
            SpawnOptions { registered_name: Some("root".into()), ..SpawnOptions::default() },
        )
        .unwrap();
    let parent = crew
        .spawn_with_options(
            SinkActor,
            SpawnOptions {
                registered_name: Some("parent".into()),
                parent: Some(root),
                ancestors: vec![root],
                ..SpawnOptions::default()
            },
        )
        .unwrap();
    let child = crew
        .spawn_with_options(
            SinkActor,
            SpawnOptions {
                registered_name: Some("child".into()),
                parent: Some(parent),
                ancestors: vec![root, parent],
                ..SpawnOptions::default()
            },
        )
        .unwrap();

    crew.run_until_idle();
    assert!(crew.runtime.is_idle());

    let now = Timestamp::from_nanos(0);
    let queues = crew.runtime.run_queue_snapshots(2, 0);
    let introspection = crew.runtime.introspection(0, queues, now);
    assert_eq!(introspection.actors.len(), 3);
    assert_eq!(introspection.actor_tree.roots, vec![root]);
    let children_of = |id: ActorId| {
        introspection
            .actor_tree
            .nodes
            .iter()
            .find(|node| node.actor.id == id)
            .unwrap()
            .children
            .clone()
    };
    assert_eq!(children_of(root), vec![parent]);
    assert_eq!(children_of(parent), vec![child]);

    let queues = crew.runtime.run_queue_snapshots(2, 0);
    let metrics = crew.runtime.metrics_snapshot(0, queues, now);
    assert_eq!(metrics.live_actors, 3);
    assert_eq!(metrics.waiting_actors, 3);
    assert!(metrics
        .to_prometheus("0", "0")
        .contains("lamport_runtime_live_actors 3"));

    let mut cursor = crew.runtime.event_cursor();
    assert!(crew.runtime.exit_actor(child, ExitReason::Error("boom".into())));
    crew.run_until_idle();

    let delta = crew.runtime.events_since(&mut cursor);
    assert!(delta.iter().any(|event| matches!(
        &event.kind,
        RuntimeEventKind::Lifecycle(LifecycleEvent::Exit { actor, .. }) if *actor == child
    )));
    assert!(delta.iter().any(
        |event| matches!(&event.kind, RuntimeEventKind::Crash(report) if report.actor == child)
    ));

    let crash = crew
        .runtime
        .crash_reports()
        .iter()
        .find(|report| report.actor == child)
        .unwrap();
    assert_eq!(crash.parent_identity().unwrap().actor, parent);
    assert_eq!(
        crash
            .ancestor_identities()
            .iter()
            .map(|identity| identity.actor)
            .collect::<Vec<_>>(),
        vec![root, parent]
    );
    let rendered = crash.to_string();
    assert!(rendered.contains("parent:"));
    assert!(rendered.contains("ancestors:"));
}

#[test]
fn abnormal_exit_spreads_along_links_and_spares_trappers() {
    let mut crew = Crew::of(1);
    let seen = Rc::new(RefCell::new(Vec::new()));
    let failing = crew.spawn(SinkActor).unwrap();
    let linked = crew.spawn(SinkActor).unwrap();
    let trapping = crew
        .spawn_with_options(
            Recorder { seen: Rc::clone(&seen) },
            SpawnOptions { trap_exit: true, ..SpawnOptions::default() },
        )
        .unwrap();
    let stranger = crew.spawn(SinkActor).unwrap();
    crew.run_until_idle();
    crew.runtime.link(failing, linked).unwrap();
    crew.runtime.link(failing, trapping).unwrap();

    crew.runtime.exit_actor(failing, ExitReason::Error("boom".into()));
    crew.run_until_idle();

    assert_eq!(crew.last_exit(linked), Some(ExitReason::Error("boom".into())));
    assert_eq!(crew.status(trapping), ActorStatus::Waiting);
    assert_eq!(crew.status(stranger), ActorStatus::Waiting);
    assert!(matches!(
        seen.borrow().as_slice(),
        [Envelope::Exit(signal)]
            if signal.from == failing
                && signal.linked
                && signal.reason == ExitReason::Error("boom".into())
    ));
    assert!(crew.runtime.actor_snapshot(trapping).unwrap().links.is_empty());
}

#[test]
fn normal_exit_spares_links_and_a_kill_cannot_be_trapped() {
    let mut crew = Crew::of(1);
    let first = crew.spawn(SinkActor).unwrap();
    let second = crew.spawn(SinkActor).unwrap();
    let trapping = crew
        .spawn_with_options(
            SinkActor,
            SpawnOptions { trap_exit: true, ..SpawnOptions::default() },
        )
        .unwrap();
    crew.run_until_idle();
    crew.runtime.link(first, second).unwrap();
    crew.runtime.link(second, trapping).unwrap();

    crew.runtime.exit_actor(first, ExitReason::Normal);
    crew.run_until_idle();
    assert_eq!(crew.status(second), ActorStatus::Waiting);

    crew.runtime.exit_actor(second, ExitReason::Kill);
    crew.run_until_idle();
    assert_eq!(crew.last_exit(trapping), Some(ExitReason::Kill));
}

#[test]
fn each_monitor_brings_one_notification() {
    let mut crew = Crew::of(1);
    let seen = Rc::new(RefCell::new(Vec::new()));
    let target = crew.spawn(SinkActor).unwrap();
    let watcher = crew.spawn(Recorder { seen: Rc::clone(&seen) }).unwrap();
    crew.run_until_idle();
    let first = Ref::next(&mut crew.refs);
    let second = Ref::next(&mut crew.refs);
    let third = Ref::next(&mut crew.refs);
    assert_eq!(crew.runtime.monitor(watcher, target, first), None);
    assert_eq!(crew.runtime.monitor(watcher, target, second), None);
    assert_eq!(crew.runtime.monitor(watcher, target, third), None);
    assert_eq!(crew.runtime.demonitor(watcher, second), Ok(()));
    assert_eq!(
        crew.runtime.demonitor(watcher, second),
        Err(MonitorError::UnknownRef(second))
    );

    crew.runtime.exit_actor(target, ExitReason::Shutdown);
    crew.run_until_idle();

    let downs: Vec<DownMessage> = seen
        .borrow_mut()
        .drain(..)
        .map(|envelope| match envelope {
            Envelope::Down(message) => message,
            other => panic!("unexpected envelope: {other:?}"),
        })
        .collect();
    assert_eq!(
        downs.iter().map(|down| down.reference).collect::<Vec<_>>(),
        vec![first, third]
    );
    assert!(downs
        .iter()
        .all(|down| down.actor == target && down.reason == ExitReason::Shutdown));
    let snapshot = crew.runtime.actor_snapshot(watcher).unwrap();
    assert!(snapshot.monitors_out.is_empty());
}

#[test]
fn links_and_monitors_report_what_is_missing() {
    let mut crew = Crew::of(1);
    let seen = Rc::new(RefCell::new(Vec::new()));
    let actor = crew.spawn(Recorder { seen: Rc::clone(&seen) }).unwrap();
    let other = crew.spawn(SinkActor).unwrap();
    let missing = ActorId::new(999, 0);
    crew.run_until_idle();

    assert_eq!(crew.runtime.link(actor, actor), Ok(()));
    assert_eq!(crew.runtime.link(actor, missing), Err(LinkError::NoProc(missing)));
    assert_eq!(crew.runtime.link(actor, other), Ok(()));
    assert_eq!(crew.runtime.link(other, actor), Err(LinkError::AlreadyLinked(actor)));
    assert_eq!(crew.runtime.unlink(other, actor), Ok(()));
    assert_eq!(crew.runtime.unlink(actor, other), Err(LinkError::NotLinked(other)));
    assert_eq!(
        crew.runtime.demonitor(missing, Ref::new(1)),
        Err(MonitorError::NoProc(missing))
    );

    assert_eq!(crew.runtime.monitor(actor, missing, Ref::new(7)), None);
    crew.run_until_idle();
    assert!(matches!(
        seen.borrow().as_slice(),
        [Envelope::Down(message)]
            if message.actor == missing
                && message.reference == Ref::new(7)
                && message.reason == ExitReason::NoProc
    ));
}

#[test]
fn shutdown_kills_after_its_timeout() {
    let mut crew = Crew::of(1);
    let requester = crew
        .spawn_with_options(
            SinkActor,
            SpawnOptions { trap_exit: true, ..SpawnOptions::default() },
        )
        .unwrap();
    let stubborn = crew
        .spawn_with_options(
            SinkActor,
            SpawnOptions { trap_exit: true, ..SpawnOptions::default() },
        )
        .unwrap();
    crew.run_until_idle();
    crew.runtime.link(requester, stubborn).unwrap();
    let delay = Duration::from_millis(10);

    assert_eq!(
        crew.runtime
            .shutdown_actor(requester, stubborn, Shutdown::Timeout(delay)),
        Ok(Some(delay))
    );
    crew.run_until_idle();
    assert_eq!(crew.status(stubborn), ActorStatus::Waiting);

    crew.runtime.fire_shutdown_timeout(stubborn);
    crew.run_until_idle();
    assert_eq!(crew.last_exit(stubborn), Some(ExitReason::Kill));
    let phases: Vec<ShutdownPhase> = crew
        .runtime
        .lifecycle_events()
        .iter()
        .filter_map(|event| match event {
            LifecycleEvent::Shutdown { phase, .. } => Some(*phase),
            _ => None,
        })
        .collect();
    assert_eq!(
        phases,
        vec![ShutdownPhase::Requested, ShutdownPhase::TimedOut, ShutdownPhase::Completed]
    );
    assert_eq!(crew.status(requester), ActorStatus::Waiting);
    let missing = ActorId::new(999, 0);
    assert_eq!(
        crew.runtime.shutdown_actor(requester, missing, Shutdown::BrutalKill),
        Err(SendError::NoProc(missing))
    );
}

#[test]
fn cancelled_timer_never_arrives() {
    let mut crew = Crew::of(1);
    let seen = Rc::new(RefCell::new(Vec::new()));
    let actor = crew.spawn(Recorder { seen: Rc::clone(&seen) }).unwrap();
    crew.run_until_idle();
    let waiting = TimerToken::next(&mut crew.refs);
    let queued = TimerToken::next(&mut crew.refs);
    let kept = TimerToken::next(&mut crew.refs);
    crew.runtime.set_timer(actor, waiting);
    crew.runtime.set_timer(actor, queued);
    crew.runtime.set_timer(actor, kept);
    crew.runtime.fire_timer(actor, queued);

    assert!(crew.runtime.cancel_timer(actor, waiting));
    assert!(crew.runtime.cancel_timer(actor, queued));
    assert!(!crew.runtime.cancel_timer(actor, queued));
    crew.runtime.fire_timer(actor, waiting);
    crew.runtime.fire_timer(actor, kept);
    crew.run_until_idle();

    assert!(matches!(
        seen.borrow().as_slice(),
        [Envelope::Timer(timer)] if timer.token == kept
    ));
}

#[test]
fn reply_cancels_the_timeout_of_its_call() {
    let mut crew = Crew::of(1);
    let seen = Rc::new(RefCell::new(Vec::new()));
    let asked = Rc::new(RefCell::new(None));
    let server = crew.spawn(SinkActor).unwrap();
    let client = crew
        .spawn(TimeoutClient { server, asked: Rc::clone(&asked), seen: Rc::clone(&seen) })
        .unwrap();
    crew.run_until_idle();
    let call = asked.borrow().unwrap();

    crew.runtime
        .send_envelope(client, Envelope::reply(call.reference, "pong", "&str"))
        .unwrap();
    crew.runtime.fire_call_timeout(client, call.reference);
    crew.run_until_idle();

    assert!(seen.borrow().is_empty());
    assert_eq!(
        crew.runtime.ask(
            ActorId::new(999, 0),
            server,
            Ref::new(90),
            Payload::new((), "()"),
            None,
        ),
        None
    );
}

#[test]
fn overflow_of_runtime_traffic_ends_the_actor() {
    let mut crew = Crew::of(1);
    let actor = crew
        .spawn_with_options(
            SinkActor,
            SpawnOptions { mailbox_capacity: Some(1), ..SpawnOptions::default() },
        )
        .unwrap();
    crew.send(actor, ()).unwrap();
    let token = TimerToken::next(&mut crew.refs);
    crew.runtime.set_timer(actor, token);
    crew.runtime.fire_timer(actor, token);
    crew.run_until_idle();

    assert_eq!(
        crew.last_exit(actor),
        Some(ExitReason::Error(
            "actor `0.0` mailbox overflow while delivering timer".into()
        ))
    );
}

struct Failing;

impl Hooks for Failing {
    fn init(&mut self, _turn: &mut Turn) -> Result<(), ExitReason> {
        Err(ExitReason::Error("no luck".into()))
    }

    fn handle(&mut self, _envelope: Envelope, _turn: &mut Turn) -> ActorTurn {
        ActorTurn::Continue
    }
}

struct Panicking;

impl Hooks for Panicking {
    fn handle(&mut self, _envelope: Envelope, _turn: &mut Turn) -> ActorTurn {
        ActorTurn::Stop(ExitReason::Normal)
    }

    fn terminate(&mut self, _reason: ExitReason) -> HookEnd<()> {
        HookEnd::Panicked(Some("oops".into()))
    }
}

struct Yielding {
    turns: Rc<RefCell<u32>>,
}

impl Hooks for Yielding {
    fn handle(&mut self, _envelope: Envelope, turn: &mut Turn) -> ActorTurn {
        *self.turns.borrow_mut() += 1;
        turn.effects.yielded = true;
        turn.effects.exit_reason = if *self.turns.borrow() == 3 {
            Some(ExitReason::Shutdown)
        } else {
            None
        };
        ActorTurn::Stop(ExitReason::Normal)
    }
}

#[test]
fn failed_init_and_panics_decide_the_exit_reason() {
    let mut crew = Crew::of(1);
    let failing = crew.spawn(Failing).unwrap();
    let panicking = crew.spawn(Panicking).unwrap();
    crew.run_until_idle();
    crew.send(panicking, ()).unwrap();
    crew.run_until_idle();

    assert_eq!(crew.last_exit(failing), Some(ExitReason::Error("no luck".into())));
    assert_eq!(
        crew.last_exit(panicking),
        Some(ExitReason::Error("actor `actor` (1.0) panicked: oops".into()))
    );
}

#[test]
fn what_an_actor_asks_for_comes_before_the_outcome_of_its_turn() {
    let mut crew = Crew::of(1);
    let turns = Rc::new(RefCell::new(2));
    let actor = crew.spawn(Yielding { turns: Rc::clone(&turns) }).unwrap();
    crew.run_until_idle();
    crew.send(actor, ()).unwrap();
    crew.run_until_idle();

    assert_eq!(crew.last_exit(actor), Some(ExitReason::Shutdown));
}

#[test]
fn turn_budget_makes_an_actor_give_way() {
    let mut config = SchedulerConfig::for_parallelism(1);
    config.actor_turn_budget = 2;
    let mut runtime = ConcurrentRuntime::new(config);
    let actor = runtime
        .spawn_with_options("actor", SpawnOptions::default())
        .unwrap();
    let mut worker = Worker::new(actor);
    assert!(matches!(worker.start(&mut runtime), WorkerAction::Init(_)));
    assert_eq!(
        worker.init_done(&mut runtime, HookEnd::Returned(Ok(())), None),
        WorkerAction::Select
    );
    let mut given_way: Vec<bool> = Vec::new();
    for _ in 0..4 {
        let action = worker.turn_done(
            &mut runtime,
            HookEnd::Returned(ActorTurn::Continue),
            TurnEffects::new(),
        );
        given_way.push(action == WorkerAction::GiveWay);
    }
    assert_eq!(given_way, vec![false, true, false, true]);
    let action = worker.turn_done(
        &mut runtime,
        HookEnd::Returned(ActorTurn::Continue),
        TurnEffects { exit_reason: None, yielded: true },
    );
    assert_eq!(action, WorkerAction::GiveWay);
}

#[test]
fn actors_are_spread_over_schedulers() {
    let mut crew = Crew::of(2);
    let ids: Vec<ActorId> = (0..4).map(|_| crew.spawn(SinkActor).unwrap()).collect();
    assert_eq!(
        ids.iter()
            .map(|id| crew.runtime.actor_scheduler(*id))
            .collect::<Vec<_>>(),
        vec![0, 1, 0, 1]
    );
    assert!(crew.runtime.can_allocate());
}

#[test]
fn spawning_for_a_live_actor_makes_it_the_parent() {
    let mut crew = Crew::of(1);
    let parent = crew.spawn(SinkActor).unwrap();
    let child = crew
        .runtime
        .spawn_from(
            parent,
            "child",
            SpawnOptions { link_to_parent: true, ..SpawnOptions::default() },
        )
        .unwrap()
        .unwrap();
    let snapshot = crew.runtime.actor_snapshot(child).unwrap();
    assert_eq!(snapshot.parent, Some(parent));
    assert_eq!(snapshot.ancestors, vec![parent]);
    assert_eq!(snapshot.links, vec![parent]);
    assert_eq!(crew.runtime.actor_snapshot(parent).unwrap().links, vec![child]);
    assert!(crew
        .runtime
        .spawn_from(ActorId::new(999, 0), "orphan", SpawnOptions::default())
        .is_none());
}

#[test]
fn concurrent_runtime_processes_different_actors_in_parallel() {
    let mut runtime = ConcurrentRuntime::new(SchedulerConfig {
        scheduler_count: 2,
        ..SchedulerConfig::for_parallelism(1)
    });
    let first = runtime.spawn_with_options("slow", SpawnOptions::default()).unwrap();
    let second = runtime.spawn_with_options("slow", SpawnOptions::default()).unwrap();
    runtime.send_envelope(first, Envelope::user((), "()")).unwrap();
    runtime.send_envelope(second, Envelope::user((), "()")).unwrap();

    let mut workers = [Worker::new(first), Worker::new(second)];
    let mut schedulers = Vec::new();
    for (worker, actor) in workers.iter_mut().zip([first, second]) {
        assert!(matches!(worker.start(&mut runtime), WorkerAction::Init(_)));
        let next = worker.init_done(&mut runtime, HookEnd::Returned(Ok(())), None);
        assert_eq!(next, WorkerAction::Select);
        assert!(runtime.receive_next(actor).is_some());
        match worker.select_done(&mut runtime, HookEnd::Returned(true), TurnEffects::new()) {
            WorkerAction::Turn(start) => schedulers.push(start.scheduler_id),
            other => panic!("unexpected action: {other:?}"),
        }
    }

    assert_eq!(schedulers, vec![0, 1]);
    for actor in [first, second] {
        assert_eq!(runtime.actor_snapshot(actor).unwrap().status, ActorStatus::Running);
    }

    for worker in workers.iter_mut() {
        let ended = HookEnd::Returned(ActorTurn::Stop(ExitReason::Normal));
        match worker.turn_done(&mut runtime, ended, TurnEffects::new()) {
            WorkerAction::Terminate { name, reason } => {
                assert_eq!(name, "slow");
                worker.terminate_done(&mut runtime, reason, HookEnd::Returned(()));
            }
            other => panic!("unexpected action: {other:?}"),
        }
    }
    for actor in [first, second] {
        let snapshot = runtime.actor_snapshot(actor).unwrap();
        assert_eq!(snapshot.status, ActorStatus::Dead);
        assert_eq!(snapshot.metrics.last_exit, Some(ExitReason::Normal));
        assert_eq!(snapshot.metrics.turns_run, 1);
    }
}

struct SerialActor {
    active: Rc<RefCell<usize>>,
    max_seen: Rc<RefCell<usize>>,
    completed: Rc<RefCell<usize>>,
}

impl Hooks for SerialActor {
    fn handle(&mut self, _envelope: Envelope, _turn: &mut Turn) -> ActorTurn {
        *self.active.borrow_mut() += 1;
        let now = *self.active.borrow();
        let most = now.max(*self.max_seen.borrow());
        *self.max_seen.borrow_mut() = most;
        *self.active.borrow_mut() -= 1;
        *self.completed.borrow_mut() += 1;
        ActorTurn::Continue
    }
}

#[test]
fn one_actor_never_runs_more_than_one_turn_at_a_time() {
    let mut crew = Crew::of(4);
    let active = Rc::new(RefCell::new(0));
    let max_seen = Rc::new(RefCell::new(0));
    let completed = Rc::new(RefCell::new(0));
    let actor = crew
        .spawn(SerialActor {
            active: Rc::clone(&active),
            max_seen: Rc::clone(&max_seen),
            completed: Rc::clone(&completed),
        })
        .unwrap();

    for _ in 0..4 {
        crew.send(actor, ()).unwrap();
    }
    crew.run_until_idle();

    assert_eq!(*completed.borrow(), 4);
    assert_eq!(*max_seen.borrow(), 1);
    assert_eq!(crew.runtime.actor_snapshot(actor).unwrap().metrics.turns_run, 4);
}

/// An actor that is ready to select, with its worker.
fn ready_worker(runtime: &mut ConcurrentRuntime) -> (ActorId, Worker) {
    let actor = runtime
        .spawn_with_options("actor", SpawnOptions::default())
        .unwrap();
    let mut worker = Worker::new(actor);
    assert!(matches!(worker.start(runtime), WorkerAction::Init(_)));
    assert_eq!(
        worker.init_done(runtime, HookEnd::Returned(Ok(())), None),
        WorkerAction::Select
    );
    (actor, worker)
}

#[test]
fn yielding_turn_makes_an_actor_give_way() {
    let mut config = SchedulerConfig::for_parallelism(1);
    config.actor_turn_budget = 64;
    let mut runtime = ConcurrentRuntime::new(config);
    let (_, mut worker) = ready_worker(&mut runtime);
    assert_eq!(
        worker.turn_done(
            &mut runtime,
            HookEnd::Returned(ActorTurn::Yield),
            TurnEffects::new(),
        ),
        WorkerAction::GiveWay
    );
    assert_eq!(worker.resume(&mut runtime), WorkerAction::Select);
    assert_eq!(
        worker.turn_done(
            &mut runtime,
            HookEnd::Returned(ActorTurn::Continue),
            TurnEffects::new(),
        ),
        WorkerAction::Select
    );
}

#[test]
fn yield_asked_for_while_selecting_counts_after_the_turn() {
    let mut runtime = ConcurrentRuntime::new(SchedulerConfig::for_parallelism(1));
    let (actor, mut worker) = ready_worker(&mut runtime);
    runtime.send_envelope(actor, Envelope::user(1_u32, "u32")).unwrap();
    assert!(runtime.receive_next(actor).is_some());
    let asked = TurnEffects { exit_reason: None, yielded: true };
    assert!(matches!(
        worker.select_done(&mut runtime, HookEnd::Returned(true), asked),
        WorkerAction::Turn(_)
    ));
    for expected in [WorkerAction::GiveWay, WorkerAction::Select] {
        assert_eq!(
            worker.turn_done(
                &mut runtime,
                HookEnd::Returned(ActorTurn::Continue),
                TurnEffects::new(),
            ),
            expected
        );
    }
}

#[test]
fn exit_asked_for_while_selecting_counts_after_the_turn() {
    let mut runtime = ConcurrentRuntime::new(SchedulerConfig::for_parallelism(1));
    let (actor, mut worker) = ready_worker(&mut runtime);
    runtime.send_envelope(actor, Envelope::user(1_u32, "u32")).unwrap();
    assert!(runtime.receive_next(actor).is_some());
    let asked = TurnEffects { exit_reason: Some(ExitReason::Shutdown), yielded: false };
    assert!(matches!(
        worker.select_done(&mut runtime, HookEnd::Returned(true), asked),
        WorkerAction::Turn(_)
    ));
    let ended = HookEnd::Returned(ActorTurn::Continue);
    assert!(matches!(
        worker.turn_done(&mut runtime, ended, TurnEffects::new()),
        WorkerAction::Terminate { reason: ExitReason::Shutdown, .. }
    ));
}

#[test]
fn exit_asked_for_with_nothing_selected_counts_at_once() {
    let mut runtime = ConcurrentRuntime::new(SchedulerConfig::for_parallelism(1));
    let (_, mut worker) = ready_worker(&mut runtime);
    let asked = TurnEffects { exit_reason: Some(ExitReason::Normal), yielded: false };
    assert!(matches!(
        worker.select_done(&mut runtime, HookEnd::Returned(false), asked),
        WorkerAction::Terminate { reason: ExitReason::Normal, .. }
    ));
}

#[test]
fn one_envelope_is_claimed_per_turn() {
    let mut runtime = ConcurrentRuntime::new(SchedulerConfig::for_parallelism(1));
    let (actor, mut worker) = ready_worker(&mut runtime);
    runtime.send_envelope(actor, Envelope::user(1_u32, "u32")).unwrap();
    runtime.send_envelope(actor, Envelope::user(2_u32, "u32")).unwrap();
    assert!(runtime.receive_next(actor).is_some());
    assert!(runtime.receive_next(actor).is_none());
    assert!(matches!(
        worker.select_done(&mut runtime, HookEnd::Returned(true), TurnEffects::new()),
        WorkerAction::Turn(_)
    ));
    assert!(runtime.receive_selective(actor, |_| true).is_none());
    let watermark = runtime.mailbox_watermark(actor).unwrap();
    assert!(runtime.receive_selective_after(actor, watermark, |_| true).is_none());
    let ended = HookEnd::Returned(ActorTurn::Continue);
    assert_eq!(
        worker.turn_done(&mut runtime, ended, TurnEffects::new()),
        WorkerAction::Select
    );
    assert!(runtime.receive_next(actor).is_some());
}

#[test]
fn receive_timeout_is_cancelled_by_what_arrives_first() {
    let mut refs = RefSource::new();
    let mut runtime = ConcurrentRuntime::new(SchedulerConfig::for_parallelism(1));
    let (actor, mut worker) = ready_worker(&mut runtime);
    let beaten = ReceiveTimeout::new(TimerToken::next(&mut refs));
    assert!(runtime.set_timer(actor, beaten.token()));
    assert!(runtime.receive_next_with_timeout(actor, beaten).is_none());
    runtime.send_envelope(actor, Envelope::user(1_u32, "u32")).unwrap();
    runtime.send_envelope(actor, Envelope::user("two", "&str")).unwrap();
    runtime.fire_timer(actor, beaten.token());

    let received = runtime.receive_selective_with_timeout(actor, beaten, |envelope| {
        matches!(envelope, Envelope::User(payload) if payload.is::<&'static str>())
    });

    assert!(matches!(received, Some(Envelope::User(payload)) if payload.is::<&'static str>()));
    assert!(!runtime.cancel_timer(actor, beaten.token()));
    assert_eq!(runtime.actor_snapshot(actor).unwrap().metrics.mailbox_len, 1);

    let ended = HookEnd::Returned(ActorTurn::Continue);
    worker.turn_done(&mut runtime, ended, TurnEffects::new());
    let firing = ReceiveTimeout::new(TimerToken::next(&mut refs));
    runtime.set_timer(actor, firing.token());
    assert!(runtime
        .receive_selective_with_timeout(actor, firing, |_| false)
        .is_none());
    runtime.fire_timer(actor, firing.token());
    assert!(matches!(
        runtime.receive_selective_with_timeout(actor, firing, |_| false),
        Some(Envelope::Timer(timer)) if timer.token == firing.token()
    ));
}

#[test]
fn cancelling_withdraws_every_firing() {
    let mut refs = RefSource::new();
    let mut runtime = ConcurrentRuntime::new(SchedulerConfig::for_parallelism(1));
    let (actor, _worker) = ready_worker(&mut runtime);
    let token = TimerToken::next(&mut refs);
    for _ in 0..2 {
        runtime.set_timer(actor, token);
        runtime.fire_timer(actor, token);
    }
    assert_eq!(runtime.actor_snapshot(actor).unwrap().metrics.mailbox_len, 2);
    assert!(runtime.cancel_timer(actor, token));
    assert_eq!(runtime.actor_snapshot(actor).unwrap().metrics.mailbox_len, 0);
    assert!(!runtime.cancel_timer(actor, token));
}

#[test]
fn live_actors_are_counted_from_zero_and_down_again() {
    let stamp = Timestamp::from_nanos(0);
    let mut crew = Crew::of(1);
    let empty = crew.runtime.metrics_snapshot(1, Vec::new(), stamp);
    assert_eq!(empty.live_actors, 0);
    let first = crew.spawn(SinkActor).unwrap();
    crew.spawn(SinkActor).unwrap();
    crew.run_until_idle();
    assert_eq!(crew.runtime.metrics_snapshot(1, Vec::new(), stamp).live_actors, 2);
    crew.runtime.finalize_actor(first, ExitReason::Normal);
    assert_eq!(crew.runtime.metrics_snapshot(1, Vec::new(), stamp).live_actors, 1);
    crew.runtime.finalize_actor(first, ExitReason::Normal);
    assert_eq!(crew.runtime.metrics_snapshot(1, Vec::new(), stamp).live_actors, 1);
}
