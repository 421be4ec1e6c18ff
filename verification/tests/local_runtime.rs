use std::cell::RefCell;
use std::collections::BTreeMap;
use std::rc::Rc;
use std::time::Duration;

use lamport::behaviour::gen_server::{map_server_outcome, settle_call, ServerWork};
use lamport::behaviour::gen_statem::{map_statem_outcome, settle_statem_call};
use lamport::context::ReceiveTimeout;
use lamport::local::{Job, Step};
use lamport::supervisor::{SupervisorNotice, SupervisorRequest, SupervisorStep};
use lamport::time::Timestamp;
use lamport::types::RefSource;
use lamport::{
    restart_scope, ActorId, ActorStatus, ActorTurn, ApplicationHandle, CallOutcome, CastMessage,
    ChildSpec, DownMessage, Envelope, EventCursor, ExitReason, GenServerActor, GenStatemActor,
    InfoMessage, LifecycleEvent, LocalRuntime, Message, Payload, PendingCall, PoolKind, Ref,
    RegistryError, Restart, RuntimeEventKind, RuntimeInfo, SchedulerConfig, SendError,
    ServerOutcome, Shutdown, ShutdownPhase, SpawnError, SpawnOptions, StartChildError,
    StatemCallOutcome, StatemOutcome, Strategy, SupervisorActor, SupervisorDirective,
    SupervisorFlags, SupervisorSnapshot, SystemMessage, TaskCompleted, TimerFired, TimerToken,
};

/// An actor as the host below runs it.
trait Hooks {
    fn init(&mut self, _host: &mut Host) -> Result<(), ExitReason> {
        Ok(())
    }

    fn select(&mut self, host: &mut Host) -> Option<Envelope> {
        host.runtime.receive_next()
    }

    fn handle(&mut self, envelope: Envelope, host: &mut Host) -> ActorTurn;

    fn terminate(&mut self, _reason: ExitReason, _host: &mut Host) {}
}

/// What is due at some time of the clock.
enum Due {
    Timer(ActorId, TimerToken),
    CallTimeout(ActorId, Ref),
    Task(ActorId, TaskCompleted),
    ShutdownTimeout(ActorId),
}

/// Runs the hooks of actors around the runtime, with a clock that jumps to what is due next.
struct Host {
    runtime: LocalRuntime,
    refs: RefSource,
    actors: BTreeMap<ActorId, Box<dyn Hooks>>,
    due: Vec<(Duration, Due)>,
    now: Duration,
}

impl Host {
    fn new(config: SchedulerConfig) -> Self {
        Host {
            runtime: LocalRuntime::new(config),
            refs: RefSource::new(),
            actors: BTreeMap::new(),
            due: Vec::new(),
            now: Duration::ZERO,
        }
    }

    fn local() -> Self {
        Host::new(SchedulerConfig::for_parallelism(1))
    }

    fn stamp(&self) -> Timestamp {
        Timestamp::from_nanos(self.now.as_nanos())
    }

    fn spawn(&mut self, actor: impl Hooks + 'static) -> Result<ActorId, SpawnError> {
        self.spawn_with_options(actor, SpawnOptions::default())
    }

    fn spawn_with_options(
        &mut self,
        actor: impl Hooks + 'static,
        options: SpawnOptions,
    ) -> Result<ActorId, SpawnError> {
        let id = self.runtime.spawn_with_options("actor", options)?;
        self.actors.insert(id, Box::new(actor));
        Ok(id)
    }

    fn spawn_from_hook(
        &mut self,
        actor: impl Hooks + 'static,
        options: SpawnOptions,
    ) -> Result<ActorId, SpawnError> {
        let id = self.runtime.spawn("actor", options)?;
        self.actors.insert(id, Box::new(actor));
        Ok(id)
    }

    fn send<M: Message>(&mut self, to: ActorId, message: M) -> Result<(), SendError> {
        self.runtime.send_envelope(to, Envelope::user(message, "message"))
    }

    fn ask<M: Message>(
        &mut self,
        to: ActorId,
        message: M,
        timeout: Option<Duration>,
    ) -> Result<PendingCall, SendError> {
        let reference = Ref::next(&mut self.refs);
        let asker = self.runtime.actor_id();
        let call = self.runtime.ask(to, reference, Payload::new(message, "message"), timeout)?;
        if let Some(delay) = timeout {
            self.due.push((self.now + delay, Due::CallTimeout(asker, reference)));
        }
        Ok(call)
    }

    fn monitor(&mut self, other: ActorId) -> Ref {
        let reference = Ref::next(&mut self.refs);
        self.runtime.monitor(other, reference);
        reference
    }

    fn schedule_after(&mut self, delay: Duration, token: TimerToken) {
        let actor = self.runtime.actor_id();
        self.runtime.set_timer(token);
        self.due.push((self.now + delay, Due::Timer(actor, token)));
    }

    fn spawn_blocking_cpu<M: Message>(&mut self, result: M) -> Ref {
        let reference = Ref::next(&mut self.refs);
        let actor = self.runtime.actor_id();
        self.runtime.count_job(PoolKind::BlockingCpu);
        let task = TaskCompleted {
            reference,
            pool: PoolKind::BlockingCpu,
            result: Payload::new(result, "result"),
        };
        self.due.push((self.now, Due::Task(actor, task)));
        reference
    }

    fn shutdown_actor(&mut self, actor: ActorId, policy: Shutdown) -> Result<(), SendError> {
        let depth = self.runtime.depth();
        let ticket = self.runtime.request_shutdown(actor, policy)?;
        self.settle(depth);
        if let Some(delay) = ticket.timeout {
            self.due.push((self.now + delay, Due::ShutdownTimeout(actor)));
        }
        self.runtime.shutdown_settled(ticket);
        Ok(())
    }

    /// Lets everything above a depth of the stack end.
    fn settle(&mut self, depth: usize) {
        while self.runtime.depth() > depth {
            match self.runtime.step() {
                Step::Settled | Step::InHook => return,
                Step::Terminate { actor, reason, .. } => {
                    let mut hooks = self.actors.remove(&actor).unwrap();
                    hooks.terminate(reason, self);
                    self.runtime.terminate_finished(None);
                }
                Step::Progress | Step::Finished(_) => {}
            }
        }
    }

    fn run_once(&mut self) -> bool {
        self.runtime.set_time(self.stamp());
        self.settle(0);
        match self.runtime.next_job() {
            None => {
                self.runtime.count_idle_turn(false);
                return false;
            }
            Some(Job::Init { actor, .. }) => {
                let mut hooks = self.actors.remove(&actor).unwrap();
                let outcome = hooks.init(self);
                self.actors.insert(actor, hooks);
                self.runtime.init_finished(outcome);
            }
            Some(Job::Select { actor, .. }) => {
                let mut hooks = self.actors.remove(&actor).unwrap();
                match hooks.select(self) {
                    Some(envelope) => {
                        self.runtime.begin_turn();
                        let turn = hooks.handle(envelope, self);
                        self.actors.insert(actor, hooks);
                        self.runtime.turn_finished(Ok(turn));
                    }
                    None => {
                        self.actors.insert(actor, hooks);
                        self.runtime.nothing_selected();
                    }
                }
            }
        }
        self.settle(0);
        true
    }

    fn run_until_idle(&mut self) {
        while self.run_once() {}
    }

    /// Jumps to what is due next, if it is due in time, and runs what follows from it.
    fn block_on_next(&mut self, limit: Duration) -> bool {
        self.settle(0);
        let next = (0..self.due.len()).min_by_key(|at| self.due[*at].0);
        let at = match next {
            Some(at) if self.due[at].0 <= self.now + limit => at,
            _ => return false,
        };
        let (time, due) = self.due.remove(at);
        self.now = self.now.max(time);
        self.runtime.set_time(self.stamp());
        let handled = match due {
            Due::Timer(actor, token) => self.runtime.timer_fired(actor, token),
            Due::CallTimeout(actor, reference) => self.runtime.call_timed_out(actor, reference),
            Due::Task(actor, task) => self.runtime.task_completed(actor, task),
            Due::ShutdownTimeout(actor) => self.runtime.shutdown_timed_out(actor),
        };
        self.settle(0);
        if handled {
            self.run_until_idle();
            return true;
        }
        self.block_on_next(limit)
    }

    fn status(&self, actor: ActorId) -> ActorStatus {
        self.runtime.actor_snapshot(actor).unwrap().status
    }

    fn last_exit(&self, actor: ActorId) -> Option<ExitReason> {
        self.runtime.actor_snapshot(actor).unwrap().metrics.last_exit
    }
}

#[derive(Debug, Clone, PartialEq, Eq)]
enum Control {
    Crash,
}

fn is_crash(envelope: &Envelope) -> bool {
    match envelope {
        Envelope::User(payload) => payload.downcast_ref::<Control>() == Some(&Control::Crash),
        _ => false,
    }
}

struct SinkActor;

impl Hooks for SinkActor {
    fn handle(&mut self, _envelope: Envelope, _host: &mut Host) -> ActorTurn {
        ActorTurn::Continue
    }
}

struct CrashActor;

impl Hooks for CrashActor {
    fn handle(&mut self, envelope: Envelope, _host: &mut Host) -> ActorTurn {
        if is_crash(&envelope) {
            ActorTurn::Stop(ExitReason::Error("boom".into()))
        } else {
            ActorTurn::Continue
        }
    }
}

struct LinkedActor {
    target: ActorId,
}

impl Hooks for LinkedActor {
    fn init(&mut self, host: &mut Host) -> Result<(), ExitReason> {
        host.runtime
            .link(self.target)
            .map_err(|error| ExitReason::Error(format!("link failed: {error:?}")))
    }

    fn handle(&mut self, _envelope: Envelope, _host: &mut Host) -> ActorTurn {
        ActorTurn::Continue
    }
}

struct TrapExitActor {
    target: ActorId,
    seen: Rc<RefCell<Vec<ExitReason>>>,
}

impl Hooks for TrapExitActor {
    fn init(&mut self, host: &mut Host) -> Result<(), ExitReason> {
        host.runtime
            .link(self.target)
            .map_err(|error| ExitReason::Error(format!("link failed: {error:?}")))
    }

    fn handle(&mut self, envelope: Envelope, _host: &mut Host) -> ActorTurn {
        if let Envelope::Exit(signal) = envelope {
            self.seen.borrow_mut().push(signal.reason);
        }
        ActorTurn::Continue
    }
}

struct MonitorActor {
    target: ActorId,
    seen: Rc<RefCell<Vec<DownMessage>>>,
}

impl Hooks for MonitorActor {
    fn init(&mut self, host: &mut Host) -> Result<(), ExitReason> {
        host.monitor(self.target);
        Ok(())
    }

    fn handle(&mut self, envelope: Envelope, _host: &mut Host) -> ActorTurn {
        if let Envelope::Down(message) = envelope {
            self.seen.borrow_mut().push(message);
        }
        ActorTurn::Continue
    }
}

struct TimerActor {
    token: TimerToken,
    seen: Rc<RefCell<Vec<TimerToken>>>,
}

impl Hooks for TimerActor {
    fn init(&mut self, host: &mut Host) -> Result<(), ExitReason> {
        host.schedule_after(Duration::from_millis(10), self.token);
        Ok(())
    }

    fn handle(&mut self, envelope: Envelope, _host: &mut Host) -> ActorTurn {
        if let Envelope::Timer(timer) = envelope {
            self.seen.borrow_mut().push(timer.token);
        }
        ActorTurn::Continue
    }
}

struct TaskCompletionActor {
    seen: Rc<RefCell<Vec<(Ref, PoolKind, i32)>>>,
    expected: Option<Ref>,
}

impl Hooks for TaskCompletionActor {
    fn init(&mut self, host: &mut Host) -> Result<(), ExitReason> {
        self.expected = Some(host.spawn_blocking_cpu(42_i32));
        Ok(())
    }

    fn handle(&mut self, envelope: Envelope, _host: &mut Host) -> ActorTurn {
        if let Envelope::Task(task) = envelope {
            let value = task.result.downcast::<i32>().ok().unwrap();
            self.seen.borrow_mut().push((task.reference, task.pool, value));
            assert_eq!(Some(task.reference), self.expected);
        }
        ActorTurn::Continue
    }
}

struct TimeoutClient {
    server: ActorId,
    seen: Rc<RefCell<Vec<Ref>>>,
    pending: Option<PendingCall>,
}

impl Hooks for TimeoutClient {
    fn init(&mut self, host: &mut Host) -> Result<(), ExitReason> {
        self.pending = Some(
            host.ask(self.server, "ping", Some(Duration::from_millis(10)))
                .map_err(|error| ExitReason::Error(format!("ask failed: {error:?}")))?,
        );
        Ok(())
    }

    fn handle(&mut self, envelope: Envelope, _host: &mut Host) -> ActorTurn {
        if let Envelope::CallTimeout(timeout) = envelope {
            if self.pending.is_some_and(|pending| pending.matches(timeout.reference)) {
                self.seen.borrow_mut().push(timeout.reference);
            }
        }
        ActorTurn::Continue
    }
}

struct SelfRegisteringActor {
    seen: Rc<RefCell<Option<ActorId>>>,
    removed: Rc<RefCell<Option<String>>>,
}

impl Hooks for SelfRegisteringActor {
    fn init(&mut self, host: &mut Host) -> Result<(), ExitReason> {
        host.runtime
            .register_own_name("self-worker".into())
            .map_err(|error| ExitReason::Error(format!("register failed: {error:?}")))?;
        *self.seen.borrow_mut() = host.runtime.resolve_name("self-worker");
        *self.removed.borrow_mut() = host.runtime.unregister_own_name();
        Ok(())
    }

    fn handle(&mut self, _envelope: Envelope, _host: &mut Host) -> ActorTurn {
        ActorTurn::Continue
    }
}

#[test]
fn linked_exit_kills_non_trapping_actor() {
    let mut host = Host::local();
    let crashing = host.spawn(CrashActor).unwrap();
    let linked = host.spawn(LinkedActor { target: crashing }).unwrap();

    host.run_until_idle();
    host.send(crashing, Control::Crash).unwrap();
    host.run_until_idle();

    assert_eq!(host.status(linked), ActorStatus::Dead);
    assert_eq!(host.last_exit(linked), Some(ExitReason::Error("boom".into())));
}

#[test]
fn trap_exit_converts_linked_failures_into_messages() {
    let seen = Rc::new(RefCell::new(Vec::new()));
    let mut host = Host::local();
    let crashing = host.spawn(CrashActor).unwrap();
    let trapper = host
        .spawn_with_options(
            TrapExitActor { target: crashing, seen: Rc::clone(&seen) },
            SpawnOptions { trap_exit: true, ..SpawnOptions::default() },
        )
        .unwrap();

    host.run_until_idle();
    host.send(crashing, Control::Crash).unwrap();
    host.run_until_idle();

    assert_eq!(seen.borrow().as_slice(), &[ExitReason::Error("boom".into())]);
    assert_eq!(host.status(trapper), ActorStatus::Waiting);
}

#[test]
fn monitor_on_missing_actor_enqueues_immediate_down() {
    let seen = Rc::new(RefCell::new(Vec::new()));
    let mut host = Host::local();
    let missing = ActorId::new(999, 0);

    host.spawn(MonitorActor { target: missing, seen: Rc::clone(&seen) }).unwrap();
    host.run_until_idle();

    let seen = seen.borrow();
    assert_eq!(seen.len(), 1);
    assert_eq!(seen[0].actor, missing);
    assert_eq!(seen[0].reason, ExitReason::NoProc);
}

#[test]
fn block_on_next_waits_for_tokio_timer_delivery() {
    let seen = Rc::new(RefCell::new(Vec::new()));
    let mut host = Host::local();
    let token = TimerToken::next(&mut host.refs);

    host.spawn(TimerActor { token, seen: Rc::clone(&seen) }).unwrap();

    host.run_until_idle();
    assert!(seen.borrow().is_empty());

    assert!(host.block_on_next(Duration::from_secs(1)));
    assert_eq!(seen.borrow().as_slice(), &[token]);
}

#[test]
fn bounded_mailbox_returns_explicit_backpressure() {
    let mut host = Host::local();
    let actor = host
        .spawn_with_options(
            SinkActor,
            SpawnOptions { mailbox_capacity: Some(1), ..SpawnOptions::default() },
        )
        .unwrap();

    host.send(actor, 1_u32).unwrap();

    assert_eq!(
        host.send(actor, 2_u32),
        Err(SendError::MailboxFull { actor, capacity: 1 })
    );
}

#[test]
fn runtime_actor_capacity_limit_rejects_new_spawns() {
    let mut host = Host::new(SchedulerConfig {
        max_actors: 1,
        ..SchedulerConfig::for_parallelism(1)
    });

    host.spawn(SinkActor).unwrap();
    assert_eq!(host.spawn(SinkActor), Err(SpawnError::CapacityExceeded));
}

#[test]
fn blocking_task_completion_is_delivered_to_actor_mailbox() {
    let seen = Rc::new(RefCell::new(Vec::new()));
    let mut host = Host::local();

    host.spawn(TaskCompletionActor { seen: Rc::clone(&seen), expected: None }).unwrap();

    host.run_until_idle();
    if seen.borrow().is_empty() {
        assert!(host.block_on_next(Duration::from_secs(1)));
    }

    let seen = seen.borrow();
    assert_eq!(seen.len(), 1);
    assert_eq!(seen[0].1, PoolKind::BlockingCpu);
    assert_eq!(seen[0].2, 42);
    assert_eq!(host.runtime.metrics().blocking_cpu_jobs, 1);
}

#[test]
fn ask_timeout_is_delivered_back_to_the_caller() {
    let seen = Rc::new(RefCell::new(Vec::new()));
    let mut host = Host::local();
    let server = host.spawn(SinkActor).unwrap();

    host.spawn(TimeoutClient { server, seen: Rc::clone(&seen), pending: None }).unwrap();

    host.run_until_idle();
    if seen.borrow().is_empty() {
        assert!(host.block_on_next(Duration::from_secs(1)));
    }
    assert_eq!(seen.borrow().len(), 1);
}

#[test]
fn registry_api_registers_resolves_and_unregisters_names() {
    let mut host = Host::local();
    let first = host.spawn(SinkActor).unwrap();
    let second = host.spawn(SinkActor).unwrap();

    host.runtime.register_name(first, "worker".into()).unwrap();
    assert_eq!(host.runtime.resolve_name("worker"), Some(first));
    assert_eq!(
        host.runtime.register_name(second, "worker".into()),
        Err(RegistryError::NameTaken { name: "worker".into(), actor: first })
    );
    assert_eq!(host.runtime.unregister_name(first).as_deref(), Some("worker"));
    assert_eq!(host.runtime.resolve_name("worker"), None);
}

#[test]
fn actors_can_register_and_unregister_themselves_through_context() {
    let seen = Rc::new(RefCell::new(None));
    let removed = Rc::new(RefCell::new(None));
    let mut host = Host::local();
    let actor = host
        .spawn(SelfRegisteringActor { seen: Rc::clone(&seen), removed: Rc::clone(&removed) })
        .unwrap();

    host.run_until_idle();

    assert_eq!(*seen.borrow(), Some(actor));
    assert_eq!(removed.borrow().as_deref(), Some("self-worker"));
    assert_eq!(host.runtime.resolve_name("self-worker"), None);
}

#[test]
fn observability_introspection_exposes_tree_links_monitors_and_metrics() {
    let mut host = Host::local();
    let root = host
        .spawn_with_options(
            SinkActor,
            SpawnOptions { registered_name: Some("root".into()), ..SpawnOptions::default() },
        )
        .unwrap();
    let linked = host
        .spawn_with_options(
            LinkedActor { target: root },
            SpawnOptions {
                parent: Some(root),
                ancestors: vec![root],
                ..SpawnOptions::default()
            },
        )
        .unwrap();
    let monitor = host
        .spawn_with_options(
            MonitorActor { target: root, seen: Rc::default() },
            SpawnOptions {
                parent: Some(root),
                ancestors: vec![root],
                ..SpawnOptions::default()
            },
        )
        .unwrap();

    host.run_until_idle();

    let introspection = host.runtime.introspection(host.stamp());
    assert_eq!(introspection.actors.len(), 3);

    let find = |id: ActorId| {
        introspection
            .actors
            .iter()
            .find(|snapshot| snapshot.id == id)
            .unwrap()
    };
    let root_snapshot = find(root);
    assert!(root_snapshot.links.contains(&linked));
    assert!(root_snapshot.monitors_in.iter().any(|(_, actor)| *actor == monitor));
    assert_eq!(root_snapshot.metrics.mailbox_len, 0);

    let linked_snapshot = find(linked);
    assert_eq!(linked_snapshot.parent, Some(root));
    assert!(linked_snapshot.links.contains(&root));

    let monitor_snapshot = find(monitor);
    assert!(monitor_snapshot.monitors_out.iter().any(|(_, actor)| *actor == root));

    let root_node = introspection
        .actor_tree
        .nodes
        .iter()
        .find(|node| node.actor.id == root)
        .unwrap();
    assert_eq!(introspection.actor_tree.roots, vec![root]);
    assert_eq!(root_node.children, vec![linked, monitor]);

    let metrics = host.runtime.metrics_snapshot(host.stamp());
    assert_eq!(metrics.live_actors, 3);
    assert_eq!(metrics.waiting_actors, 3);
    assert_eq!(metrics.total_mailbox_len, 0);

    let prometheus = metrics.to_prometheus("0.5", "0");
    assert!(prometheus.contains("lamport_runtime_live_actors 3"));
    assert!(prometheus.contains("lamport_scheduler_utilization_ratio"));
}

#[test]
fn observability_event_log_and_crash_reports_include_context() {
    let mut host = Host::local();
    let root = host
        .spawn_with_options(
            SinkActor,
            SpawnOptions { registered_name: Some("root".into()), ..SpawnOptions::default() },
        )
        .unwrap();
    let parent = host
        .spawn_with_options(
            SinkActor,
            SpawnOptions {
                registered_name: Some("parent".into()),
                parent: Some(root),
                ancestors: vec![root],
                ..SpawnOptions::default()
            },
        )
        .unwrap();
    let child = host
        .spawn_with_options(
            CrashActor,
            SpawnOptions {
                registered_name: Some("child".into()),
                parent: Some(parent),
                ancestors: vec![root, parent],
                ..SpawnOptions::default()
            },
        )
        .unwrap();

    host.run_until_idle();
    let mut cursor = host.runtime.event_cursor();

    host.send(child, Control::Crash).unwrap();
    host.run_until_idle();

    let delta = host.runtime.events_since(&mut cursor);
    assert!(delta.iter().any(|event| matches!(
        &event.kind,
        RuntimeEventKind::Lifecycle(LifecycleEvent::Exit { actor, .. }) if *actor == child
    )));
    assert!(delta.iter().any(
        |event| matches!(&event.kind, RuntimeEventKind::Crash(report) if report.actor == child)
    ));
    assert!(host.runtime.events_since(&mut cursor).is_empty());

    let crash = host
        .runtime
        .crash_reports()
        .iter()
        .find(|report| report.actor == child)
        .unwrap();
    assert_eq!(crash.parent, Some(parent));
    assert_eq!(crash.parent_identity().unwrap().actor, parent);
    assert_eq!(
        crash
            .ancestor_identities()
            .iter()
            .map(|identity| identity.actor)
            .collect::<Vec<_>>(),
        vec![root, parent]
    );
    let rendered = crash.to_string();
    assert!(rendered.contains("parent:"));
    assert!(rendered.contains("ancestors:"));

    let mut from_start = EventCursor::from_start();
    let all_events = host.runtime.events_since(&mut from_start);
    assert!(all_events.len() >= host.runtime.event_log().len());
}

#[derive(Debug, Clone, PartialEq, Eq)]
enum CounterCall {
    Add(i32),
}

#[derive(Debug, Clone, PartialEq, Eq)]
enum CounterCast {
    Add(i32),
}

#[derive(Debug, Clone, PartialEq, Eq)]
enum CounterInfo {
    User(&'static str),
}

struct CounterServer;

impl CounterServer {
    fn handle_call(&mut self, state: &mut i32, message: CounterCall) -> CallOutcome<i32> {
        match message {
            CounterCall::Add(value) => {
                *state += value;
                CallOutcome::Reply(*state)
            }
        }
    }

    fn handle_cast(&mut self, state: &mut i32, message: CounterCast) -> ServerOutcome {
        match message {
            CounterCast::Add(value) => {
                *state += value;
                ServerOutcome::Continue
            }
        }
    }

    fn handle_info(&mut self, _state: &mut i32, message: CounterInfo) -> ServerOutcome {
        match message {
            CounterInfo::User(_) => ServerOutcome::Continue,
        }
    }

    fn handle_runtime(&mut self, _state: &mut i32, _info: RuntimeInfo) -> ServerOutcome {
        ServerOutcome::Continue
    }
}

impl Hooks for GenServerActor<CounterServer, i32> {
    fn init(&mut self, _host: &mut Host) -> Result<(), ExitReason> {
        self.initialized(Ok(0), 0)
    }

    fn handle(&mut self, envelope: Envelope, host: &mut Host) -> ActorTurn {
        let work = match self.work::<CounterCall, CounterCast, CounterInfo>(envelope) {
            Ok(work) => work,
            Err(turn) => return turn,
        };
        let state = self.state.as_mut().unwrap();
        match work {
            ServerWork::Call(token, call) => {
                let outcome = self.server.handle_call(state, call);
                let (reply, turn) = settle_call(outcome);
                if let Some(reply) = reply {
                    let _ = host
                        .runtime
                        .send_to(token.from, Envelope::reply(token.reference, reply, "reply"));
                }
                turn
            }
            ServerWork::Cast(cast) => map_server_outcome(self.server.handle_cast(state, cast)),
            ServerWork::Info(info) => map_server_outcome(self.server.handle_info(state, info)),
            ServerWork::Runtime(info) => {
                map_server_outcome(self.server.handle_runtime(state, info))
            }
        }
    }
}

struct ClientActor {
    server: ActorId,
    seen: Rc<RefCell<Vec<i32>>>,
}

impl Hooks for ClientActor {
    fn init(&mut self, host: &mut Host) -> Result<(), ExitReason> {
        host.ask(self.server, CounterCall::Add(2), None)
            .map_err(|error| ExitReason::Error(format!("ask failed: {error:?}")))?;
        Ok(())
    }

    fn handle(&mut self, envelope: Envelope, _host: &mut Host) -> ActorTurn {
        if let Envelope::Reply { message, .. } = envelope {
            self.seen.borrow_mut().push(message.downcast::<i32>().ok().unwrap());
        }
        ActorTurn::Continue
    }
}

#[test]
fn gen_server_actor_handles_casts_and_calls() {
    let seen = Rc::new(RefCell::new(Vec::new()));
    let mut host = Host::local();
    let server = host.spawn(GenServerActor::<CounterServer, i32>::new(CounterServer)).unwrap();

    host.run_until_idle();
    host.send(server, CastMessage(CounterCast::Add(3))).unwrap();
    host.spawn(ClientActor { server, seen: Rc::clone(&seen) }).unwrap();
    host.send(server, InfoMessage(CounterInfo::User("noop"))).unwrap();
    host.run_until_idle();

    assert_eq!(seen.borrow().as_slice(), &[5]);
}

#[derive(Debug, Clone, PartialEq, Eq)]
enum GateState {
    Closed,
    Open,
}

#[derive(Debug, Clone, PartialEq, Eq)]
enum GateCall {
    Snapshot,
}

#[derive(Debug, Clone, PartialEq, Eq)]
enum GateCast {
    Unlock,
    Push,
}

#[derive(Debug, Clone, PartialEq, Eq)]
struct GateSnapshot {
    state: GateState,
    pushes: usize,
}

#[derive(Debug, Clone, PartialEq, Eq)]
enum GateInfo {
    User(&'static str),
}

struct GateMachine;

impl GateMachine {
    fn handle_call(
        &mut self,
        state: &GateState,
        pushes: usize,
        message: GateCall,
    ) -> StatemCallOutcome<GateState, GateSnapshot> {
        match message {
            GateCall::Snapshot => {
                StatemCallOutcome::Reply(GateSnapshot { state: state.clone(), pushes })
            }
        }
    }

    fn handle_cast(
        &mut self,
        state: &GateState,
        pushes: &mut usize,
        message: GateCast,
    ) -> StatemOutcome<GateState> {
        match message {
            GateCast::Unlock if *state == GateState::Closed => {
                StatemOutcome::Transition(GateState::Open)
            }
            GateCast::Push if *state == GateState::Open => {
                *pushes += 1;
                StatemOutcome::Transition(GateState::Closed)
            }
            GateCast::Unlock | GateCast::Push => StatemOutcome::Continue,
        }
    }
}

impl Hooks for GenStatemActor<GateMachine, GateState, usize> {
    fn init(&mut self, _host: &mut Host) -> Result<(), ExitReason> {
        self.initialized(Ok((GateState::Closed, 0)), 0)
    }

    fn handle(&mut self, envelope: Envelope, host: &mut Host) -> ActorTurn {
        let work = match self.work::<GateCall, GateCast, GateInfo>(envelope) {
            Ok(work) => work,
            Err(turn) => return turn,
        };
        let state = self.state.as_mut().unwrap();
        let pushes = self.data.as_mut().unwrap();
        match work {
            ServerWork::Call(token, call) => {
                let outcome = self.machine.handle_call(state, *pushes, call);
                let (reply, turn) = settle_statem_call(state, outcome);
                if let Some(reply) = reply {
                    let _ = host
                        .runtime
                        .send_to(token.from, Envelope::reply(token.reference, reply, "reply"));
                }
                turn
            }
            ServerWork::Cast(cast) => {
                let outcome = self.machine.handle_cast(state, pushes, cast);
                map_statem_outcome(state, outcome)
            }
            ServerWork::Info(_) | ServerWork::Runtime(_) => {
                map_statem_outcome(state, StatemOutcome::Continue)
            }
        }
    }
}

struct SnapshotClient {
    server: ActorId,
    seen: Rc<RefCell<Vec<GateSnapshot>>>,
}

impl Hooks for SnapshotClient {
    fn init(&mut self, host: &mut Host) -> Result<(), ExitReason> {
        host.ask(self.server, GateCall::Snapshot, None)
            .map_err(|error| ExitReason::Error(format!("ask failed: {error:?}")))?;
        Ok(())
    }

    fn handle(&mut self, envelope: Envelope, _host: &mut Host) -> ActorTurn {
        if let Envelope::Reply { message, .. } = envelope {
            self.seen
                .borrow_mut()
                .push(message.downcast::<GateSnapshot>().ok().unwrap());
        }
        ActorTurn::Continue
    }
}

#[test]
fn gen_statem_actor_transitions_and_replies() {
    let seen = Rc::new(RefCell::new(Vec::new()));
    let mut host = Host::local();
    let machine = host
        .spawn(GenStatemActor::<GateMachine, GateState, usize>::new(GateMachine))
        .unwrap();

    host.run_until_idle();
    host.send(machine, CastMessage(GateCast::Unlock)).unwrap();
    host.send(machine, CastMessage(GateCast::Push)).unwrap();
    host.send(machine, InfoMessage(GateInfo::User("noop"))).unwrap();
    host.spawn(SnapshotClient { server: machine, seen: Rc::clone(&seen) }).unwrap();
    host.run_until_idle();

    assert_eq!(
        seen.borrow().as_slice(),
        &[GateSnapshot { state: GateState::Closed, pushes: 1 }]
    );
}

/// What the owner of a supervisor decides.
trait Owner {
    fn start_child(&mut self, spec: &ChildSpec, host: &mut Host)
        -> Result<ActorId, StartChildError>;

    fn on_child_exit(&mut self, spec: &ChildSpec, reason: ExitReason) -> SupervisorDirective;
}

enum Ended {
    Turn(ActorTurn),
    Startup(Result<(), ExitReason>),
}

fn drive<S: Owner>(
    supervisor: &mut SupervisorActor<S>,
    first: SupervisorStep,
    host: &mut Host,
) -> Ended {
    let mut step = first;
    loop {
        for notice in step.notices {
            match notice {
                SupervisorNotice::ChildStarted { child_id, actor } => {
                    host.runtime.supervisor_child_started(child_id, actor);
                }
                SupervisorNotice::ChildExited { child_id, actor } => {
                    host.runtime.supervisor_child_exited(child_id, actor);
                }
                SupervisorNotice::Restarted { child_id, old_actor, new_actor } => {
                    let supervisor = host.runtime.actor_id();
                    host.runtime.emit_lifecycle_event(LifecycleEvent::Restart {
                        supervisor,
                        child_id,
                        old_actor,
                        new_actor,
                    });
                }
            }
        }
        step = match step.request {
            SupervisorRequest::StartChild(spec) => {
                let started = supervisor.supervisor.start_child(&spec, host);
                let spawned = started.as_ref().ok().copied();
                supervisor.child_started(started, spawned)
            }
            SupervisorRequest::ShutdownChild { actor, policy } => {
                let accepted = host.shutdown_actor(actor, policy).is_ok();
                supervisor.shutdown_answered(accepted)
            }
            SupervisorRequest::Decide { spec, reason, .. } => {
                let directive = supervisor.supervisor.on_child_exit(&spec, reason);
                supervisor.decided(directive)
            }
            SupervisorRequest::CountRestart => {
                let now = host.stamp();
                let allowed = host.runtime.record_supervisor_restart(now);
                supervisor.restart_counted(allowed)
            }
            SupervisorRequest::Finish(turn) => return Ended::Turn(turn),
            SupervisorRequest::Started(outcome) => return Ended::Startup(outcome),
        };
    }
}

impl<S: Owner + 'static> Hooks for SupervisorActor<S> {
    fn init(&mut self, host: &mut Host) -> Result<(), ExitReason> {
        host.runtime.set_trap_exit(true);
        host.runtime
            .configure_supervisor(self.state.flags, self.state.specs.clone());
        let step = SupervisorActor::init(self);
        match drive(self, step, host) {
            Ended::Startup(outcome) => outcome,
            Ended::Turn(_) => Ok(()),
        }
    }

    fn handle(&mut self, envelope: Envelope, host: &mut Host) -> ActorTurn {
        let step = SupervisorActor::handle(self, envelope);
        match drive(self, step, host) {
            Ended::Turn(turn) => turn,
            Ended::Startup(_) => ActorTurn::Continue,
        }
    }
}

#[derive(Debug, Clone)]
enum WorkerMode {
    Immediate,
    DelayShutdown(Duration),
    IgnoreShutdown,
}

struct WorkerActor {
    id: &'static str,
    mode: WorkerMode,
    log: Rc<RefCell<Vec<String>>>,
    shutdown_timer: Option<TimerToken>,
}

impl Hooks for WorkerActor {
    fn init(&mut self, host: &mut Host) -> Result<(), ExitReason> {
        let local_id = host.runtime.actor_id().local_id;
        self.log.borrow_mut().push(format!("start:{}:{}", self.id, local_id));
        Ok(())
    }

    fn handle(&mut self, envelope: Envelope, host: &mut Host) -> ActorTurn {
        if is_crash(&envelope) {
            return ActorTurn::Stop(ExitReason::Error(format!("{} boom", self.id)));
        }
        match envelope {
            Envelope::Exit(signal) if matches!(signal.reason, ExitReason::Shutdown) => {
                match self.mode {
                    WorkerMode::Immediate => ActorTurn::Stop(ExitReason::Shutdown),
                    WorkerMode::DelayShutdown(delay) => {
                        let token = TimerToken::next(&mut host.refs);
                        self.shutdown_timer = Some(token);
                        host.schedule_after(delay, token);
                        ActorTurn::Continue
                    }
                    WorkerMode::IgnoreShutdown => ActorTurn::Continue,
                }
            }
            Envelope::Timer(TimerFired { token }) if self.shutdown_timer == Some(token) => {
                self.shutdown_timer = None;
                ActorTurn::Stop(ExitReason::Shutdown)
            }
            _ => ActorTurn::Continue,
        }
    }

    fn terminate(&mut self, reason: ExitReason, _host: &mut Host) {
        self.log.borrow_mut().push(format!("stop:{}:{reason:?}", self.id));
    }
}

struct TestSupervisor {
    flags: SupervisorFlags,
    specs: Vec<ChildSpec>,
    modes: BTreeMap<&'static str, WorkerMode>,
    log: Rc<RefCell<Vec<String>>>,
}

impl Owner for TestSupervisor {
    fn start_child(
        &mut self,
        spec: &ChildSpec,
        host: &mut Host,
    ) -> Result<ActorId, StartChildError> {
        let mode = self
            .modes
            .get(spec.id)
            .cloned()
            .expect("test mode must exist for each child");
        let trap_exit = !matches!(mode, WorkerMode::Immediate);
        host.spawn_from_hook(
            WorkerActor {
                id: spec.id,
                mode,
                log: Rc::clone(&self.log),
                shutdown_timer: None,
            },
            SpawnOptions { trap_exit, ..SpawnOptions::default() }.for_child(spec.id),
        )
        .map_err(|_| StartChildError::SpawnRejected)
    }

    fn on_child_exit(&mut self, spec: &ChildSpec, reason: ExitReason) -> SupervisorDirective {
        if !spec.should_restart(&reason) {
            return SupervisorDirective::Ignore;
        }
        SupervisorDirective::Restart(restart_scope(self.flags.strategy, &self.specs, spec.id))
    }
}

fn spawn_supervisor(
    host: &mut Host,
    strategy: Strategy,
    intensity: u32,
    specs: Vec<ChildSpec>,
    modes: BTreeMap<&'static str, WorkerMode>,
    log: &Rc<RefCell<Vec<String>>>,
) -> ActorId {
    let flags = SupervisorFlags { strategy, intensity, period: Duration::from_secs(5) };
    let owner = TestSupervisor { flags, specs: specs.clone(), modes, log: Rc::clone(log) };
    host.spawn(SupervisorActor::new(owner, flags, specs)).unwrap()
}

fn immediate_modes() -> BTreeMap<&'static str, WorkerMode> {
    BTreeMap::from([
        ("a", WorkerMode::Immediate),
        ("b", WorkerMode::Immediate),
        ("c", WorkerMode::Immediate),
    ])
}

fn child_spec(id: &'static str, shutdown: Shutdown) -> ChildSpec {
    ChildSpec { id, restart: Restart::Permanent, shutdown, is_supervisor: false }
}

fn default_specs() -> Vec<ChildSpec> {
    vec![
        child_spec("a", Shutdown::default()),
        child_spec("b", Shutdown::default()),
        child_spec("c", Shutdown::default()),
    ]
}

fn supervisor_snapshot(host: &mut Host, supervisor: ActorId) -> SupervisorSnapshot {
    let now = host.stamp();
    host.runtime
        .supervisor_snapshot(supervisor, now)
        .expect("supervisor snapshot should exist")
}

fn child_ids(host: &mut Host, supervisor: ActorId) -> BTreeMap<&'static str, ActorId> {
    supervisor_snapshot(host, supervisor)
        .children
        .iter()
        .map(|child| (child.spec.id, child.actor.expect("child should be running")))
        .collect()
}

fn wait_until_dead(host: &mut Host, actor: ActorId) {
    while host.status(actor) != ActorStatus::Dead {
        assert!(host.block_on_next(Duration::from_secs(1)), "actor did not make progress");
        host.run_until_idle();
    }
}

fn requested_shutdowns(host: &Host) -> Vec<ActorId> {
    host.runtime
        .lifecycle_events()
        .iter()
        .filter_map(|event| match event {
            LifecycleEvent::Shutdown { phase: ShutdownPhase::Requested, actor, .. } => {
                Some(*actor)
            }
            _ => None,
        })
        .collect()
}

#[test]
fn one_for_one_restart_updates_runtime_state_and_events() {
    let log = Rc::default();
    let mut host = Host::local();
    let supervisor = spawn_supervisor(
        &mut host,
        Strategy::OneForOne,
        3,
        default_specs(),
        immediate_modes(),
        &log,
    );

    host.run_until_idle();
    let before = child_ids(&mut host, supervisor);
    let down_seen = Rc::new(RefCell::new(Vec::new()));
    let watcher = host
        .spawn(MonitorActor { target: before["b"], seen: Rc::clone(&down_seen) })
        .unwrap();

    host.run_until_idle();
    host.send(before["b"], Control::Crash).unwrap();
    host.run_until_idle();

    let after = child_ids(&mut host, supervisor);
    assert_eq!(after["a"], before["a"]);
    assert_ne!(after["b"], before["b"]);
    assert_eq!(after["c"], before["c"]);
    assert_eq!(supervisor_snapshot(&mut host, supervisor).active_restarts, 1);
    assert_eq!(down_seen.borrow().len(), 1);

    assert!(host.runtime.lifecycle_events().iter().any(|event| matches!(
        event,
        LifecycleEvent::Restart {
            supervisor: source,
            child_id: "b",
            old_actor: Some(old_actor),
            new_actor,
        } if *source == supervisor && *old_actor == before["b"] && *new_actor == after["b"]
    )));
    assert!(host.runtime.lifecycle_events().iter().any(|event| matches!(
        event,
        LifecycleEvent::Down { watcher: seen_by, actor, .. }
            if *seen_by == watcher && *actor == before["b"]
    )));
    assert!(host.runtime.crash_reports().iter().any(|report| {
        report.actor == before["b"]
            && report.reason == ExitReason::Error("b boom".into())
            && report.supervisor_child == Some("b")
    }));
}

#[test]
fn one_for_all_restarts_entire_subtree() {
    let log = Rc::default();
    let mut host = Host::local();
    let supervisor = spawn_supervisor(
        &mut host,
        Strategy::OneForAll,
        3,
        default_specs(),
        immediate_modes(),
        &log,
    );

    host.run_until_idle();
    let before = child_ids(&mut host, supervisor);
    host.send(before["b"], Control::Crash).unwrap();
    host.run_until_idle();

    let after = child_ids(&mut host, supervisor);
    assert_ne!(after["a"], before["a"]);
    assert_ne!(after["b"], before["b"]);
    assert_ne!(after["c"], before["c"]);

    assert_eq!(requested_shutdowns(&host), vec![before["c"], before["a"]]);
}

#[test]
fn rest_for_one_restarts_only_suffix() {
    let log = Rc::default();
    let mut host = Host::local();
    let supervisor = spawn_supervisor(
        &mut host,
        Strategy::RestForOne,
        3,
        default_specs(),
        immediate_modes(),
        &log,
    );

    host.run_until_idle();
    let before = child_ids(&mut host, supervisor);
    host.send(before["b"], Control::Crash).unwrap();
    host.run_until_idle();

    let after = child_ids(&mut host, supervisor);
    assert_eq!(after["a"], before["a"]);
    assert_ne!(after["b"], before["b"]);
    assert_ne!(after["c"], before["c"]);

    assert_eq!(requested_shutdowns(&host), vec![before["c"]]);
}

#[test]
fn shutdown_order_and_timeouts_are_enforced() {
    let log = Rc::default();
    let specs = vec![
        child_spec("a", Shutdown::Timeout(Duration::from_millis(50))),
        child_spec("b", Shutdown::Timeout(Duration::from_millis(10))),
        child_spec("c", Shutdown::Timeout(Duration::from_millis(50))),
    ];
    let modes = BTreeMap::from([
        ("a", WorkerMode::Immediate),
        ("b", WorkerMode::IgnoreShutdown),
        ("c", WorkerMode::DelayShutdown(Duration::from_millis(5))),
    ]);
    let mut host = Host::local();
    let supervisor =
        spawn_supervisor(&mut host, Strategy::OneForOne, 3, specs, modes, &log);

    host.run_until_idle();
    let before = child_ids(&mut host, supervisor);
    host.runtime
        .send_envelope(supervisor, Envelope::System(SystemMessage::Shutdown))
        .unwrap();
    host.run_until_idle();
    wait_until_dead(&mut host, supervisor);

    let requested: Vec<ActorId> = requested_shutdowns(&host)
        .into_iter()
        .filter(|actor| *actor != supervisor)
        .collect();
    assert_eq!(requested, vec![before["c"], before["b"], before["a"]]);
    assert!(host.runtime.lifecycle_events().iter().any(|event| matches!(
        event,
        LifecycleEvent::Shutdown {
            actor,
            phase: ShutdownPhase::TimedOut,
            reason: Some(ExitReason::Kill),
            ..
        } if *actor == before["b"]
    )));
    assert_eq!(host.last_exit(supervisor), Some(ExitReason::Shutdown));
    assert!(host
        .runtime
        .crash_reports()
        .iter()
        .any(|report| report.actor == before["b"] && report.reason == ExitReason::Kill));
}

#[test]
fn restart_intensity_limit_shuts_down_supervisor() {
    let log = Rc::default();
    let mut host = Host::local();
    let supervisor = spawn_supervisor(
        &mut host,
        Strategy::OneForOne,
        1,
        default_specs(),
        immediate_modes(),
        &log,
    );

    host.run_until_idle();
    let before = child_ids(&mut host, supervisor);
    host.send(before["b"], Control::Crash).unwrap();
    host.run_until_idle();

    let after_first = child_ids(&mut host, supervisor);
    host.send(after_first["b"], Control::Crash).unwrap();
    host.run_until_idle();
    wait_until_dead(&mut host, supervisor);

    assert_eq!(host.status(supervisor), ActorStatus::Dead);
    assert_eq!(
        host.last_exit(supervisor),
        Some(ExitReason::Error("supervisor restart intensity exceeded".into()))
    );
}

struct EmptyRootSupervisor;

impl Owner for EmptyRootSupervisor {
    fn start_child(
        &mut self,
        _spec: &ChildSpec,
        _host: &mut Host,
    ) -> Result<ActorId, StartChildError> {
        Err(StartChildError::InitFailed(ExitReason::Error(
            "empty application has no children".into(),
        )))
    }

    fn on_child_exit(&mut self, _spec: &ChildSpec, _reason: ExitReason) -> SupervisorDirective {
        SupervisorDirective::Ignore
    }
}

fn boot_empty_application(host: &mut Host) -> ApplicationHandle {
    let flags = SupervisorFlags { strategy: Strategy::OneForOne, ..SupervisorFlags::default() };
    let handle = host
        .runtime
        .boot_application(
            "empty",
            "supervisor",
            SpawnOptions { registered_name: Some("empty.root".into()), ..SpawnOptions::default() },
        )
        .unwrap();
    host.actors.insert(
        handle.root_supervisor(),
        Box::new(SupervisorActor::new(EmptyRootSupervisor, flags, Vec::new())),
    );
    handle
}

#[test]
fn boot_local_application_spawns_root_supervisor() {
    let mut host = Host::local();
    let handle = boot_empty_application(&mut host);

    host.run_until_idle();

    assert_eq!(handle.name(), "empty");
    assert_eq!(
        host.runtime.resolve_name("empty.root"),
        Some(handle.root_supervisor())
    );

    let snapshot = supervisor_snapshot(&mut host, handle.root_supervisor());
    assert_eq!(snapshot.children.len(), 0);
    assert_eq!(snapshot.flags.strategy, Strategy::OneForOne);
}

#[test]
fn existing_runtime_can_boot_application() {
    let mut host = Host::local();
    host.spawn(SinkActor).unwrap();
    let handle = boot_empty_application(&mut host);

    host.run_until_idle();

    assert!(host.runtime.actor_snapshot(handle.root_supervisor()).is_some());
}

/// Keeps every envelope that it gets, and takes messages of type `u32` only.
struct Picky {
    seen: Rc<RefCell<Vec<Envelope>>>,
    link: Option<ActorId>,
}

impl Hooks for Picky {
    fn init(&mut self, host: &mut Host) -> Result<(), ExitReason> {
        if let Some(other) = self.link {
            host.runtime.link(other).unwrap();
        }
        Ok(())
    }

    fn select(&mut self, host: &mut Host) -> Option<Envelope> {
        host.runtime.receive_selective(|envelope| match envelope {
            Envelope::User(payload) => payload.is::<u32>(),
            _ => false,
        })
    }

    fn handle(&mut self, envelope: Envelope, _host: &mut Host) -> ActorTurn {
        self.seen.borrow_mut().push(envelope);
        ActorTurn::Continue
    }
}

#[test]
fn selective_receive_observes_linked_exits_first() {
    let seen = Rc::new(RefCell::new(Vec::new()));
    let mut host = Host::local();
    let failing = host.spawn(CrashActor).unwrap();
    let picky = host
        .spawn_with_options(
            Picky { seen: Rc::clone(&seen), link: Some(failing) },
            SpawnOptions { trap_exit: true, ..SpawnOptions::default() },
        )
        .unwrap();
    host.run_until_idle();
    host.send(picky, "left alone").unwrap();
    host.send(failing, Control::Crash).unwrap();
    host.run_until_idle();
    host.send(picky, 5_u32).unwrap();
    host.run_until_idle();

    let seen = seen.borrow();
    assert_eq!(seen.len(), 2);
    assert!(matches!(&seen[0], Envelope::Exit(signal) if signal.from == failing));
    assert!(matches!(&seen[1], Envelope::User(payload) if payload.is::<u32>()));
    let snapshot = host.runtime.actor_snapshot(picky).unwrap();
    assert_eq!(snapshot.status, ActorStatus::Waiting);
    assert_eq!(snapshot.metrics.mailbox_len, 1);
}

#[test]
fn slots_of_dead_actors_are_reused_under_new_ids() {
    let mut host = Host::local();
    let first = host.spawn(CrashActor).unwrap();
    host.run_until_idle();
    host.send(first, Control::Crash).unwrap();
    host.run_until_idle();
    let second = host.spawn(SinkActor).unwrap();

    assert_eq!(second, ActorId::new(first.local_id, first.generation + 1));
    assert_eq!(host.send(first, ()), Err(SendError::NoProc(first)));
    assert_eq!(host.status(first), ActorStatus::Dead);
    assert!(host.runtime.contains(second));
    assert!(!host.runtime.contains(first));
}

struct Starter {
    outcome: Rc<RefCell<Vec<Result<ActorId, SpawnError>>>>,
}

impl Hooks for Starter {
    fn init(&mut self, host: &mut Host) -> Result<(), ExitReason> {
        let options = SpawnOptions {
            link_to_parent: true,
            registered_name: Some("unique".into()),
            ..SpawnOptions::default()
        };
        let first = host.spawn_from_hook(SinkActor, options.clone());
        let second = host.spawn_from_hook(SinkActor, options);
        self.outcome.borrow_mut().push(first);
        self.outcome.borrow_mut().push(second);
        Ok(())
    }

    fn handle(&mut self, _envelope: Envelope, _host: &mut Host) -> ActorTurn {
        ActorTurn::Stop(ExitReason::Kill)
    }
}

#[test]
fn spawned_children_are_linked_with_their_parent() {
    let outcome = Rc::new(RefCell::new(Vec::new()));
    let mut host = Host::local();
    let parent = host.spawn(Starter { outcome: Rc::clone(&outcome) }).unwrap();
    host.run_until_idle();

    let child = outcome.borrow()[0].clone().unwrap();
    assert!(matches!(
        outcome.borrow()[1],
        Err(SpawnError::Registry(RegistryError::NameTaken { actor, .. })) if actor == child
    ));
    let snapshot = host.runtime.actor_snapshot(child).unwrap();
    assert_eq!(snapshot.parent, Some(parent));
    assert_eq!(snapshot.links, vec![parent]);
    assert_eq!(host.runtime.actor_snapshot(parent).unwrap().links, vec![child]);

    host.send(parent, ()).unwrap();
    host.run_until_idle();
    assert_eq!(host.last_exit(child), Some(ExitReason::Kill));
    assert_eq!(host.runtime.resolve_name("unique"), None);
    assert!(host.runtime.actor_snapshots().is_empty());
}

struct Canceller {
    seen: Rc<RefCell<Vec<bool>>>,
}

impl Hooks for Canceller {
    fn init(&mut self, host: &mut Host) -> Result<(), ExitReason> {
        let token = TimerToken::next(&mut host.refs);
        host.schedule_after(Duration::from_millis(1), token);
        let cancelled = host.runtime.cancel_timer(token);
        let again = host.runtime.cancel_timer(token);
        self.seen.borrow_mut().extend([cancelled, again]);
        Ok(())
    }

    fn handle(&mut self, _envelope: Envelope, _host: &mut Host) -> ActorTurn {
        panic!("no envelope is due");
    }
}

#[test]
fn cancelled_timer_does_not_fire() {
    let seen = Rc::new(RefCell::new(Vec::new()));
    let mut host = Host::local();
    host.spawn(Canceller { seen: Rc::clone(&seen) }).unwrap();
    host.run_until_idle();
    assert!(!host.block_on_next(Duration::from_secs(1)));
    assert_eq!(seen.borrow().as_slice(), &[true, false]);
}

#[test]
fn forced_exit_runs_the_termination_hook_and_reports_once() {
    let log = Rc::default();
    let mut host = Host::local();
    let actor = host
        .spawn(WorkerActor {
            id: "w",
            mode: WorkerMode::Immediate,
            log: Rc::clone(&log),
            shutdown_timer: None,
        })
        .unwrap();
    host.run_until_idle();
    assert!(host.runtime.exit_actor(actor, ExitReason::Kill));
    host.settle(0);
    assert!(!host.runtime.exit_actor(actor, ExitReason::Kill));

    assert_eq!(
        *log.borrow(),
        vec!["start:w:0".to_string(), "stop:w:Kill".to_string()]
    );
    let exits = host
        .runtime
        .lifecycle_events()
        .iter()
        .filter(|event| matches!(event, LifecycleEvent::Exit { .. }))
        .count();
    assert_eq!(exits, 1);
}

struct BlockingActor {
    done: Rc<RefCell<bool>>,
}

impl Hooks for BlockingActor {
    fn init(&mut self, host: &mut Host) -> Result<(), ExitReason> {
        host.spawn_blocking_cpu(());
        Ok(())
    }

    fn handle(&mut self, envelope: Envelope, _host: &mut Host) -> ActorTurn {
        if let Envelope::Task(_) = envelope {
            *self.done.borrow_mut() = true;
        }
        ActorTurn::Continue
    }
}

#[test]
fn spawn_blocking_cpu_uses_tokio_pool_instead_of_actor_turn() {
    let done = Rc::new(RefCell::new(false));
    let mut host = Host::local();
    let actor = host.spawn(BlockingActor { done: Rc::clone(&done) }).unwrap();

    host.run_until_idle();
    assert!(!*done.borrow());
    assert_eq!(host.status(actor), ActorStatus::Waiting);

    assert!(host.block_on_next(Duration::from_millis(20)));
    assert!(*done.borrow());
    assert_eq!(host.runtime.metrics().blocking_cpu_jobs, 1);
}

/// Waits for one message of type `u32` for a second, and keeps what it gets.
struct Patient {
    timeout: Option<ReceiveTimeout>,
    seen: Rc<RefCell<Vec<Envelope>>>,
}

impl Hooks for Patient {
    fn init(&mut self, host: &mut Host) -> Result<(), ExitReason> {
        let timeout = ReceiveTimeout::new(TimerToken::next(&mut host.refs));
        host.schedule_after(Duration::from_secs(1), timeout.token());
        self.timeout = Some(timeout);
        Ok(())
    }

    fn select(&mut self, host: &mut Host) -> Option<Envelope> {
        match self.timeout {
            Some(timeout) => host.runtime.receive_selective_with_timeout(timeout, |envelope| {
                matches!(envelope, Envelope::User(payload) if payload.is::<u32>())
            }),
            None => None,
        }
    }

    fn handle(&mut self, envelope: Envelope, host: &mut Host) -> ActorTurn {
        assert!(host.runtime.receive_next().is_none());
        assert!(host.runtime.receive_selective(|_| true).is_none());
        let timeout = self.timeout.take().unwrap();
        assert!(host.runtime.receive_next_with_timeout(timeout).is_none());
        assert!(!host.runtime.cancel_timer(timeout.token()));
        self.seen.borrow_mut().push(envelope);
        ActorTurn::Continue
    }
}

#[test]
fn awaited_message_cancels_the_timeout() {
    let seen = Rc::new(RefCell::new(Vec::new()));
    let mut host = Host::local();
    let actor = host
        .spawn(Patient { timeout: None, seen: Rc::clone(&seen) })
        .unwrap();
    host.run_until_idle();
    host.send(actor, "left alone").unwrap();
    host.send(actor, 5_u32).unwrap();
    host.run_until_idle();

    assert!(matches!(
        seen.borrow().as_slice(),
        [Envelope::User(payload)] if payload.downcast_ref::<u32>() == Some(&5)
    ));
    assert!(!host.block_on_next(Duration::from_secs(2)));
    assert_eq!(seen.borrow().len(), 1);
    assert_eq!(host.runtime.actor_snapshot(actor).unwrap().metrics.mailbox_len, 1);
}

#[test]
fn timeout_arrives_when_nothing_else_does() {
    let seen = Rc::new(RefCell::new(Vec::new()));
    let mut host = Host::local();
    let actor = host
        .spawn(Patient { timeout: None, seen: Rc::clone(&seen) })
        .unwrap();
    host.run_until_idle();
    host.send(actor, "left alone").unwrap();
    assert!(host.block_on_next(Duration::from_secs(2)));

    assert!(matches!(seen.borrow().as_slice(), [Envelope::Timer(_)]));
    assert_eq!(host.runtime.actor_snapshot(actor).unwrap().metrics.mailbox_len, 1);
}

#[test]
fn exits_lower_the_number_of_live_actors() {
    let mut host = Host::local();
    assert_eq!(host.runtime.metrics_snapshot(host.stamp()).live_actors, 0);
    let failing = host.spawn(CrashActor).unwrap();
    host.spawn(SinkActor).unwrap();
    host.run_until_idle();
    assert_eq!(host.runtime.metrics_snapshot(host.stamp()).live_actors, 2);
    host.send(failing, Control::Crash).unwrap();
    host.run_until_idle();
    assert_eq!(host.runtime.metrics_snapshot(host.stamp()).live_actors, 1);
}

#[test]
fn only_turns_without_progress_are_idle() {
    let mut host = Host::local();
    host.runtime.count_idle_turn(true);
    assert_eq!(host.runtime.metrics().idle_turns, 0);
    host.runtime.count_idle_turn(false);
    assert_eq!(host.runtime.metrics().idle_turns, 1);
}
