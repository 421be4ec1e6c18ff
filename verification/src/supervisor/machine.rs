//! The supervisor as a state machine: it takes events and says what to do next.
//!
//! Whatever a supervisor cannot do by itself (starting a child, asking the
//! runtime to stop one, asking its owner what to do) it requests from its
//! host, which carries the request out and hands the answer back.

use std::collections::VecDeque;

use vstd::prelude::*;

use crate::actor::ActorTurn;
use crate::collections::AssocMap;
use crate::envelope::{Envelope, ExitSignal, SystemMessage};
use crate::supervisor::plan::{RestartPlan, ShutdownPlan};
use crate::supervisor::state::{SupervisorAction, SupervisorActorState};
use crate::text::same_text;
use crate::types::{ActorId, ChildSpec, ExitReason, Shutdown, SupervisorFlags};

verus! {

/// Failure to start a child from a supervisor.
#[derive(Debug, PartialEq, Eq)]
pub enum StartChildError {
    /// The runtime rejected the spawn request.
    SpawnRejected,
    /// The child is already running.
    AlreadyStarted(&'static str),
    /// The child failed during initialization.
    InitFailed(ExitReason),
}

impl Clone for StartChildError {
    fn clone(&self) -> (copy: Self)
        ensures
            copy == *self,
    {
        match self {
            StartChildError::SpawnRejected => StartChildError::SpawnRejected,
            StartChildError::AlreadyStarted(child_id) => StartChildError::AlreadyStarted(child_id),
            StartChildError::InitFailed(reason) => StartChildError::InitFailed(reason.clone()),
        }
    }
}

impl StartChildError {
    /// What a failed restart reports of the error.
    pub open spec fn text(self) -> Seq<char> {
        match self {
            StartChildError::SpawnRejected => "spawn rejected"@,
            StartChildError::AlreadyStarted(child_id) => "child `"@ + child_id@
                + "` already started"@,
            StartChildError::InitFailed(reason) => "init failed: "@ + reason.debug(),
        }
    }
}

/// Action a supervisor should take after observing a child exit.
#[derive(Debug, Clone, PartialEq, Eq)]
pub enum SupervisorDirective {
    /// No restart is needed.
    Ignore,
    /// Restart the listed child ids in order.
    Restart(Vec<&'static str>),
    /// Terminate the subtree.
    Shutdown(ExitReason),
}

/// What the supervisor wants its host to do next.
#[derive(Debug)]
pub enum SupervisorRequest {
    /// Start the child and answer with [`SupervisorActor::child_started`].
    StartChild(ChildSpec),
    /// Ask the runtime to stop the actor and answer with [`SupervisorActor::shutdown_answered`].
    ShutdownChild {
        /// The actor to stop.
        actor: ActorId,
        /// How to stop it.
        policy: Shutdown,
    },
    /// Ask the owner what to do and answer with [`SupervisorActor::decided`].
    Decide {
        /// The child that exited.
        spec: ChildSpec,
        /// The actor that it ran as.
        actor: ActorId,
        /// Why it exited.
        reason: ExitReason,
    },
    /// Count one restart and answer with [`SupervisorActor::restart_counted`].
    CountRestart,
    /// The turn is over.
    Finish(ActorTurn),
    /// The startup is over.
    Started(Result<(), ExitReason>),
}

/// What the supervisor tells the runtime on its way.
#[derive(Debug)]
pub enum SupervisorNotice {
    /// A child runs.
    ChildStarted {
        /// The child.
        child_id: &'static str,
        /// The actor that it runs as.
        actor: ActorId,
    },
    /// A child no longer runs.
    ChildExited {
        /// The child.
        child_id: &'static str,
        /// The actor that it ran as.
        actor: ActorId,
    },
    /// A child was started again.
    Restarted {
        /// The child.
        child_id: &'static str,
        /// The actor that it ran as before.
        old_actor: Option<ActorId>,
        /// The actor that it runs as now.
        new_actor: ActorId,
    },
}

/// One step of the supervisor: what to tell the runtime, and then what to do.
#[derive(Debug)]
pub struct SupervisorStep {
    /// What to tell the runtime, in order.
    pub notices: Vec<SupervisorNotice>,
    /// What to do next.
    pub request: SupervisorRequest,
}

/// The answer that the supervisor waits for.
#[derive(Debug)]
#[allow(inconsistent_fields)]
pub enum SupervisorWait {
    /// Nothing: the next event is an envelope.
    Idle,
    /// The start of a child during startup.
    Startup {
        /// The place of the child among the specs.
        index: usize,
    },
    /// The forced stop of a child after a failed startup.
    Abort {
        /// The children to stop after it.
        queue: VecDeque<&'static str>,
        /// Why the startup failed.
        reason: ExitReason,
    },
    /// The owner's decision about an exited child.
    Decision {
        /// The child.
        child_id: &'static str,
        /// The actor that it ran as.
        actor: ActorId,
    },
    /// Whether one more restart is within limits.
    Count {
        /// The children to restart, in start order.
        children: Vec<&'static str>,
        /// The child that failed.
        failed: Option<(&'static str, ActorId)>,
    },
    /// The stop of a child that is to be restarted.
    RestartShutdown {
        /// The restart under way.
        plan: RestartPlan,
        /// The child.
        child_id: &'static str,
        /// The actor that it runs as.
        actor: ActorId,
    },
    /// The start of a child that is being restarted.
    RestartStart {
        /// The restart under way.
        plan: RestartPlan,
        /// The child.
        child_id: &'static str,
    },
    /// The stop of a child before the supervisor stops.
    Shutdown {
        /// The shutdown under way.
        plan: ShutdownPlan,
        /// The child.
        child_id: &'static str,
        /// The actor that it runs as.
        actor: ActorId,
    },
}

/// Whether a reason is an error with the given detail.
pub open spec fn is_error(reason: ExitReason, detail: Seq<char>) -> bool {
    reason matches ExitReason::Error(text) && text@ == detail
}

/// The complaint about a child that exits in the middle of a restart.
pub open spec fn stray_text(child: Seq<char>) -> Seq<char> {
    "child `"@ + child + "` exited while a restart was in progress"@
}

/// The complaint about a child that cannot be started again.
pub open spec fn restart_failed_text(child: Seq<char>, error: StartChildError) -> Seq<char> {
    "failed to restart child `"@ + child + "`: "@ + error.text()
}

/// The complaint about a child without a spec.
pub open spec fn unknown_child_text(child: Seq<char>) -> Seq<char> {
    "unknown child spec `"@ + child + "`"@
}

/// Why a startup fails when a child cannot be started.
pub open spec fn startup_failure(child: Seq<char>, error: StartChildError, reason: ExitReason) -> bool {
    match error {
        StartChildError::SpawnRejected => is_error(
            reason,
            "supervisor rejected child spawn for `"@ + child + "`"@,
        ),
        StartChildError::AlreadyStarted(started) => is_error(
            reason,
            "supervisor child `"@ + started@ + "` is already running"@,
        ),
        StartChildError::InitFailed(cause) => reason == cause,
    }
}

fn start_child_failure(spec: &ChildSpec, error: StartChildError) -> (reason: ExitReason)
    ensures
        startup_failure(spec.id@, error, reason),
{
    match error {
        StartChildError::SpawnRejected => {
            let mut text = String::new();
            text.append("supervisor rejected child spawn for `");
            text.append(spec.id);
            text.append("`");
            assert(text@ =~= "supervisor rejected child spawn for `"@ + spec.id@ + "`"@);
            ExitReason::Error(text)
        },
        StartChildError::AlreadyStarted(child_id) => {
            let mut text = String::new();
            text.append("supervisor child `");
            text.append(child_id);
            text.append("` is already running");
            assert(text@ =~= "supervisor child `"@ + child_id@ + "` is already running"@);
            ExitReason::Error(text)
        },
        StartChildError::InitFailed(reason) => reason,
    }
}

fn format_start_child_error(error: &StartChildError) -> (text: String)
    ensures
        text@ == error.text(),
{
    let mut text = String::new();
    match error {
        StartChildError::SpawnRejected => {
            text.append("spawn rejected");
        },
        StartChildError::AlreadyStarted(child_id) => {
            text.append("child `");
            text.append(child_id);
            text.append("` already started");
        },
        StartChildError::InitFailed(reason) => {
            text.append("init failed: ");
            reason.push_debug_to(&mut text);
        },
    }
    assert(text@ =~= error.text());
    text
}

fn restart_failure(child_id: &'static str, error: &StartChildError) -> (reason: ExitReason)
    ensures
        is_error(reason, restart_failed_text(child_id@, *error)),
{
    let detail = format_start_child_error(error);
    let mut text = String::new();
    text.append("failed to restart child `");
    text.append(child_id);
    text.append("`: ");
    text.append(detail.as_str());
    assert(text@ =~= restart_failed_text(child_id@, *error));
    ExitReason::Error(text)
}

fn stray_exit(child_id: &'static str) -> (reason: ExitReason)
    ensures
        is_error(reason, stray_text(child_id@)),
{
    let mut text = String::new();
    text.append("child `");
    text.append(child_id);
    text.append("` exited while a restart was in progress");
    assert(text@ =~= stray_text(child_id@));
    ExitReason::Error(text)
}

fn unknown_child(child_id: &'static str) -> (error: StartChildError)
    ensures
        error matches StartChildError::InitFailed(reason) && is_error(
            reason,
            unknown_child_text(child_id@),
        ),
{
    let mut text = String::new();
    text.append("unknown child spec `");
    text.append(child_id);
    text.append("`");
    assert(text@ =~= unknown_child_text(child_id@));
    StartChildError::InitFailed(ExitReason::Error(text))
}

/// A shutdown queue once the children in front that no longer run are passed over.
pub open spec fn settled(queue: Seq<&'static str>, running: Map<Seq<char>, ActorId>) -> Seq<
    &'static str,
>
    decreases queue.len(),
{
    if queue.len() == 0 || running.contains_key(queue[0]@) {
        queue
    } else {
        let rest = crate::supervisor::plan::without(queue.drop_first(), queue[0]@);
        if rest.len() < queue.len() {
            settled(rest, running)
        } else {
            rest
        }
    }
}

/// What comes next in a restart.
pub enum RestartNext {
    /// Stop the first child of the queue.
    Stop(Seq<&'static str>),
    /// All children have stopped: start them.
    Start,
    /// A child is gone that nobody asked to stop.
    Stray(&'static str),
}

/// What comes next in a restart with the given queue of children to stop.
pub open spec fn restart_next(
    queue: Seq<&'static str>,
    running: Map<Seq<char>, ActorId>,
) -> RestartNext
    decreases queue.len(),
{
    if queue.len() == 0 {
        RestartNext::Start
    } else if running.contains_key(queue[0]@) {
        RestartNext::Stop(queue)
    } else {
        let rest = queue.drop_first();
        let place = crate::supervisor::plan::queue_place(rest, queue[0]@);
        if place < rest.len() {
            restart_next(rest.remove(place as int), running)
        } else {
            RestartNext::Stray(queue[0])
        }
    }
}

/// A queue from the first child on that still runs.
pub open spec fn from_running(queue: Seq<&'static str>, running: Map<Seq<char>, ActorId>) -> Seq<
    &'static str,
>
    decreases queue.len(),
{
    if queue.len() == 0 || running.contains_key(queue[0]@) {
        queue
    } else {
        from_running(queue.drop_first(), running)
    }
}

/// What becomes of an attempt to start a child: the actor has to be the one that was spawned.
pub open spec fn start_outcome(
    started: Result<ActorId, StartChildError>,
    spawned: Option<ActorId>,
) -> Result<ActorId, StartChildError> {
    match started {
        Ok(actor) => if spawned == Some(actor) {
            Ok(actor)
        } else {
            Err(StartChildError::SpawnRejected)
        },
        Err(error) => Err(error),
    }
}

fn accept_start(
    started: Result<ActorId, StartChildError>,
    spawned: Option<ActorId>,
) -> (outcome: Result<ActorId, StartChildError>)
    ensures
        outcome == start_outcome(started, spawned),
{
    match started {
        Ok(actor) => match spawned {
            Some(other) => if other == actor {
                Ok(actor)
            } else {
                Err(StartChildError::SpawnRejected)
            },
            None => Err(StartChildError::SpawnRejected),
        },
        Err(error) => Err(error),
    }
}

/// The actor that a child ran as before a restart.
pub open spec fn previous_actor(
    running: Map<Seq<char>, ActorId>,
    failed: Option<(&'static str, ActorId)>,
    child: Seq<char>,
) -> Option<ActorId> {
    if running.contains_key(child) {
        Some(running[child])
    } else {
        match failed {
            Some((failed_child, actor)) => if failed_child@ == child {
                Some(actor)
            } else {
                None
            },
            None => None,
        }
    }
}

/// The actors that the given children ran as before a restart.
pub open spec fn previous_actors(
    running: Map<Seq<char>, ActorId>,
    failed: Option<(&'static str, ActorId)>,
    children: Seq<&'static str>,
) -> Map<Seq<char>, Option<ActorId>> {
    Map::new(
        |child: Seq<char>| crate::supervisor::state::mentions(children, child),
        |child: Seq<char>| previous_actor(running, failed, child),
    )
}

/// Actor adapter that executes a typed supervisor on the runtime.
#[derive(Debug)]
pub struct SupervisorActor<S> {
    /// The supervisor that starts children and decides about their exits.
    pub supervisor: S,
    /// What is known of the children.
    pub state: SupervisorActorState,
    /// The answer that is waited for.
    pub wait: SupervisorWait,
}

impl<S> SupervisorActor<S> {
    /// The spec of a child.
    pub open spec fn spec_of(self, child: Seq<char>) -> ChildSpec {
        self.state.specs@[crate::supervisor::scope::first_place(self.state.specs@, child) as int]
    }

    /// Whether the children, their specs and the owner are as in another state.
    pub open spec fn same_children(self, other: SupervisorActor<S>) -> bool {
        &&& self.supervisor == other.supervisor
        &&& self.state.flags == other.state.flags
        &&& self.state.specs == other.state.specs
        &&& self.state.running == other.state.running
        &&& self.state.by_actor == other.state.by_actor
    }

    /// Whether the next request is to stop the first child of a queue on the way to stopping
    /// with the given reason, or to stop at once when the queue is empty.
    pub open spec fn stops(
        self,
        request: SupervisorRequest,
        queue: Seq<&'static str>,
        reason: ExitReason,
    ) -> bool {
        if queue.len() == 0 {
            &&& request == SupervisorRequest::Finish(ActorTurn::Stop(reason))
            &&& self.wait is Idle
        } else {
            &&& request == SupervisorRequest::ShutdownChild {
                actor: self.state.running@[queue[0]@],
                policy: self.spec_of(queue[0]@).shutdown,
            }
            &&& self.wait matches SupervisorWait::Shutdown { plan, child_id, actor }
            &&& child_id == queue[0]
            &&& actor == self.state.running@[queue[0]@]
            &&& plan.active_child == Some(queue[0])
            &&& plan.shutdown_queue@ == queue.drop_first()
            &&& plan.final_reason == reason
        }
    }

    /// Whether the supervisor begins to stop all its children, the one started last first.
    pub open spec fn stops_all(self, request: SupervisorRequest, reason: ExitReason) -> bool {
        self.stops(
            request,
            crate::supervisor::state::all_running_reversed(
                self.state.specs@,
                self.state.running@,
            ),
            reason,
        )
    }

    /// Whether the supervisor begins to stop all its children because of an error.
    pub open spec fn stops_all_with(self, request: SupervisorRequest, detail: Seq<char>) -> bool {
        exists|reason: ExitReason|
            #[trigger] is_error(reason, detail) && self.stops_all(request, reason)
    }

    /// Whether the next request starts the first child of a restart queue.
    pub open spec fn starts(
        self,
        request: SupervisorRequest,
        queue: Seq<&'static str>,
        old_children: Map<Seq<char>, Option<ActorId>>,
    ) -> bool {
        if queue.len() == 0 {
            request == SupervisorRequest::Finish(ActorTurn::Continue) && self.wait is Idle
        } else if self.state.running@.contains_key(queue[0]@) {
            self.stops_all_with(
                request,
                restart_failed_text(queue[0]@, StartChildError::AlreadyStarted(queue[0])),
            )
        } else if crate::supervisor::scope::has_spec(self.state.specs@, queue[0]@) {
            &&& request == SupervisorRequest::StartChild(self.spec_of(queue[0]@))
            &&& self.wait matches SupervisorWait::RestartStart { plan, child_id }
            &&& child_id == queue[0]
            &&& plan.restart_queue@ == queue.drop_first()
            &&& plan.old_children@ == old_children
        } else {
            exists|error: StartChildError|
                {
                    &&& error matches StartChildError::InitFailed(reason) && is_error(
                        reason,
                        unknown_child_text(queue[0]@),
                    )
                    &&& self.stops_all_with(
                        request,
                        #[trigger] restart_failed_text(queue[0]@, error),
                    )
                }
        }
    }

    /// Whether a restart goes on: with the next child to stop, with the first one to start, or
    /// with a shutdown when a child is gone that nobody asked to stop.
    pub open spec fn restarts(
        self,
        request: SupervisorRequest,
        queue: Seq<&'static str>,
        restart_queue: Seq<&'static str>,
        old_children: Map<Seq<char>, Option<ActorId>>,
    ) -> bool {
        match restart_next(queue, self.state.running@) {
            RestartNext::Stop(queue) => {
                &&& request == SupervisorRequest::ShutdownChild {
                    actor: self.state.running@[queue[0]@],
                    policy: self.spec_of(queue[0]@).shutdown,
                }
                &&& self.wait matches SupervisorWait::RestartShutdown { plan, child_id, actor }
                &&& child_id == queue[0]
                &&& actor == self.state.running@[queue[0]@]
                &&& plan.active_shutdown == Some(queue[0])
                &&& plan.shutdown_queue@ == queue.drop_first()
                &&& plan.restart_queue@ == restart_queue
                &&& plan.old_children@ == old_children
            },
            RestartNext::Start => self.starts(request, restart_queue, old_children),
            RestartNext::Stray(child) => self.stops_all_with(request, stray_text(child@)),
        }
    }

    /// Whether every child that is running, tracked or being started has a spec.
    pub open spec fn wf(self) -> bool {
        &&& self.state.has_specs()
        &&& match self.wait {
            SupervisorWait::Startup { index } => index < self.state.specs@.len(),
            SupervisorWait::RestartStart { child_id, .. } => crate::supervisor::scope::has_spec(
                self.state.specs@,
                child_id@,
            ),
            _ => true,
        }
    }

    /// Wraps a typed supervisor as a low-level actor.
    pub fn new(supervisor: S, flags: SupervisorFlags, specs: Vec<ChildSpec>) -> (actor: Self)
        ensures
            actor.supervisor == supervisor,
            actor.state.flags == flags,
            actor.state.specs == specs,
            actor.state.running@ == Map::<Seq<char>, ActorId>::empty(),
            actor.state.by_actor@ == Map::<ActorId, &'static str>::empty(),
            actor.state.action is None,
            actor.state.paired(),
            actor.wait is Idle,
            actor.wf(),
    {
        SupervisorActor {
            supervisor,
            state: SupervisorActorState::new(flags, specs),
            wait: SupervisorWait::Idle,
        }
    }

    /// Begins to stop all children and then the supervisor.
    fn begin_shutdown(&mut self, reason: ExitReason) -> (request: SupervisorRequest)
        requires
            old(self).state.has_specs(),
        ensures
            final(self).same_children(*old(self)),
            final(self).state.action == old(self).state.action,
            final(self).stops_all(request, reason),
    {
        let shutdown_queue = self.state.all_running_reverse();
        let ghost queue = shutdown_queue@;
        proof {
            let all = crate::supervisor::scope::ids(self.state.specs@).reverse();
            let keep = |id: &'static str| self.state.running@.contains_key(id@);
            broadcast use vstd::seq_lib::group_filter_ensures;

            assert(queue == all.filter(keep));
            if queue.len() > 0 {
                assert(keep(queue[0]));
            }
        }
        self.next_shutdown(ShutdownPlan { active_child: None, shutdown_queue, final_reason: reason })
    }

    /// Moves a shutdown on to the next child that still runs.
    fn next_shutdown(&mut self, initial: ShutdownPlan) -> (request: SupervisorRequest)
        requires
            old(self).state.has_specs(),
        ensures
            final(self).same_children(*old(self)),
            final(self).state.action == old(self).state.action,
            final(self).stops(
                request,
                settled(initial.shutdown_queue@, old(self).state.running@),
                initial.final_reason,
            ),
    {
        let mut plan = initial;
        loop
            invariant
                *self == *old(self),
                self.state.has_specs(),
                plan.final_reason == initial.final_reason,
                settled(plan.shutdown_queue@, self.state.running@) == settled(
                    initial.shutdown_queue@,
                    self.state.running@,
                ),
            ensures
                plan.shutdown_queue@.len() == 0,
            decreases plan.shutdown_queue@.len(),
        {
            let ghost queue = plan.shutdown_queue@;
            let next = plan.next_child();
            match next {
                Some(child_id) => {
                    match self.state.running_actor(child_id) {
                        Some(actor) => {
                            let policy: Shutdown = match self.state.spec(child_id) {
                                Some(spec) => spec.shutdown,
                                None => Shutdown::Infinity,
                            };
                            self.wait = SupervisorWait::Shutdown { plan, child_id, actor };
                            return SupervisorRequest::ShutdownChild { actor, policy };
                        },
                        None => {
                            plan.active_child = None;
                            plan.complete_child(child_id);
                            proof {
                                crate::supervisor::plan::lemma_queue_place(
                                    queue.drop_first(),
                                    child_id@,
                                );
                            }
                        },
                    }
                },
                None => {
                    break ;
                },
            }
        }
        self.wait = SupervisorWait::Idle;
        SupervisorRequest::Finish(ActorTurn::Stop(plan.final_reason))
    }

    /// Moves a restart on to the next child that still runs, or to the start of the children.
    fn next_restart_shutdown(&mut self, initial: RestartPlan) -> (request: SupervisorRequest)
        requires
            old(self).state.has_specs(),
        ensures
            final(self).same_children(*old(self)),
            final(self).state.action == old(self).state.action,
            final(self).restarts(
                request,
                initial.shutdown_queue@,
                initial.restart_queue@,
                initial.old_children@,
            ),
    {
        let mut plan = initial;
        loop
            invariant
                *self == *old(self),
                self.state.has_specs(),
                plan.restart_queue@ == initial.restart_queue@,
                plan.old_children@ == initial.old_children@,
                restart_next(plan.shutdown_queue@, self.state.running@) == restart_next(
                    initial.shutdown_queue@,
                    self.state.running@,
                ),
            ensures
                plan.shutdown_queue@.len() == 0,
            decreases plan.shutdown_queue@.len(),
        {
            let ghost queue = plan.shutdown_queue@;
            let next = plan.next_shutdown();
            match next {
                Some(child_id) => {
                    match self.state.running_actor(child_id) {
                        Some(actor) => {
                            let policy: Shutdown = match self.state.spec(child_id) {
                                Some(spec) => spec.shutdown,
                                None => Shutdown::Infinity,
                            };
                            self.wait = SupervisorWait::RestartShutdown { plan, child_id, actor };
                            return SupervisorRequest::ShutdownChild { actor, policy };
                        },
                        None => {
                            plan.active_shutdown = None;
                            proof {
                                crate::supervisor::plan::lemma_queue_place(
                                    queue.drop_first(),
                                    child_id@,
                                );
                            }
                            match plan.complete_shutdown(child_id) {
                                Ok(()) => {},
                                Err(_unexpected) => {
                                    let reason = stray_exit(child_id);
                                    return self.begin_shutdown(reason);
                                },
                            }
                        },
                    }
                },
                None => {
                    break ;
                },
            }
        }
        self.start_next(plan)
    }

    /// Starts the next child of a restart.
    fn start_next(&mut self, plan: RestartPlan) -> (request: SupervisorRequest)
        requires
            old(self).state.has_specs(),
        ensures
            final(self).same_children(*old(self)),
            final(self).state.action == old(self).state.action,
            final(self).starts(request, plan.restart_queue@, plan.old_children@),
    {
        let ghost queue = plan.restart_queue@;
        let mut plan = plan;
        match plan.restart_queue.pop_front() {
            Some(child_id) => {
                assert(plan.restart_queue@ =~= queue.drop_first());
                if self.state.running.contains(child_id) {
                    let reason = restart_failure(
                        child_id,
                        &StartChildError::AlreadyStarted(child_id),
                    );
                    return self.begin_shutdown(reason);
                }
                match self.state.spec(child_id) {
                    Some(spec) => {
                        self.wait = SupervisorWait::RestartStart { plan, child_id };
                        SupervisorRequest::StartChild(spec)
                    },
                    None => {
                        let error = unknown_child(child_id);
                        let reason = restart_failure(child_id, &error);
                        let request = self.begin_shutdown(reason);
                        proof {
                            assert(is_error(reason, restart_failed_text(queue[0]@, error)));
                            assert(self.stops_all_with(
                                request,
                                restart_failed_text(queue[0]@, error),
                            ));
                        }
                        request
                    },
                }
            },
            None => {
                self.wait = SupervisorWait::Idle;
                SupervisorRequest::Finish(ActorTurn::Continue)
            },
        }
    }

    /// Whether the next request is to kill the first running child of a queue after a failed
    /// startup, or to report the failure when none is left.
    pub open spec fn aborts(
        self,
        request: SupervisorRequest,
        queue: Seq<&'static str>,
        reason: ExitReason,
    ) -> bool {
        let left = from_running(queue, self.state.running@);
        if left.len() == 0 {
            request == SupervisorRequest::Started(Err(reason)) && self.wait is Idle
        } else {
            &&& request == SupervisorRequest::ShutdownChild {
                actor: self.state.running@[left[0]@],
                policy: Shutdown::BrutalKill,
            }
            &&& self.wait matches SupervisorWait::Abort { queue: later, reason: why }
            &&& later@ == left.drop_first()
            &&& why == reason
        }
    }

    /// Whether the startup fails: all running children are killed, the one started last first.
    pub open spec fn fails_startup(
        self,
        request: SupervisorRequest,
        child: Seq<char>,
        error: StartChildError,
    ) -> bool {
        exists|reason: ExitReason|
            {
                &&& #[trigger] startup_failure(child, error, reason)
                &&& self.aborts(
                    request,
                    crate::supervisor::state::all_running_reversed(
                self.state.specs@,
                self.state.running@,
            ),
                    reason,
                )
            }
    }

    /// Whether the startup goes on with the child at a place.
    pub open spec fn starts_up(self, request: SupervisorRequest, index: int) -> bool {
        if index >= self.state.specs@.len() {
            request == SupervisorRequest::Started(Ok(())) && self.wait is Idle
        } else {
            let child = self.state.specs@[index].id;
            if self.state.running@.contains_key(child@) {
                self.fails_startup(request, child@, StartChildError::AlreadyStarted(child))
            } else {
                &&& request == SupervisorRequest::StartChild(self.spec_of(child@))
                &&& self.wait matches SupervisorWait::Startup { index: at }
                &&& at == index
            }
        }
    }

    /// Kills the next running child after a failed startup.
    fn next_abort(&mut self, initial: VecDeque<&'static str>, reason: ExitReason) -> (request:
        SupervisorRequest)
        ensures
            final(self).same_children(*old(self)),
            final(self).state.action == old(self).state.action,
            final(self).aborts(request, initial@, reason),
    {
        let mut queue = initial;
        loop
            invariant
                *self == *old(self),
                from_running(queue@, self.state.running@) == from_running(
                    initial@,
                    self.state.running@,
                ),
            ensures
                queue@.len() == 0,
            decreases queue@.len(),
        {
            let ghost before = queue@;
            match queue.pop_front() {
                Some(child_id) => {
                    assert(queue@ =~= before.drop_first());
                    if let Some(actor) = self.state.running_actor(child_id) {
                        self.wait = SupervisorWait::Abort { queue, reason };
                        return SupervisorRequest::ShutdownChild {
                            actor,
                            policy: Shutdown::BrutalKill,
                        };
                    }
                },
                None => {
                    break ;
                },
            }
        }
        self.wait = SupervisorWait::Idle;
        SupervisorRequest::Started(Err(reason))
    }

    /// Gives the startup up.
    fn abort_startup(&mut self, spec: &ChildSpec, error: StartChildError) -> (request:
        SupervisorRequest)
        ensures
            final(self).same_children(*old(self)),
            final(self).state.action == old(self).state.action,
            final(self).fails_startup(request, spec.id@, error),
    {
        let reason = start_child_failure(spec, error);
        let queue = self.state.all_running_reverse();
        self.next_abort(queue, reason)
    }

    /// Starts the child at a place during startup.
    fn next_startup(&mut self, index: usize) -> (request: SupervisorRequest)
        ensures
            final(self).same_children(*old(self)),
            final(self).state.action == old(self).state.action,
            final(self).starts_up(request, index as int),
    {
        if index >= self.state.specs.len() {
            self.wait = SupervisorWait::Idle;
            return SupervisorRequest::Started(Ok(()));
        }
        let spec = self.state.specs[index];
        if self.state.running.contains(spec.id) {
            return self.abort_startup(&spec, StartChildError::AlreadyStarted(spec.id));
        }
        assert(crate::supervisor::scope::has_spec(self.state.specs@, spec.id@));
        match self.state.spec(spec.id) {
            Some(found) => {
                self.wait = SupervisorWait::Startup { index };
                SupervisorRequest::StartChild(found)
            },
            None => {
                SupervisorRequest::StartChild(spec)
            },
        }
    }

    /// Begins the startup: the children start in the order of their specs.
    pub fn init(&mut self) -> (step: SupervisorStep)
        requires
            old(self).wf(),
            old(self).wait is Idle,
        ensures
            final(self).wf(),
            final(self).same_children(*old(self)),
            final(self).state.action == old(self).state.action,
            step.notices@ == Seq::<SupervisorNotice>::empty(),
            final(self).starts_up(step.request, 0),
    {
        let request = self.next_startup(0);
        SupervisorStep { notices: Vec::new(), request }
    }

    /// Takes the answer to a [`SupervisorRequest::StartChild`]: what the owner returned, and the
    /// actor that it spawned on the way, if any.
    pub fn child_started(
        &mut self,
        started: Result<ActorId, StartChildError>,
        spawned: Option<ActorId>,
    ) -> (step: SupervisorStep)
        requires
            old(self).wf(),
            old(self).wait is Startup || old(self).wait is RestartStart,
        ensures
            final(self).supervisor == old(self).supervisor,
            final(self).state.flags == old(self).state.flags,
            final(self).state.specs == old(self).state.specs,
            final(self).state.action == old(self).state.action,
            match (old(self).wait, start_outcome(started, spawned)) {
                (SupervisorWait::Startup { index }, Ok(actor)) => {
                    let child_id = old(self).state.specs@[index as int].id;
                    &&& final(self).state.running@ == old(self).state.running@.insert(
                        child_id@,
                        actor,
                    )
                    &&& final(self).state.by_actor@ == old(self).state.by_actor@.insert(
                        actor,
                        child_id,
                    )
                    &&& step.notices@ == seq![SupervisorNotice::ChildStarted { child_id, actor }]
                    &&& final(self).starts_up(step.request, index + 1)
                },
                (SupervisorWait::Startup { index }, Err(error)) => {
                    &&& final(self).same_children(*old(self))
                    &&& step.notices@ == Seq::<SupervisorNotice>::empty()
                    &&& final(self).fails_startup(
                        step.request,
                        old(self).state.specs@[index as int].id@,
                        error,
                    )
                },
                (SupervisorWait::RestartStart { plan, child_id }, Ok(actor)) => {
                    &&& final(self).state.running@ == old(self).state.running@.insert(
                        child_id@,
                        actor,
                    )
                    &&& final(self).state.by_actor@ == old(self).state.by_actor@.insert(
                        actor,
                        child_id,
                    )
                    &&& step.notices@ == seq![
                        SupervisorNotice::ChildStarted { child_id, actor },
                        SupervisorNotice::Restarted {
                            child_id,
                            old_actor: if plan.old_children@.contains_key(child_id@) {
                                plan.old_children@[child_id@]
                            } else {
                                None
                            },
                            new_actor: actor,
                        },
                    ]
                    &&& final(self).starts(
                        step.request,
                        plan.restart_queue@,
                        plan.old_children@,
                    )
                },
                (SupervisorWait::RestartStart { plan, child_id }, Err(error)) => {
                    &&& final(self).same_children(*old(self))
                    &&& step.notices@ == Seq::<SupervisorNotice>::empty()
                    &&& final(self).stops_all_with(
                        step.request,
                        restart_failed_text(child_id@, error),
                    )
                },
                _ => true,
            },
            final(self).wf(),
    {
        let mut wait = SupervisorWait::Idle;
        std::mem::swap(&mut self.wait, &mut wait);
        let mut notices: Vec<SupervisorNotice> = Vec::new();
        match wait {
            SupervisorWait::Startup { index } => {
                let spec = self.state.specs[index];
                match accept_start(started, spawned) {
                    Ok(actor) => {
                        assert(crate::supervisor::scope::has_spec(self.state.specs@, spec.id@));
                        self.state.remember_child(spec.id, actor);
                        notices.push(SupervisorNotice::ChildStarted { child_id: spec.id, actor });
                        assert(index < self.state.specs.len());
                        let request = self.next_startup(index + 1);
                        assert(notices@ =~= seq![
                            SupervisorNotice::ChildStarted { child_id: spec.id, actor },
                        ]);
                        SupervisorStep { notices, request }
                    },
                    Err(error) => {
                        let request = self.abort_startup(&spec, error);
                        SupervisorStep { notices, request }
                    },
                }
            },
            SupervisorWait::RestartStart { plan, child_id } => {
                match accept_start(started, spawned) {
                    Ok(actor) => {
                        let old_actor = match plan.old_children.get(child_id) {
                            Some(known) => known,
                            None => None,
                        };
                        self.state.remember_child(child_id, actor);
                        notices.push(SupervisorNotice::ChildStarted { child_id, actor });
                        notices.push(
                            SupervisorNotice::Restarted { child_id, old_actor, new_actor: actor },
                        );
                        assert(notices@ =~= seq![
                            SupervisorNotice::ChildStarted { child_id, actor },
                            SupervisorNotice::Restarted { child_id, old_actor, new_actor: actor },
                        ]);
                        let request = self.start_next(plan);
                        SupervisorStep { notices, request }
                    },
                    Err(error) => {
                        let reason = restart_failure(child_id, &error);
                        let request = self.begin_shutdown(reason);
                        SupervisorStep { notices, request }
                    },
                }
            },
            _ => SupervisorStep {
                notices,
                request: SupervisorRequest::Finish(ActorTurn::Continue),
            },
        }
    }

    /// Takes the answer to a [`SupervisorRequest::ShutdownChild`]: whether the runtime accepted it.
    pub fn shutdown_answered(&mut self, accepted: bool) -> (step: SupervisorStep)
        requires
            old(self).wf(),
            old(self).wait is Shutdown || old(self).wait is RestartShutdown || old(
                self,
            ).wait is Abort,
        ensures
            final(self).wf(),
            final(self).supervisor == old(self).supervisor,
            final(self).state.flags == old(self).state.flags,
            final(self).state.specs == old(self).state.specs,
            step.notices@ == Seq::<SupervisorNotice>::empty(),
            match old(self).wait {
                SupervisorWait::Shutdown { plan, child_id, actor } => if accepted {
                    &&& final(self).awaits_exit(*old(self))
                    &&& step.request == SupervisorRequest::Finish(ActorTurn::Continue)
                } else {
                    &&& final(self).forgot(*old(self), actor)
                    &&& final(self).state.action == old(self).state.action
                    &&& final(self).stops(
                        step.request,
                        settled(
                            crate::supervisor::plan::without(plan.shutdown_queue@, child_id@),
                            final(self).state.running@,
                        ),
                        plan.final_reason,
                    )
                },
                SupervisorWait::RestartShutdown { plan, child_id, actor } => if accepted {
                    &&& final(self).same_children(*old(self))
                    &&& final(self).state.action == Some(SupervisorAction::Restart(plan))
                    &&& step.request == SupervisorRequest::Finish(ActorTurn::Continue)
                    &&& final(self).wait is Idle
                } else {
                    &&& final(self).forgot(*old(self), actor)
                    &&& final(self).state.action == old(self).state.action
                    &&& if crate::supervisor::plan::queue_place(plan.shutdown_queue@, child_id@)
                        < plan.shutdown_queue@.len() {
                        final(self).restarts(
                            step.request,
                            crate::supervisor::plan::without(plan.shutdown_queue@, child_id@),
                            plan.restart_queue@,
                            plan.old_children@,
                        )
                    } else {
                        final(self).stops_all_with(step.request, stray_text(child_id@))
                    }
                },
                SupervisorWait::Abort { queue, reason } => {
                    &&& final(self).same_children(*old(self))
                    &&& final(self).state.action == old(self).state.action
                    &&& final(self).aborts(step.request, queue@, reason)
                },
                _ => true,
            },
    {
        let mut wait = SupervisorWait::Idle;
        std::mem::swap(&mut self.wait, &mut wait);
        let request = match wait {
            SupervisorWait::Shutdown { plan, child_id, actor } => {
                if accepted {
                    self.state.action = Some(SupervisorAction::Shutdown(plan));
                    SupervisorRequest::Finish(ActorTurn::Continue)
                } else {
                    let _child = self.state.forget_child_actor(actor);
                    let mut plan = plan;
                    plan.active_child = None;
                    plan.complete_child(child_id);
                    self.next_shutdown(plan)
                }
            },
            SupervisorWait::RestartShutdown { plan, child_id, actor } => {
                if accepted {
                    self.state.action = Some(SupervisorAction::Restart(plan));
                    SupervisorRequest::Finish(ActorTurn::Continue)
                } else {
                    let _child = self.state.forget_child_actor(actor);
                    let mut plan = plan;
                    plan.active_shutdown = None;
                    match plan.complete_shutdown(child_id) {
                        Ok(()) => self.next_restart_shutdown(plan),
                        Err(_unexpected) => {
                            let reason = stray_exit(child_id);
                            self.begin_shutdown(reason)
                        },
                    }
                }
            },
            SupervisorWait::Abort { queue, reason } => self.next_abort(queue, reason),
            _ => SupervisorRequest::Finish(ActorTurn::Continue),
        };
        SupervisorStep { notices: Vec::new(), request }
    }

    /// Whether the supervisor waits for the exit of the child that it has asked to stop before it
    /// stops itself.
    pub open spec fn awaits_exit(self, asked: SupervisorActor<S>) -> bool {
        &&& asked.wait matches SupervisorWait::Shutdown { plan, .. }
        &&& self.same_children(asked)
        &&& self.state.action == Some(SupervisorAction::Shutdown(plan))
        &&& self.wait is Idle
    }

    /// Whether an actor is no longer tracked, and nothing else of the children has changed.
    pub open spec fn forgot(self, before: SupervisorActor<S>, actor: ActorId) -> bool {
        &&& self.state.by_actor@ == before.state.by_actor@.remove(actor)
        &&& self.state.running@ == (if before.state.by_actor@.contains_key(actor) {
            before.state.running@.remove(before.state.by_actor@[actor]@)
        } else {
            before.state.running@
        })
    }

    /// Whether a restart of the requested children begins: with a question about the limits,
    /// or not at all when none of them has a spec.
    pub open spec fn begins_restart(
        self,
        request: SupervisorRequest,
        requested: Seq<&'static str>,
        failed: Option<(&'static str, ActorId)>,
    ) -> bool {
        let children = crate::supervisor::state::in_start_order(self.state.specs@, requested);
        if children.len() == 0 {
            request == SupervisorRequest::Finish(ActorTurn::Continue) && self.wait is Idle
        } else {
            &&& request == SupervisorRequest::CountRestart
            &&& self.wait matches SupervisorWait::Count { children: waiting, failed: child }
            &&& waiting@ == children
            &&& child == failed
        }
    }

    /// Begins the restart of the requested children.
    fn begin_restart(
        &mut self,
        requested: Vec<&'static str>,
        failed: Option<(&'static str, ActorId)>,
    ) -> (request: SupervisorRequest)
        ensures
            final(self).same_children(*old(self)),
            final(self).state.action == old(self).state.action,
            final(self).begins_restart(request, requested@, failed),
    {
        let children = self.state.ordered_child_ids(requested.as_slice());
        if children.len() == 0 {
            self.wait = SupervisorWait::Idle;
            return SupervisorRequest::Finish(ActorTurn::Continue);
        }
        self.wait = SupervisorWait::Count { children, failed };
        SupervisorRequest::CountRestart
    }

    /// Takes the answer to a [`SupervisorRequest::Decide`].
    pub fn decided(&mut self, directive: SupervisorDirective) -> (step: SupervisorStep)
        requires
            old(self).wf(),
            old(self).wait is Decision,
        ensures
            final(self).wf(),
            final(self).same_children(*old(self)),
            final(self).state.action == old(self).state.action,
            step.notices@ == Seq::<SupervisorNotice>::empty(),
            old(self).wait matches SupervisorWait::Decision { child_id, actor } && match directive {
                SupervisorDirective::Ignore => step.request == SupervisorRequest::Finish(
                    ActorTurn::Continue,
                ) && final(self).wait is Idle,
                SupervisorDirective::Restart(children) => final(self).begins_restart(
                    step.request,
                    children@,
                    Some((child_id, actor)),
                ),
                SupervisorDirective::Shutdown(reason) => final(self).stops_all(
                    step.request,
                    reason,
                ),
            },
            directive is Ignore ==> step.request == SupervisorRequest::Finish(ActorTurn::Continue),
            directive matches SupervisorDirective::Shutdown(reason) ==> ((forall|child: Seq<char>|
                !#[trigger] old(self).state.running@.contains_key(child)) ==> step.request
                == SupervisorRequest::Finish(ActorTurn::Stop(reason))),
    {
        proof {
            if forall|child: Seq<char>| !#[trigger] self.state.running@.contains_key(child) {
                super::decision_laws::lemma_nothing_runs_nothing_stops(
                    self.state.specs@,
                    self.state.running@,
                );
            }
        }
        let mut wait = SupervisorWait::Idle;
        std::mem::swap(&mut self.wait, &mut wait);
        let request = match wait {
            SupervisorWait::Decision { child_id, actor } => match directive {
                SupervisorDirective::Ignore => SupervisorRequest::Finish(ActorTurn::Continue),
                SupervisorDirective::Restart(children) => self.begin_restart(
                    children,
                    Some((child_id, actor)),
                ),
                SupervisorDirective::Shutdown(reason) => self.begin_shutdown(reason),
            },
            _ => SupervisorRequest::Finish(ActorTurn::Continue),
        };
        SupervisorStep { notices: Vec::new(), request }
    }

    /// Notes the actors that children ran as.
    fn note_previous(
        &self,
        children: &Vec<&'static str>,
        failed: Option<(&'static str, ActorId)>,
    ) -> (known: AssocMap<&'static str, Option<ActorId>>)
        ensures
            known@ == previous_actors(self.state.running@, failed, children@),
    {
        let mut known: AssocMap<&'static str, Option<ActorId>> = AssocMap::new();
        let mut at: usize = 0;
        proof {
            assert(known@ =~= previous_actors(
                self.state.running@,
                failed,
                children@.take(0),
            ));
        }
        while at < children.len()
            invariant
                at <= children@.len(),
                known@ == previous_actors(self.state.running@, failed, children@.take(at as int)),
            decreases children@.len() - at,
        {
            let child_id = children[at];
            let actor: Option<ActorId> = match self.state.running_actor(child_id) {
                Some(actor) => Some(actor),
                None => match failed {
                    Some((failed_child, actor)) => if same_text(failed_child, child_id) {
                        Some(actor)
                    } else {
                        None
                    },
                    None => None,
                },
            };
            let ghost before = known@;
            known.insert(child_id, actor);
            proof {
                let fewer = children@.take(at as int);
                let more = children@.take(at + 1);
                assert forall|child: Seq<char>| #[trigger]
                    crate::supervisor::state::mentions(more, child) <==> (
                crate::supervisor::state::mentions(fewer, child) || child == child_id@) by {
                    if crate::supervisor::state::mentions(fewer, child) {
                        let i = choose|i: int|
                            0 <= i < fewer.len() && (#[trigger] fewer[i])@ == child;
                        assert(more[i]@ == child);
                    }
                    if crate::supervisor::state::mentions(more, child) {
                        let i = choose|i: int|
                            0 <= i < more.len() && (#[trigger] more[i])@ == child;
                        if i < at {
                            assert(fewer[i]@ == child);
                        }
                    }
                    assert(more[at as int]@ == child_id@);
                }
                assert(known@ =~= previous_actors(self.state.running@, failed, more));
            }
            at = at + 1;
        }
        assert(children@.take(children@.len() as int) =~= children@);
        known
    }

    /// Takes the answer to a [`SupervisorRequest::CountRestart`]: whether it is within limits.
    pub fn restart_counted(&mut self, allowed: bool) -> (step: SupervisorStep)
        requires
            old(self).wf(),
            old(self).wait is Count,
        ensures
            final(self).wf(),
            final(self).same_children(*old(self)),
            final(self).state.action == old(self).state.action,
            step.notices@ == Seq::<SupervisorNotice>::empty(),
            old(self).wait matches SupervisorWait::Count { children, failed } && (if allowed {
                final(self).restarts(
                    step.request,
                    crate::supervisor::state::running_reversed(
                        old(self).state.specs@,
                        old(self).state.running@,
                        children@,
                    ),
                    children@,
                    previous_actors(old(self).state.running@, failed, children@),
                )
            } else {
                final(self).stops_all_with(
                    step.request,
                    "supervisor restart intensity exceeded"@,
                )
            }),
            !allowed && (forall|child: Seq<char>|
                !#[trigger] old(self).state.running@.contains_key(child)) ==> (
            step.request matches SupervisorRequest::Finish(ActorTurn::Stop(ExitReason::Error(text)))
                && text@ == "supervisor restart intensity exceeded"@),
    {
        proof {
            if forall|child: Seq<char>| !#[trigger] self.state.running@.contains_key(child) {
                super::decision_laws::lemma_nothing_runs_nothing_stops(
                    self.state.specs@,
                    self.state.running@,
                );
            }
        }
        let mut wait = SupervisorWait::Idle;
        std::mem::swap(&mut self.wait, &mut wait);
        let request = match wait {
            SupervisorWait::Count { children, failed } => {
                if allowed {
                    let shutdown_queue = self.state.running_children_reverse(children.as_slice());
                    let old_children = self.note_previous(&children, failed);
                    let restart_queue = queue_of(&children);
                    self.next_restart_shutdown(
                        RestartPlan {
                            active_shutdown: None,
                            shutdown_queue,
                            restart_queue,
                            old_children,
                        },
                    )
                } else {
                    let mut text = String::new();
                    text.append("supervisor restart intensity exceeded");
                    assert(text@ =~= "supervisor restart intensity exceeded"@);
                    let reason = ExitReason::Error(text);
                    assert(is_error(reason, "supervisor restart intensity exceeded"@));
                    self.begin_shutdown(reason)
                }
            },
            _ => SupervisorRequest::Finish(ActorTurn::Continue),
        };
        SupervisorStep { notices: Vec::new(), request }
    }

    /// Whether the exit of a tracked child is handled: the child is no longer tracked, the
    /// runtime learns of it, and the plan under way goes on or the owner is asked.
    pub open spec fn handled_child_exit(
        self,
        before: SupervisorActor<S>,
        from: ActorId,
        reason: ExitReason,
        step: SupervisorStep,
    ) -> bool {
        let child_id = before.state.by_actor@[from];
        &&& step.notices@ == seq![SupervisorNotice::ChildExited { child_id, actor: from }]
        &&& self.state.action is None
        &&& match before.state.action {
            Some(SupervisorAction::Shutdown(plan)) => self.stops(
                step.request,
                settled(
                    if crate::supervisor::plan::is_child(plan.active_child, child_id@) {
                        plan.shutdown_queue@
                    } else {
                        crate::supervisor::plan::without(plan.shutdown_queue@, child_id@)
                    },
                    self.state.running@,
                ),
                plan.final_reason,
            ),
            Some(SupervisorAction::Restart(plan)) => if crate::supervisor::plan::is_child(
                plan.active_shutdown,
                child_id@,
            ) {
                self.restarts(
                    step.request,
                    plan.shutdown_queue@,
                    plan.restart_queue@,
                    plan.old_children@,
                )
            } else if crate::supervisor::plan::queue_place(plan.shutdown_queue@, child_id@)
                < plan.shutdown_queue@.len() {
                self.restarts(
                    step.request,
                    crate::supervisor::plan::without(plan.shutdown_queue@, child_id@),
                    plan.restart_queue@,
                    plan.old_children@,
                )
            } else {
                self.stops_all_with(step.request, stray_text(child_id@))
            },
            None => {
                &&& step.request == SupervisorRequest::Decide {
                    spec: before.spec_of(child_id@),
                    actor: from,
                    reason,
                }
                &&& self.wait == (SupervisorWait::Decision { child_id, actor: from })
            },
        }
    }

    /// Whether the exit of a linked actor is handled. An exit that is not a child's ends the
    /// supervisor, unless it is ending already.
    pub open spec fn handled_exit(
        self,
        before: SupervisorActor<S>,
        signal: ExitSignal,
        step: SupervisorStep,
    ) -> bool {
        if before.state.by_actor@.contains_key(signal.from) {
            self.handled_child_exit(before, signal.from, signal.reason, step)
        } else {
            &&& step.notices@ == Seq::<SupervisorNotice>::empty()
            &&& if before.state.action matches Some(SupervisorAction::Shutdown(_)) {
                &&& self == before
                &&& step.request == SupervisorRequest::Finish(ActorTurn::Continue)
            } else {
                &&& self.state.action is None
                &&& self.stops_all(step.request, signal.reason)
            }
        }
    }

    /// Handles the exit of an actor that the supervisor is linked to.
    pub fn handle_exit(&mut self, signal: ExitSignal) -> (step: SupervisorStep)
        requires
            old(self).wf(),
            old(self).wait is Idle,
        ensures
            final(self).wf(),
            final(self).supervisor == old(self).supervisor,
            final(self).state.flags == old(self).state.flags,
            final(self).state.specs == old(self).state.specs,
            final(self).forgot(*old(self), signal.from),
            final(self).handled_exit(*old(self), signal, step),
    {
        if self.state.by_actor.contains(signal.from) {
            return self.handle_child_exit(signal.from, signal.reason);
        }
        let notices: Vec<SupervisorNotice> = Vec::new();
        assert(self.state.by_actor@ =~= self.state.by_actor@.remove(signal.from));
        if let Some(SupervisorAction::Shutdown(_)) = &self.state.action {
            return SupervisorStep {
                notices,
                request: SupervisorRequest::Finish(ActorTurn::Continue),
            };
        }
        self.state.action = None;
        let request = self.begin_shutdown(signal.reason);
        SupervisorStep { notices, request }
    }

    fn handle_child_exit(&mut self, from: ActorId, reason: ExitReason) -> (step: SupervisorStep)
        requires
            old(self).wf(),
            old(self).wait is Idle,
            old(self).state.by_actor@.contains_key(from),
        ensures
            final(self).wf(),
            final(self).supervisor == old(self).supervisor,
            final(self).state.flags == old(self).state.flags,
            final(self).state.specs == old(self).state.specs,
            final(self).forgot(*old(self), from),
            final(self).handled_child_exit(*old(self), from, reason, step),
    {
        let mut notices: Vec<SupervisorNotice> = Vec::new();
        let child_id = match self.state.forget_child_actor(from) {
            Some(child_id) => child_id,
            None => "",
        };
        notices.push(SupervisorNotice::ChildExited { child_id, actor: from });
        assert(notices@ =~= seq![SupervisorNotice::ChildExited { child_id, actor: from }]);
        let action = self.state.action.take();
        let request = match action {
            Some(SupervisorAction::Shutdown(plan)) => {
                let mut plan = plan;
                plan.complete_child(child_id);
                self.next_shutdown(plan)
            },
            Some(SupervisorAction::Restart(plan)) => {
                let mut plan = plan;
                match plan.complete_shutdown(child_id) {
                    Ok(()) => self.next_restart_shutdown(plan),
                    Err(_unexpected) => {
                        let reason = stray_exit(child_id);
                        self.begin_shutdown(reason)
                    },
                }
            },
            None => {
                match self.state.spec(child_id) {
                    Some(spec) => {
                        self.wait = SupervisorWait::Decision { child_id, actor: from };
                        SupervisorRequest::Decide { spec, actor: from, reason }
                    },
                    None => SupervisorRequest::Finish(ActorTurn::Continue),
                }
            },
        };
        SupervisorStep { notices, request }
    }

    /// Handles one envelope. Only exits and the shutdown request concern a supervisor.
    pub fn handle(&mut self, envelope: Envelope) -> (step: SupervisorStep)
        requires
            old(self).wf(),
            old(self).wait is Idle,
        ensures
            final(self).wf(),
            final(self).supervisor == old(self).supervisor,
            final(self).state.flags == old(self).state.flags,
            final(self).state.specs == old(self).state.specs,
            match envelope {
                Envelope::Exit(signal) => {
                    &&& final(self).forgot(*old(self), signal.from)
                    &&& final(self).handled_exit(*old(self), signal, step)
                },
                Envelope::System(SystemMessage::Shutdown) => {
                    &&& final(self).same_children(*old(self))
                    &&& final(self).state.action == old(self).state.action
                    &&& step.notices@ == Seq::<SupervisorNotice>::empty()
                    &&& final(self).stops_all(step.request, ExitReason::Shutdown)
                },
                _ => {
                    &&& *final(self) == *old(self)
                    &&& step.notices@ == Seq::<SupervisorNotice>::empty()
                    &&& step.request == SupervisorRequest::Finish(ActorTurn::Continue)
                },
            },
            envelope matches Envelope::System(SystemMessage::Shutdown) ==> ((forall|child: Seq<char>|
                !#[trigger] old(self).state.running@.contains_key(child)) ==> step.request
                == SupervisorRequest::Finish(ActorTurn::Stop(ExitReason::Shutdown))),
            envelope matches Envelope::Exit(signal) ==> (old(self).state.by_actor@.contains_key(
                signal.from,
            ) && old(self).state.action is None ==> (step.request matches SupervisorRequest::Decide {
                actor,
                reason,
                ..
            } && actor == signal.from && reason == signal.reason)),
            envelope matches Envelope::Exit(signal) ==> (!old(self).state.by_actor@.contains_key(
                signal.from,
            ) && old(self).state.action is None && (forall|child: Seq<char>|
                !#[trigger] old(self).state.running@.contains_key(child)) ==> step.request
                == SupervisorRequest::Finish(ActorTurn::Stop(signal.reason))),
    {
        proof {
            if forall|child: Seq<char>| !#[trigger] self.state.running@.contains_key(child) {
                super::decision_laws::lemma_nothing_runs_nothing_stops(
                    self.state.specs@,
                    self.state.running@,
                );
            }
        }
        match envelope {
            Envelope::Exit(signal) => self.handle_exit(signal),
            Envelope::System(SystemMessage::Shutdown) => {
                let request = self.begin_shutdown(ExitReason::Shutdown);
                SupervisorStep { notices: Vec::new(), request }
            },
            _ => SupervisorStep {
                notices: Vec::new(),
                request: SupervisorRequest::Finish(ActorTurn::Continue),
            },
        }
    }
}

fn queue_of(children: &Vec<&'static str>) -> (queue: VecDeque<&'static str>)
    ensures
        queue@ == children@,
{
    let mut queue: VecDeque<&'static str> = VecDeque::new();
    let mut at: usize = 0;
    while at < children.len()
        invariant
            at <= children@.len(),
            queue@ == children@.take(at as int),
        decreases children@.len() - at,
    {
        queue.push_back(children[at]);
        at = at + 1;
        assert(queue@ =~= children@.take(at as int));
    }
    assert(queue@ =~= children@);
    queue
}

} // verus!
