//! What a worker does with its actor from one hook to the next.

use vstd::prelude::*;

use crate::actor::ActorTurn;
use crate::internal::error::panic_reason;
use crate::internal::turn::{exit_reason_after, merge_effects, yields_scheduler, TurnEffects};
use crate::runtime::actor_state::ActorView;
use crate::runtime::state::StateView;
use crate::scheduler::{SchedulerConfig, SchedulerMetrics};
use crate::types::{ActorId, ExitReason};

use super::state::ConcurrentRuntime;
use super::turns::{gives_way, NextStep, TurnStart};

verus! {

/// How a hook of an actor ended.
#[derive(Debug)]
pub enum HookEnd<T> {
    /// The hook has returned.
    Returned(T),
    /// The hook has panicked, with a text or without one.
    Panicked(Option<String>),
}

/// What a worker has to do next.
#[derive(Debug, PartialEq, Eq)]
#[allow(inconsistent_fields)]
pub enum WorkerAction {
    /// Run the initialization hook.
    Init(TurnStart),
    /// Run the hook that selects an envelope.
    Select,
    /// Wait until the actor is woken, then resume.
    Wait,
    /// Run the hook that handles the selected envelope.
    Turn(TurnStart),
    /// Give way to other actors, then resume.
    GiveWay,
    /// Run the termination hook.
    Terminate {
        /// Human-readable actor name.
        name: &'static str,
        /// The reason with which the actor exits.
        reason: ExitReason,
    },
    /// The actor is gone.
    Done,
}

/// The worker of one actor.
#[derive(Debug)]
pub struct Worker {
    /// The actor.
    pub actor: ActorId,
    /// Human-readable actor name.
    pub name: &'static str,
    /// Turns since the actor last gave way.
    pub turns_taken: u32,
    /// What the actor asked for while it selected the envelope that it handles.
    pub pending: TurnEffects,
}

/// Whether a reason reports a panic of an actor.
pub open spec fn is_panic(
    reason: ExitReason,
    actor: ActorId,
    name: Seq<char>,
    detail: Option<String>,
) -> bool {
    reason matches ExitReason::Error(text) && text@ == crate::internal::error::panic_text(
        actor,
        name,
        match detail {
            Some(detail) => detail@,
            None => "unknown panic"@,
        },
    )
}

/// Whether an actor starts to terminate, if it is still there.
pub open spec fn left(
    before: StateView,
    actor: ActorId,
    reason: ExitReason,
    after: StateView,
    action: WorkerAction,
) -> bool {
    if before.has(actor) {
        &&& after == before.with(super::turns::leaving(before.actor(actor)))
        &&& action == WorkerAction::Terminate { name: before.actor(actor).name, reason }
    } else {
        after == before && action is Done
    }
}

/// Whether an actor goes on: it selects an envelope, unless it has to exit.
pub open spec fn went_on(
    before: StateView,
    actor: ActorId,
    after: StateView,
    action: WorkerAction,
) -> bool {
    if !before.has(actor) {
        after == before && action is Done
    } else {
        match before.actor(actor).forced_exit {
            Some(reason) => left(
                before.with(
                    super::turns::leaving(
                        ActorView { forced_exit: None, ..before.actor(actor) },
                    ),
                ),
                actor,
                reason,
                after,
                action,
            ),
            None => after == before && action is Select,
        }
    }
}

/// Whether an actor starts to terminate because of a panic.
pub open spec fn panicked(
    before: StateView,
    actor: ActorId,
    name: Seq<char>,
    detail: Option<String>,
    after: StateView,
    action: WorkerAction,
) -> bool {
    exists|reason: ExitReason| #[trigger]
        is_panic(reason, actor, name, detail) && left(before, actor, reason, after, action)
}

/// How many turns in a row an actor may take.
pub open spec fn turn_limit(config: SchedulerConfig) -> u32 {
    if config.actor_turn_budget == 0 {
        1
    } else {
        config.actor_turn_budget
    }
}

impl Worker {
    /// Whether the actor has not used up its turns.
    pub open spec fn within(self, config: SchedulerConfig) -> bool {
        self.turns_taken < turn_limit(config)
    }

    /// Creates the worker of an actor that has not started.
    pub fn new(actor: ActorId) -> (worker: Self)
        ensures
            worker.actor == actor,
            worker.name@ == "unknown"@,
            worker.turns_taken == 0,
            worker.pending == TurnEffects::none(),
            forall|config: SchedulerConfig| #[trigger] worker.within(config),
    {
        Worker { actor, name: "unknown", turns_taken: 0, pending: TurnEffects::new() }
    }

    /// Starts the actor.
    pub fn start(&mut self, runtime: &mut ConcurrentRuntime) -> (action: WorkerAction)
        requires
            old(runtime).wf(),
        ensures
            final(runtime).wf(),
            final(runtime).same_setup(*old(runtime)),
            final(self).actor == old(self).actor,
            final(self).turns_taken == old(self).turns_taken,
            final(self).pending == old(self).pending,
            ({
                let before = old(runtime).state@;
                let actor = old(self).actor;
                if before.has(actor) {
                    &&& action == WorkerAction::Init(super::turns::start_of(before.actor(actor)))
                    &&& final(runtime).state@ == before.with(
                        super::turns::running(before.actor(actor)),
                    )
                    &&& final(self).name == before.actor(actor).name
                } else {
                    &&& action is Done
                    &&& final(runtime).state@ == before
                    &&& final(self).name == old(self).name
                }
            }),
    {
        match runtime.begin_init(self.actor) {
            Ok(start) => {
                self.name = start.name;
                WorkerAction::Init(start)
            },
            Err(_) => WorkerAction::Done,
        }
    }

    /// Goes on after the initialization hook, during which the actor may have asked to exit.
    pub fn init_done(
        &self,
        runtime: &mut ConcurrentRuntime,
        ended: HookEnd<Result<(), ExitReason>>,
        requested: Option<ExitReason>,
    ) -> (action: WorkerAction)
        requires
            old(runtime).wf(),
        ensures
            final(runtime).wf(),
            final(runtime).same_setup(*old(runtime)),
            ({
                let before = old(runtime).state@;
                let after = final(runtime).state@;
                match ended {
                    HookEnd::Returned(Ok(())) => {
                        let ready = if before.has(self.actor) {
                            before.with(
                                super::turns::initialized(
                                    before.actor(self.actor),
                                    requested is Some,
                                ),
                            )
                        } else {
                            before
                        };
                        match requested {
                            Some(reason) => left(ready, self.actor, reason, after, action),
                            None => went_on(ready, self.actor, after, action),
                        }
                    },
                    HookEnd::Returned(Err(reason)) => left(
                        before,
                        self.actor,
                        reason,
                        after,
                        action,
                    ),
                    HookEnd::Panicked(detail) => panicked(
                        before,
                        self.actor,
                        self.name@,
                        detail,
                        after,
                        action,
                    ),
                }
            }),
            old(runtime).state@.has(self.actor) ==> (ended matches HookEnd::Returned(Err(reason))
                ==> action == (WorkerAction::Terminate {
                name: old(runtime).state@.actor(self.actor).name,
                reason,
            })),
            old(runtime).state@.has(self.actor) ==> (ended matches HookEnd::Returned(Ok(())) ==> (
            requested matches Some(asked) ==> action == (WorkerAction::Terminate {
                name: old(runtime).state@.actor(self.actor).name,
                reason: asked,
            }))),
    {
        match ended {
            HookEnd::Returned(outcome) => match runtime.finish_init(
                self.actor,
                outcome,
                requested,
            ) {
                Some(reason) => self.leave(runtime, reason),
                None => self.resume(runtime),
            },
            HookEnd::Panicked(detail) => self.leave_panicked(runtime, detail),
        }
    }

    /// Goes on after the hook that selects an envelope, which tells whether it has selected one.
    /// What the actor asked for meanwhile counts at once when it has selected none, and at the end
    /// of the turn otherwise.
    pub fn select_done(
        &mut self,
        runtime: &mut ConcurrentRuntime,
        ended: HookEnd<bool>,
        effects: TurnEffects,
    ) -> (action: WorkerAction)
        requires
            old(runtime).wf(),
        ensures
            final(runtime).wf(),
            final(runtime).same_setup(*old(runtime)),
            ({
                let before = old(runtime).state@;
                let after = final(runtime).state@;
                let actor = old(self).actor;
                let idle = Worker { pending: TurnEffects::none(), ..*old(self) };
                match ended {
                    HookEnd::Panicked(detail) => {
                        &&& panicked(before, actor, old(self).name@, detail, after, action)
                        &&& *final(self) == idle
                    },
                    HookEnd::Returned(true) => if before.has(actor) {
                        &&& action == WorkerAction::Turn(
                            super::turns::start_of(before.actor(actor)),
                        )
                        &&& after == (StateView {
                            metrics: (SchedulerMetrics {
                                normal_turns: crate::scheduler::bumped(
                                    before.metrics.normal_turns,
                                ),
                                ..before.metrics
                            }),
                            ..before.with(super::turns::turning(before.actor(actor)))
                        })
                        &&& *final(self) == (Worker { pending: effects, ..*old(self) })
                    } else {
                        &&& after == before && action is Done
                        &&& *final(self) == idle
                    },
                    HookEnd::Returned(false) => {
                        &&& *final(self) == idle
                        &&& match effects.exit_reason {
                            Some(reason) => left(before, actor, reason, after, action),
                            None => if before.has(actor) {
                                &&& action is Wait
                                &&& after == before.with(
                                    super::turns::waiting(before.actor(actor)),
                                )
                            } else {
                                after == before && action is Done
                            },
                        }
                    },
                }
            }),
    {
        self.pending = TurnEffects::new();
        match ended {
            HookEnd::Returned(true) => match runtime.begin_turn(self.actor) {
                Some(start) => {
                    self.pending = effects;
                    WorkerAction::Turn(start)
                },
                None => WorkerAction::Done,
            },
            HookEnd::Returned(false) => match effects.exit_reason {
                Some(reason) => self.leave(runtime, reason),
                None => if runtime.wait_for_envelope(self.actor) {
                    WorkerAction::Wait
                } else {
                    WorkerAction::Done
                },
            },
            HookEnd::Panicked(detail) => self.leave_panicked(runtime, detail),
        }
    }

    /// Goes on after the hook that handles an envelope. What the actor asked for while it selected
    /// the envelope counts as well.
    pub fn turn_done(
        &mut self,
        runtime: &mut ConcurrentRuntime,
        ended: HookEnd<ActorTurn>,
        effects: TurnEffects,
    ) -> (action: WorkerAction)
        requires
            old(runtime).wf(),
            old(self).within(old(runtime).config),
        ensures
            final(runtime).wf(),
            final(runtime).same_setup(*old(runtime)),
            final(self).within(old(runtime).config),
            final(self).actor == old(self).actor,
            final(self).name == old(self).name,
            final(self).pending == TurnEffects::none(),
            ({
                let before = old(runtime).state@;
                let after = final(runtime).state@;
                let actor = old(self).actor;
                let asked = crate::internal::turn::merged(old(self).pending, effects);
                match ended {
                    HookEnd::Panicked(detail) => {
                        &&& panicked(before, actor, old(self).name@, detail, after, action)
                        &&& final(self).turns_taken == old(self).turns_taken
                    },
                    HookEnd::Returned(turn) => match crate::internal::turn::exit_after(
                        asked,
                        turn,
                    ) {
                        Some(reason) => {
                            &&& left(before, actor, reason, after, action)
                            &&& final(self).turns_taken == old(self).turns_taken
                        },
                        None => {
                            let rested = if before.has(actor) {
                                before.with(super::turns::turned(before.actor(actor)))
                            } else {
                                before
                            };
                            if crate::internal::turn::yields_after(asked, turn)
                                || old(self).turns_taken + 1 >= turn_limit(old(runtime).config) {
                                &&& after == rested
                                &&& action is GiveWay
                                &&& final(self).turns_taken == 0
                            } else {
                                &&& went_on(rested, actor, after, action)
                                &&& final(self).turns_taken == old(self).turns_taken + 1
                            }
                        },
                    },
                }
            }),
            old(runtime).state@.has(old(self).actor) ==> (ended matches HookEnd::Returned(
                ActorTurn::Stop(reason),
            ) ==> (effects.exit_reason is None && old(self).pending.exit_reason is None ==> action
                == (WorkerAction::Terminate {
                name: old(runtime).state@.actor(old(self).actor).name,
                reason,
            }))),
            old(runtime).state@.has(old(self).actor) ==> (ended is Returned ==> (
            effects.exit_reason matches Some(asked) ==> action == (WorkerAction::Terminate {
                name: old(runtime).state@.actor(old(self).actor).name,
                reason: asked,
            }))),
            (ended matches HookEnd::Returned(turn) && turn is Yield && effects.exit_reason is None
                && old(self).pending.exit_reason is None) ==> action is GiveWay,
    {
        let mut pending = TurnEffects::new();
        std::mem::swap(&mut self.pending, &mut pending);
        match ended {
            HookEnd::Panicked(detail) => self.leave_panicked(runtime, detail),
            HookEnd::Returned(turn) => {
                let asked = merge_effects(pending, effects);
                let yielded = yields_scheduler(&asked, &turn);
                match exit_reason_after(asked, turn) {
                    Some(reason) => self.leave(runtime, reason),
                    None => {
                        runtime.end_turn(self.actor);
                        let (gives, taken) = gives_way(
                            self.turns_taken,
                            runtime.config.actor_turn_budget,
                            yielded,
                        );
                        self.turns_taken = taken;
                        if gives {
                            WorkerAction::GiveWay
                        } else {
                            self.resume(runtime)
                        }
                    },
                }
            },
        }
    }

    /// Goes on after a wait, or after the actor has given way.
    pub fn resume(&self, runtime: &mut ConcurrentRuntime) -> (action: WorkerAction)
        requires
            old(runtime).wf(),
        ensures
            final(runtime).wf(),
            final(runtime).same_setup(*old(runtime)),
            went_on(old(runtime).state@, self.actor, final(runtime).state@, action),
    {
        match runtime.next_step(self.actor) {
            NextStep::Gone => WorkerAction::Done,
            NextStep::Exit(reason) => self.leave(runtime, reason),
            NextStep::Select => WorkerAction::Select,
        }
    }

    /// Ends the actor after its termination hook. A panic of the hook replaces the reason.
    pub fn terminate_done(
        &self,
        runtime: &mut ConcurrentRuntime,
        reason: ExitReason,
        ended: HookEnd<()>,
    )
        requires
            old(runtime).wf(),
        ensures
            final(runtime).wf(),
            final(runtime).same_setup(*old(runtime)),
            match ended {
                HookEnd::Returned(()) => super::spec::finalized(
                    old(runtime).state@,
                    self.actor,
                    reason,
                    final(runtime).state@,
                ),
                HookEnd::Panicked(detail) => exists|panic: ExitReason| #[trigger]
                    is_panic(panic, self.actor, self.name@, detail) && super::spec::finalized(
                        old(runtime).state@,
                        self.actor,
                        panic,
                        final(runtime).state@,
                    ),
            },
    {
        let final_reason = match ended {
            HookEnd::Returned(()) => reason,
            HookEnd::Panicked(detail) => {
                let ghost told = detail;
                let panic = panic_reason(self.actor, self.name, detail);
                assert(is_panic(panic, self.actor, self.name@, told));
                panic
            },
        };
        runtime.finalize_actor(self.actor, final_reason);
    }

    /// Starts the termination of the actor.
    fn leave(&self, runtime: &mut ConcurrentRuntime, reason: ExitReason) -> (action: WorkerAction)
        requires
            old(runtime).wf(),
        ensures
            final(runtime).wf(),
            final(runtime).same_setup(*old(runtime)),
            left(old(runtime).state@, self.actor, reason, final(runtime).state@, action),
    {
        match runtime.begin_terminate(self.actor) {
            Some(name) => WorkerAction::Terminate { name, reason },
            None => WorkerAction::Done,
        }
    }

    /// Starts the termination of the actor after a panic.
    fn leave_panicked(&self, runtime: &mut ConcurrentRuntime, detail: Option<String>) -> (action:
        WorkerAction)
        requires
            old(runtime).wf(),
        ensures
            final(runtime).wf(),
            final(runtime).same_setup(*old(runtime)),
            panicked(
                old(runtime).state@,
                self.actor,
                self.name@,
                detail,
                final(runtime).state@,
                action,
            ),
    {
        let ghost told = detail;
        let reason = panic_reason(self.actor, self.name, detail);
        assert(is_panic(reason, self.actor, self.name@, told));
        self.leave(runtime, reason)
    }
}

} // verus!
