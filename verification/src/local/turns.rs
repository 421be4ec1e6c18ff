//! The turns of an actor on the single-threaded runtime.

use vstd::prelude::*;

use crate::actor::ActorTurn;
use crate::internal::turn::{exit_reason_after, TurnEffects};
use crate::runtime::actor_state::{ActorState, ActorView};
use crate::runtime::state::StateView;
use crate::scheduler::{bump, SchedulerMetrics};
use crate::types::{ActorId, ActorMetrics, ActorStatus, ExitReason};

use super::frame::{Frame, FrameView, Stage, StageView};
use super::machine::LocalRuntime;
use super::spec::LocalView;

verus! {

/// What the driver has to run for an actor that has a turn.
#[derive(Debug, Clone, Copy, PartialEq, Eq)]
pub enum Job {
    /// The initialization hook; its end is reported with [`LocalRuntime::init_finished`].
    Init {
        /// The actor.
        actor: ActorId,
        /// Its name.
        name: &'static str,
    },
    /// The selection of an envelope, followed by [`LocalRuntime::begin_turn`] and the handling
    /// of the envelope, or by [`LocalRuntime::nothing_selected`].
    Select {
        /// The actor.
        actor: ActorId,
        /// Its name.
        name: &'static str,
    },
}

/// The run queue without the actors at its front that are not in their places.
pub open spec fn next_in_line(state: StateView, queue: Seq<ActorId>) -> Seq<ActorId>
    decreases queue.len(),
{
    if queue.len() == 0 || state.has(queue[0]) {
        queue
    } else {
        next_in_line(state, queue.drop_first())
    }
}

/// The actor when its turn comes.
pub open spec fn picked(actor: ActorView) -> ActorView {
    let picked = ActorView { scheduled: false, has_claimed: false, ..actor };
    if actor.initialized {
        picked
    } else {
        super::spec::at_work(picked, ActorStatus::Running)
    }
}

/// The actor at the start of the handling of an envelope.
pub open spec fn handling(actor: ActorView) -> ActorView {
    let working = super::spec::at_work(actor.counted(), ActorStatus::Running);
    ActorView {
        metrics: (ActorMetrics {
            turns_run: crate::scheduler::bumped(working.metrics.turns_run),
            ..working.metrics
        }),
        ..working
    }
}

/// Ids stay in order when an actor moves from the top of the stack to its place.
proof fn lemma_placed_ids(
    ids: crate::internal::id::ActorSlotAllocator,
    before: LocalView,
    after: LocalView,
    actor: ActorView,
)
    requires
        super::machine::ids_ok(ids, before),
        before.stack.len() > 0,
        actor.id == before.top().actor.id,
        after.state.actors == before.state.actors.insert(actor.id.local_id, actor),
        after.stack =~= before.stack.drop_last(),
    ensures
        super::machine::ids_ok(ids, after),
{
    let top = before.stack.len() - 1;
    assert(ids.live(before.stack[top].actor.id));
    assert forall|i: int| 0 <= i < after.stack.len() implies {
        &&& ids.live((#[trigger] after.stack[i]).actor.id)
        &&& !after.state.actors.contains_key(after.stack[i].actor.id.local_id)
        &&& after.stack[i].actor.wf()
    } by {
        assert(after.stack[i] == before.stack[i]);
        assert(before.stack[i].actor.id != before.stack[top].actor.id);
        assert(ids.live(before.stack[i].actor.id));
    }
    assert forall|i: int, j: int| 0 <= i < j < after.stack.len() implies (
    #[trigger] after.stack[i]).actor.id != (#[trigger] after.stack[j]).actor.id by {
        assert(before.stack[i].actor.id != before.stack[j].actor.id);
    }
}

/// Ids stay in order when an actor moves from its place to the stack.
proof fn lemma_picked_ids(
    ids: crate::internal::id::ActorSlotAllocator,
    before: LocalView,
    after: LocalView,
    frame: FrameView,
)
    requires
        super::machine::ids_ok(ids, before),
        before.state.has(frame.actor.id),
        frame.actor.wf(),
        after.state.actors == before.state.actors.remove(frame.actor.id.local_id),
        after.stack =~= before.stack.push(frame),
    ensures
        super::machine::ids_ok(ids, after),
{
    let id = frame.actor.id;
    let last = before.stack.len() as int;
    assert(ids.live(before.state.actors[id.local_id].id));
    assert forall|i: int| 0 <= i < after.stack.len() implies {
        &&& ids.live((#[trigger] after.stack[i]).actor.id)
        &&& !after.state.actors.contains_key(after.stack[i].actor.id.local_id)
        &&& after.stack[i].actor.wf()
    } by {
        if i < last {
            assert(after.stack[i] == before.stack[i]);
        }
    }
    assert forall|i: int, j: int| 0 <= i < j < after.stack.len() implies (
    #[trigger] after.stack[i]).actor.id != (#[trigger] after.stack[j]).actor.id by {
        assert(after.stack[i] == before.stack[i]);
        if j < last {
            assert(after.stack[j] == before.stack[j]);
        } else {
            assert(!before.state.actors.contains_key(before.stack[i].actor.id.local_id));
        }
    }
}

impl LocalRuntime {
    /// Gives the next actor in line a turn, if there is one.
    pub fn next_job(&mut self) -> (job: Option<Job>)
        requires
            old(self).wf(),
        ensures
            final(self).wf(),
            final(self).same_setup(*old(self)),
            ({
                let before = old(self)@;
                let line = next_in_line(before.state, before.queue);
                if line.len() == 0 {
                    &&& job is None
                    &&& final(self)@ == (LocalView { queue: line, ..before })
                } else {
                    let actor = before.state.actor(line[0]);
                    &&& before.state.has(line[0])
                    &&& job == Some(
                        if actor.initialized {
                            Job::Select { actor: actor.id, name: actor.name }
                        } else {
                            Job::Init { actor: actor.id, name: actor.name }
                        },
                    )
                    &&& final(self)@ == (LocalView {
                        state: before.state.without(line[0]),
                        queue: line.drop_first(),
                        stack: before.stack.push(
                            (FrameView {
                                actor: picked(actor),
                                effects: TurnEffects::none(),
                                stage: StageView::Running,
                            }),
                        ),
                    })
                }
            }),
    {
        loop
            invariant
                self.wf(),
                self.same_setup(*old(self)),
                self@.state == old(self)@.state,
                self@.stack == old(self)@.stack,
                next_in_line(self@.state, self@.queue) == next_in_line(
                    old(self)@.state,
                    old(self)@.queue,
                ),
            decreases self@.queue.len(),
        {
            let ghost line = self@.queue;
            let id = match self.run_queue.pop_front() {
                Some(id) => id,
                None => {
                    assert(self@.queue =~= line);
                    return None;
                },
            };
            assert(self@.queue =~= line.drop_first());
            assert(line[0] == id);
            let ghost ready = self@;
            proof {
                super::events::lemma_same_actors(self.ids, old(self)@, self@);
            }
            match self.state.actors.take(id) {
                Some(mut actor) => {
                    actor.scheduled = false;
                    actor.has_claimed = false;
                    let name = actor.name;
                    let initialized = actor.initialized;
                    if !initialized {
                        actor.status = ActorStatus::Running;
                        actor.metrics.scheduler_id = Some(0);
                    }
                    let ghost frame = FrameView {
                        actor: actor@,
                        effects: TurnEffects::none(),
                        stage: StageView::Running,
                    };
                    self.stack.push(
                        Frame { actor, effects: TurnEffects::new(), stage: Stage::Running },
                    );
                    proof {
                        assert(self@.stack =~= ready.stack.push(frame));
                        lemma_picked_ids(self.ids, ready, self@, frame);
                        assert(frame.actor == picked(old(self)@.state.actor(id)));
                    }
                    return Some(
                        if initialized {
                            Job::Select { actor: id, name }
                        } else {
                            Job::Init { actor: id, name }
                        },
                    );
                },
                None => {},
            }
        }
    }

    /// Counts a turn without a job, unless something from outside was handled in it.
    pub fn count_idle_turn(&mut self, made_progress: bool)
        requires
            old(self).wf(),
        ensures
            final(self).wf(),
            final(self).same_setup(*old(self)),
            final(self)@ == (if made_progress {
                old(self)@
            } else {
                old(self)@.with_state(
                    (StateView {
                        metrics: (SchedulerMetrics {
                            idle_turns: crate::scheduler::bumped(
                                old(self)@.state.metrics.idle_turns,
                            ),
                            ..old(self)@.state.metrics
                        }),
                        ..old(self)@.state
                    }),
                )
            }),
    {
        if made_progress {
            return ;
        }
        self.state.metrics.idle_turns = bump(self.state.metrics.idle_turns);
        proof {
            super::events::lemma_same_actors(self.ids, old(self)@, self@);
        }
    }

    /// Starts the handling of the envelope that the current actor has selected.
    pub fn begin_turn(&mut self)
        requires
            old(self).wf(),
            old(self)@.in_hook(),
        ensures
            final(self).wf(),
            final(self).same_setup(*old(self)),
            final(self)@ == old(self)@.with_current(handling(old(self)@.top().actor)).with_state(
                (StateView {
                    metrics: (SchedulerMetrics {
                        normal_turns: crate::scheduler::bumped(
                            old(self)@.state.metrics.normal_turns,
                        ),
                        ..old(self)@.state.metrics
                    }),
                    ..old(self)@.state
                }),
            ),
    {
        let top: usize = self.stack.len() - 1;
        assert(self@.top() == self.stack@[top as int]@);
        self.stack[top].actor.count_mailbox();
        self.stack[top].actor.status = ActorStatus::Running;
        self.stack[top].actor.metrics.scheduler_id = Some(0);
        let turns: u64 = bump(self.stack[top].actor.metrics.turns_run);
        self.stack[top].actor.metrics.turns_run = turns;
        self.state.metrics.normal_turns = bump(self.state.metrics.normal_turns);
        proof {
            let after = old(self)@.with_current(handling(old(self)@.top().actor));
            assert(self@.stack =~= after.stack);
            assert(old(self)@.stack[top as int].actor.wf());
            super::current::lemma_top_ids(self.ids, old(self)@, self@, after.top());
        }
    }

    /// Makes the actor on top of the stack exit.
    fn doom(&mut self, frame: Frame, reason: ExitReason)
        requires
            old(self).state.wf(),
            super::machine::ids_ok(
                old(self).ids,
                super::exits::with_frame(old(self)@, frame@),
            ),
            super::turn_laws::counted(
                super::exits::with_frame(old(self)@, frame@),
                old(self).config.max_actors,
            ),
        ensures
            final(self).wf(),
            final(self).same_setup(*old(self)),
            final(self)@ == super::exits::with_frame(old(self)@, frame@).doomed(reason),
    {
        let ghost whole = super::exits::with_frame(self@, frame@);
        let mut actor = frame.actor;
        actor.status = ActorStatus::Exiting;
        actor.metrics.scheduler_id = Some(0);
        self.stack.push(
            Frame { actor, effects: TurnEffects::new(), stage: Stage::Condemned(reason) },
        );
        proof {
            let after = whole.doomed(reason);
            assert(self@.stack =~= after.stack);
            assert(whole.stack[whole.stack.len() - 1].actor.wf());
            super::current::lemma_top_ids(self.ids, whole, self@, after.top());
        }
    }

    /// Puts the actor on top of the stack back in its place.
    fn return_actor(&mut self, actor: ActorState, frame: Ghost<FrameView>)
        requires
            old(self).state.wf(),
            frame@.actor == actor@,
            super::machine::ids_ok(
                old(self).ids,
                super::exits::with_frame(old(self)@, frame@),
            ),
            super::turn_laws::counted(
                super::exits::with_frame(old(self)@, frame@),
                old(self).config.max_actors,
            ),
        ensures
            final(self).wf(),
            final(self).same_setup(*old(self)),
            final(self)@ == super::exits::with_frame(old(self)@, frame@).returned(),
    {
        let ghost whole = super::exits::with_frame(self@, frame@);
        let ghost view = actor@;
        proof {
            assert(whole.stack[whole.stack.len() - 1].actor.wf());
        }
        let mut actor = actor;
        let id = actor.id;
        actor.count_mailbox();
        actor.metrics.scheduler_id = None;
        let mut scheduled = false;
        if actor.mailbox.is_empty() {
            actor.park();
        } else {
            actor.status = ActorStatus::Runnable;
            actor.has_claimed = false;
            scheduled = actor.mark_scheduled();
        }
        let ghost placed = actor@;
        self.state.actors.put(actor);
        if scheduled {
            self.run_queue.push_back(id);
        }
        proof {
            let after = whole.returned();
            assert(self@.stack =~= after.stack);
            assert(self@ == after);
            lemma_placed_ids(self.ids, whole, self@, placed);
        }
    }

    /// Reports that the initialization hook of the current actor is over. The actor exits when
    /// the hook has failed, or when it has asked for that.
    pub fn init_finished(&mut self, outcome: Result<(), ExitReason>)
        requires
            old(self).wf(),
            old(self)@.stack.len() > 0,
            old(self)@.top().stage is Running,
        ensures
            final(self).wf(),
            final(self).same_setup(*old(self)),
            ({
                let before = old(self)@;
                let ready = before.with_current(
                    (ActorView { initialized: true, ..before.top().actor }),
                );
                final(self)@ == match outcome {
                    Ok(()) => match before.top().effects.exit_reason {
                        Some(reason) => ready.doomed(reason),
                        None => ready.returned(),
                    },
                    Err(reason) => before.doomed(reason),
                }
            }),
            ({
                let was = old(self)@.stack.last();
                let after = final(self)@;
                match (outcome, was.effects.exit_reason) {
                    (Err(reason), _) => after.stack.last().stage == StageView::Condemned(reason)
                        && after.stack.last().actor.id == was.actor.id,
                    (Ok(_), Some(asked)) => after.stack.last().stage == StageView::Condemned(asked)
                        && after.stack.last().actor.id == was.actor.id,
                    (Ok(_), None) => {
                        &&& after.state.has(was.actor.id)
                        &&& after.state.actor(was.actor.id).initialized
                        &&& after.state.actor(was.actor.id).mailbox == was.actor.mailbox
                    },
                }
            }),
    {
        let ghost top = self.stack@.len() - 1;
        let mut frame = match self.stack.pop() {
            Some(frame) => frame,
            None => {
                return ;
            },
        };
        proof {
            assert(old(self)@.top() == frame@);
            assert(super::exits::with_frame(self@, frame@).stack =~= old(self)@.stack);
            assert(super::exits::with_frame(self@, frame@) == old(self)@);
        }
        match outcome {
            Ok(()) => {
                frame.actor.initialized = true;
                let ghost ready = super::exits::with_frame(self@, frame@);
                proof {
                    let expected = old(self)@.with_current(
                        (ActorView { initialized: true, ..old(self)@.top().actor }),
                    );
                    assert(ready.stack =~= expected.stack);
                    assert(ready == expected);
                    assert(old(self)@.stack[top].actor.wf());
                    super::current::lemma_top_ids(self.ids, old(self)@, ready, frame@);
                }
                let asked = match &frame.effects.exit_reason {
                    Some(reason) => Some(reason.clone()),
                    None => None,
                };
                match asked {
                    Some(reason) => self.doom(frame, reason),
                    None => {
                        let ghost view = frame@;
                        self.return_actor(frame.actor, Ghost(view))
                    },
                }
            },
            Err(reason) => self.doom(frame, reason),
        }
    }

    /// Reports that the handling of an envelope by the current actor is over, or that it has
    /// panicked. The actor exits when it has asked for that, and is back in its place otherwise.
    pub fn turn_finished(&mut self, outcome: Result<ActorTurn, ExitReason>)
        requires
            old(self).wf(),
            old(self)@.stack.len() > 0,
            old(self)@.top().stage is Running,
        ensures
            final(self).wf(),
            final(self).same_setup(*old(self)),
            final(self)@ == match outcome {
                Ok(turn) => match crate::internal::turn::exit_after(
                    old(self)@.top().effects,
                    turn,
                ) {
                    Some(reason) => old(self)@.doomed(reason),
                    None => old(self)@.returned(),
                },
                Err(reason) => old(self)@.doomed(reason),
            },
            ({
                let was = old(self)@.stack.last();
                let after = final(self)@;
                match (outcome, was.effects.exit_reason) {
                    (Err(reason), _) => after.stack.last().stage == StageView::Condemned(reason)
                        && after.stack.last().actor.id == was.actor.id,
                    (Ok(_), Some(asked)) => after.stack.last().stage == StageView::Condemned(asked)
                        && after.stack.last().actor.id == was.actor.id,
                    (Ok(ActorTurn::Stop(reason)), None) => after.stack.last().stage
                        == StageView::Condemned(reason) && after.stack.last().actor.id
                        == was.actor.id,
                    (Ok(_), None) => {
                        &&& after.stack == old(self)@.stack.drop_last()
                        &&& after.state.has(was.actor.id)
                        &&& after.state.actor(was.actor.id).mailbox == was.actor.mailbox
                    },
                }
            }),
    {
        let mut frame = match self.stack.pop() {
            Some(frame) => frame,
            None => {
                return ;
            },
        };
        let ghost view = frame@;
        proof {
            assert(old(self)@.top() == frame@);
            assert(super::exits::with_frame(self@, frame@).stack =~= old(self)@.stack);
            assert(super::exits::with_frame(self@, frame@) == old(self)@);
        }
        match outcome {
            Ok(turn) => {
                let effects = TurnEffects {
                    exit_reason: match &frame.effects.exit_reason {
                        Some(reason) => Some(reason.clone()),
                        None => None,
                    },
                    yielded: frame.effects.yielded,
                };
                assert(effects == view.effects);
                match exit_reason_after(effects, turn) {
                    Some(reason) => self.doom(frame, reason),
                    None => self.return_actor(frame.actor, Ghost(view)),
                }
            },
            Err(reason) => self.doom(frame, reason),
        }
    }

    /// Reports that the current actor has selected no envelope. The actor exits when it has asked
    /// for that, and waits in its place otherwise.
    pub fn nothing_selected(&mut self)
        requires
            old(self).wf(),
            old(self)@.stack.len() > 0,
            old(self)@.top().stage is Running,
        ensures
            final(self).wf(),
            final(self).same_setup(*old(self)),
            final(self)@ == match old(self)@.top().effects.exit_reason {
                Some(reason) => old(self)@.doomed(reason),
                None => old(self)@.popped().with_state(
                    old(self)@.state.with(old(self)@.top().actor.parked()),
                ),
            },
            ({
                let was = old(self)@.stack.last();
                let after = final(self)@;
                match was.effects.exit_reason {
                    Some(asked) => after.stack.last().stage == StageView::Condemned(asked)
                        && after.stack.last().actor.id == was.actor.id,
                    None => {
                        &&& after.stack == old(self)@.stack.drop_last()
                        &&& after.state.has(was.actor.id)
                        &&& after.state.actor(was.actor.id).status is Waiting
                        &&& after.state.actor(was.actor.id).mailbox == was.actor.mailbox
                    },
                }
            }),
    {
        let frame = match self.stack.pop() {
            Some(frame) => frame,
            None => {
                return ;
            },
        };
        let ghost view = frame@;
        proof {
            assert(old(self)@.top() == frame@);
            assert(super::exits::with_frame(self@, frame@).stack =~= old(self)@.stack);
            assert(super::exits::with_frame(self@, frame@) == old(self)@);
            assert(old(self)@.stack[old(self)@.stack.len() - 1].actor.wf());
        }
        let asked = match &frame.effects.exit_reason {
            Some(reason) => Some(reason.clone()),
            None => None,
        };
        match asked {
            Some(reason) => self.doom(frame, reason),
            None => {
                let mut actor = frame.actor;
                actor.park();
                let ghost placed = actor@;
                self.state.actors.put(actor);
                proof {
                    let after = old(self)@.popped().with_state(
                        old(self)@.state.with(placed),
                    );
                    assert(self@.stack =~= after.stack);
                    lemma_placed_ids(self.ids, old(self)@, self@, placed);
                }
            },
        }
    }
}

} // verus!
