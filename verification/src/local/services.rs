//! What the single-threaded runtime does for the actor whose hook runs.

use std::time::Duration;

use vstd::prelude::*;

use crate::context::{PendingCall, ReceiveTimeout, SendError, SpawnError, SpawnOptions};
use crate::envelope::{Envelope, Payload, ReplyToken};
use crate::lifecycle::LifecycleEvent;
use crate::mailbox::MailboxWatermark;
use crate::registry::RegistryError;
use crate::runtime::actor_state::{adopt, ActorState, ActorView};
use crate::runtime::state::StateView;
use crate::scheduler::PoolKind;
use crate::time::Timestamp;
use crate::types::{ActorId, ChildSpec, Ref, SupervisorFlags, TimerToken};

use super::machine::LocalRuntime;
use super::spec::LocalView;

verus! {

/// The current actor once it has spawned another one.
pub open spec fn spawner_after(
    current: ActorView,
    spawned: ActorId,
    options: SpawnOptions,
) -> ActorView {
    let tied = if options.link_to_parent {
        ActorView { links: current.links.insert(spawned), ..current }
    } else {
        current
    };
    match options.supervisor_child {
        Some(child) => tied.running_child(child@, spawned),
        None => tied,
    }
}

/// A new actor that the current one spawns.
pub open spec fn spawned_view(
    current: ActorView,
    id: ActorId,
    name: &'static str,
    options: SpawnOptions,
    config: crate::scheduler::SchedulerConfig,
) -> ActorView {
    let fresh = ActorView::fresh(id, name, options, config, 0);
    let tied = if options.link_to_parent {
        ActorView { links: Set::empty().insert(current.id), ..fresh }
    } else {
        fresh
    };
    tied.marked()
}

impl LocalRuntime {
    /// Enters a new actor on behalf of the current one, which becomes its parent and ancestor
    /// unless the options say otherwise. The id is used up even when the runtime refuses the
    /// actor.
    pub fn spawn(&mut self, name: &'static str, options: SpawnOptions) -> (outcome: Result<
        ActorId,
        SpawnError,
    >)
        requires
            old(self).wf(),
            old(self)@.in_hook(),
        ensures
            final(self).wf(),
            final(self).config == old(self).config,
            super::machine::allocated(
                old(self).ids,
                final(self).ids,
                old(self).ids.next_id(),
            ),
            exists|complete: SpawnOptions| #[trigger]
                crate::runtime::actor_state::adopted(
                    old(self)@.top().actor,
                    options,
                    complete,
                ) && ({
                    let before = old(self)@;
                    let current = before.top().actor;
                    let id = old(self).ids.next_id();
                    let actor = spawned_view(current, id, name, complete, old(self).config);
                    &&& outcome is Ok <==> before.state.has_room(old(self).config.max_actors)
                        && before.state.accepts_name(actor)
                    &&& outcome matches Ok(spawned) ==> spawned == id && final(self)@
                        == before.with_current(
                        spawner_after(current, id, complete),
                    ).with_state(before.state.admitted(actor)).queued(id, true)
                    &&& outcome is Err ==> final(self)@ == before
                    &&& outcome matches Err(error) ==> before.state.refuses_with(
                        old(self).config.max_actors,
                        actor,
                        error,
                    )
                }),
    {
        let top: usize = self.stack.len() - 1;
        assert(self@.top() == self.stack@[top as int]@);
        let current = self.stack[top].actor.id;
        let complete = adopt(&self.stack[top].actor, options);
        let ghost adopted = complete;
        assert(crate::runtime::actor_state::adopted(old(self)@.top().actor, options, adopted));
        let link_to_parent = complete.link_to_parent;
        let supervisor_child = complete.supervisor_child;
        let id = self.ids.allocate();
        let mut actor = ActorState::new(id, name, complete, &self.config, 0);
        if link_to_parent {
            let _added = actor.links.insert(current);
        }
        let _marked = actor.mark_scheduled();
        let ghost view = actor@;
        proof {
            super::machine::lemma_fresh_slot(*old(self), *self, id);
            assert(view == spawned_view(
                old(self)@.top().actor,
                id,
                name,
                adopted,
                old(self).config,
            ));
        }
        let ghost ready = *self;
        match self.enter(actor) {
            Ok(_) => {},
            Err(error) => {
                return Err(error);
            },
        }
        let ghost entered = self@;
        assert(self@.top() == old(self)@.top());
        assert(self@.top() == self.stack@[top as int]@);
        if link_to_parent {
            let _added = self.stack[top].actor.links.insert(id);
        }
        if let Some(child) = supervisor_child {
            self.stack[top].actor.child_started(child, id);
        }
        proof {
            let after = spawner_after(old(self)@.top().actor, id, adopted);
            assert(self.stack@[top as int]@.actor == after);
            let expected = old(self)@.with_current(after).with_state(
                old(self)@.state.admitted(view),
            ).queued(id, true);
            assert(self@.stack =~= expected.stack);
            assert(self@ == expected);
            assert(entered.stack[top as int].actor.wf());
            super::current::lemma_top_ids(self.ids, entered, self@, expected.top());
        }
        Ok(id)
    }

    /// Sends a request on behalf of the current actor.
    pub fn ask(
        &mut self,
        to: ActorId,
        reference: Ref,
        message: Payload,
        timeout: Option<Duration>,
    ) -> (outcome: Result<PendingCall, SendError>)
        requires
            old(self).wf(),
            old(self)@.in_hook(),
        ensures
            final(self).wf(),
            final(self).same_setup(*old(self)),
            ({
                let before = old(self)@;
                let current = before.top().actor;
                let token = ReplyToken { from: current.id, reference };
                let request = Envelope::Request { token, message };
                let answer = if to == current.id {
                    if current.mailbox.refuses(request) {
                        Err(current.full_error())
                    } else {
                        Ok(())
                    }
                } else {
                    super::spec::send_answer(before.state, to, request)
                };
                let after = if to == current.id {
                    before.self_sent(request)
                } else {
                    before.sent(to, request)
                };
                match answer {
                    Ok(()) => {
                        &&& outcome matches Ok(call) && call.reference == reference
                            && call.reply_to == token && call.timeout == timeout
                            && call.mailbox_watermark.spec_sequence()
                            == current.mailbox.next_sequence
                        &&& final(self)@ == (if timeout is Some {
                            after.with_state(
                                (StateView {
                                    calls: after.state.calls.insert((current.id, reference)),
                                    ..after.state
                                }),
                            )
                        } else {
                            after
                        })
                    },
                    Err(error) => outcome == Err::<PendingCall, SendError>(error)
                        && final(self)@ == after,
                }
            }),
    {
        let top: usize = self.stack.len() - 1;
        assert(self@.top() == self.stack@[top as int]@);
        let current = self.stack[top].actor.id;
        let watermark = self.stack[top].actor.mailbox.watermark();
        let reply_to = ReplyToken::new(current, reference);
        match self.send_to(to, Envelope::Request { token: reply_to, message }) {
            Ok(()) => {},
            Err(error) => {
                return Err(error);
            },
        }
        let ghost sent = self@;
        if timeout.is_some() {
            self.state.calls.insert(current, reference);
            proof {
                super::events::lemma_same_actors(self.ids, sent, self@);
            }
        }
        Ok(PendingCall::new(reply_to, watermark, timeout))
    }

    /// Registers a name for the current actor.
    pub fn register_own_name(&mut self, name: String) -> (outcome: Result<(), RegistryError>)
        requires
            old(self).wf(),
            old(self)@.in_hook(),
        ensures
            final(self).wf(),
            final(self).same_setup(*old(self)),
            ({
                let before = old(self)@;
                let current = before.top().actor;
                &&& outcome is Ok <==> crate::registry::accepts(
                    before.state.names,
                    current.id,
                    name@,
                )
                &&& outcome is Ok ==> final(self)@ == before.with_current(
                    (ActorView { registered_name: Some(name), ..current }),
                ).with_state(
                    (StateView {
                        names: crate::registry::registered(before.state.names, current.id, name@),
                        ..before.state
                    }),
                )
                &&& outcome matches Err(error) ==> final(self)@ == before
                    && crate::registry::is_refusal(error, before.state.names, current.id, name@)
            }),
    {
        let top: usize = self.stack.len() - 1;
        assert(self@.top() == self.stack@[top as int]@);
        let id = self.stack[top].actor.id;
        match self.state.registry.register(id, name.clone()) {
            Ok(()) => {},
            Err(error) => {
                proof {
                    super::events::lemma_same_actors(self.ids, old(self)@, self@);
                }
                return Err(error);
            },
        }
        self.stack[top].actor.registered_name = Some(name);
        proof {
            let current = old(self)@.top().actor;
            let after = old(self)@.with_current(
                (ActorView { registered_name: Some(name), ..current }),
            );
            assert(self@.stack =~= after.stack);
            assert(old(self)@.stack[top as int].actor.wf());
            super::current::lemma_top_ids(self.ids, old(self)@, self@, after.top());
        }
        Ok(())
    }

    /// Removes the registered name of the current actor and returns it.
    pub fn unregister_own_name(&mut self) -> (removed: Option<String>)
        requires
            old(self).wf(),
            old(self)@.in_hook(),
        ensures
            final(self).wf(),
            final(self).same_setup(*old(self)),
            ({
                let before = old(self)@;
                let current = before.top().actor;
                match crate::registry::name_in(before.state.names, current.id) {
                    Some(name) => {
                        &&& removed matches Some(text) && text@ == name
                        &&& final(self)@ == before.with_current(
                            (ActorView { registered_name: None, ..current }),
                        ).with_state(
                            (StateView {
                                names: before.state.names.remove(name),
                                ..before.state
                            }),
                        )
                    },
                    None => removed is None && final(self)@ == before,
                }
            }),
    {
        let top: usize = self.stack.len() - 1;
        assert(self@.top() == self.stack@[top as int]@);
        let id = self.stack[top].actor.id;
        match self.state.registry.unregister(id) {
            Some(removed) => {
                self.stack[top].actor.registered_name = None;
                proof {
                    let current = old(self)@.top().actor;
                    let after = old(self)@.with_current(
                        (ActorView { registered_name: None, ..current }),
                    );
                    assert(self@.stack =~= after.stack);
                    assert(old(self)@.stack[top as int].actor.wf());
                    super::current::lemma_top_ids(self.ids, old(self)@, self@, after.top());
                }
                Some(removed)
            },
            None => {
                proof {
                    super::events::lemma_same_actors(self.ids, old(self)@, self@);
                }
                None
            },
        }
    }

    /// Sets a timer for the current actor.
    pub fn set_timer(&mut self, token: TimerToken)
        requires
            old(self).wf(),
            old(self)@.in_hook(),
        ensures
            final(self).wf(),
            final(self).same_setup(*old(self)),
            final(self)@ == old(self)@.with_state(
                (StateView {
                    timers: old(self)@.state.timers.insert(
                        (old(self)@.top().actor.id, token.spec_ref()),
                    ),
                    ..old(self)@.state
                }),
            ),
    {
        let id = self.actor_id();
        self.state.timers.insert(id, token.as_ref());
        proof {
            super::events::lemma_same_actors(self.ids, old(self)@, self@);
        }
    }

    /// Cancels a timer of the current actor and tells whether there was anything to cancel.
    /// Firings that wait in the mailbox are withdrawn.
    pub fn cancel_timer(&mut self, token: TimerToken) -> (cancelled: bool)
        requires
            old(self).wf(),
            old(self)@.in_hook(),
        ensures
            final(self).wf(),
            final(self).same_setup(*old(self)),
            ({
                let before = old(self)@;
                let current = before.top().actor;
                let entry = (current.id, token.spec_ref());
                &&& cancelled == (before.state.timers.contains(entry) || current.has_firing(token))
                &&& final(self)@ == before.timer_cancelled(token)
            }),
    {
        let top: usize = self.stack.len() - 1;
        assert(self@.top() == self.stack@[top as int]@);
        let id = self.stack[top].actor.id;
        let pending = self.state.timers.remove(id, token.as_ref());
        let withdrawn = self.stack[top].actor.withdraw_timer(token);
        proof {
            let after = old(self)@.with_current(old(self)@.top().actor.withdrawn(token));
            assert(self@.stack =~= after.stack);
            assert(old(self)@.stack[top as int].actor.wf());
            super::current::lemma_top_ids(self.ids, old(self)@, self@, after.top());
        }
        pending || withdrawn
    }

    /// Counts a job that the current actor submits to a pool.
    pub fn count_job(&mut self, pool: PoolKind)
        requires
            old(self).wf(),
        ensures
            final(self).wf(),
            final(self).same_setup(*old(self)),
            final(self)@ == old(self)@.with_state(
                (StateView {
                    metrics: old(self)@.state.metrics.with_job(pool),
                    ..old(self)@.state
                }),
            ),
    {
        self.state.metrics.count_job(pool);
        proof {
            super::events::lemma_same_actors(self.ids, old(self)@, self@);
        }
    }

    /// Configures the current actor as a supervisor.
    pub fn configure_supervisor(&mut self, flags: SupervisorFlags, child_specs: Vec<ChildSpec>)
        requires
            old(self).wf(),
            old(self)@.in_hook(),
        ensures
            final(self).wf(),
            final(self).same_setup(*old(self)),
            final(self)@ == old(self)@.with_current(
                old(self)@.top().actor.configured(flags, child_specs@),
            ),
    {
        let top: usize = self.stack.len() - 1;
        assert(self@.top() == self.stack@[top as int]@);
        self.stack[top].actor.configure_supervisor(flags, child_specs);
        proof {
            let after = old(self)@.with_current(
                old(self)@.top().actor.configured(flags, child_specs@),
            );
            assert(self@.stack =~= after.stack);
            assert(old(self)@.stack[top as int].actor.wf());
            super::current::lemma_top_ids(self.ids, old(self)@, self@, after.top());
        }
    }

    /// Records a restart by the current actor and tells whether it is within limits.
    pub fn record_supervisor_restart(&mut self, now: Timestamp) -> (allowed: bool)
        requires
            old(self).wf(),
            old(self)@.in_hook(),
        ensures
            final(self).wf(),
            final(self).same_setup(*old(self)),
            allowed == old(self)@.top().actor.may_restart(now),
            final(self)@ == old(self)@.with_current(old(self)@.top().actor.restarted(now)),
    {
        let top: usize = self.stack.len() - 1;
        assert(self@.top() == self.stack@[top as int]@);
        let allowed = self.stack[top].actor.record_restart(now);
        proof {
            let after = old(self)@.with_current(old(self)@.top().actor.restarted(now));
            assert(self@.stack =~= after.stack);
            assert(old(self)@.stack[top as int].actor.wf());
            super::current::lemma_top_ids(self.ids, old(self)@, self@, after.top());
        }
        allowed
    }

    /// Notes that a child of the current actor runs.
    pub fn supervisor_child_started(&mut self, child_id: &'static str, actor: ActorId)
        requires
            old(self).wf(),
            old(self)@.in_hook(),
        ensures
            final(self).wf(),
            final(self).same_setup(*old(self)),
            final(self)@ == old(self)@.with_current(
                old(self)@.top().actor.running_child(child_id@, actor),
            ),
    {
        let top: usize = self.stack.len() - 1;
        assert(self@.top() == self.stack@[top as int]@);
        self.stack[top].actor.child_started(child_id, actor);
        proof {
            let after = old(self)@.with_current(
                old(self)@.top().actor.running_child(child_id@, actor),
            );
            assert(self@.stack =~= after.stack);
            assert(old(self)@.stack[top as int].actor.wf());
            super::current::lemma_top_ids(self.ids, old(self)@, self@, after.top());
        }
    }

    /// Notes that a child of the current actor is gone.
    pub fn supervisor_child_exited(&mut self, child_id: &'static str, actor: ActorId)
        requires
            old(self).wf(),
            old(self)@.in_hook(),
        ensures
            final(self).wf(),
            final(self).same_setup(*old(self)),
            final(self)@ == old(self)@.with_current(
                old(self)@.top().actor.cleared_child(child_id@, actor),
            ),
    {
        let top: usize = self.stack.len() - 1;
        assert(self@.top() == self.stack@[top as int]@);
        self.stack[top].actor.child_exited(child_id, actor);
        proof {
            let after = old(self)@.with_current(
                old(self)@.top().actor.cleared_child(child_id@, actor),
            );
            assert(self@.stack =~= after.stack);
            assert(old(self)@.stack[top as int].actor.wf());
            super::current::lemma_top_ids(self.ids, old(self)@, self@, after.top());
        }
    }

    /// Emits a structured lifecycle event into the runtime stream.
    pub fn emit_lifecycle_event(&mut self, event: LifecycleEvent)
        requires
            old(self).wf(),
        ensures
            final(self).wf(),
            final(self).same_setup(*old(self)),
            final(self)@ == old(self)@.with_state(old(self)@.state.logged(event@)),
    {
        self.state.record_lifecycle_event(event);
        proof {
            super::events::lemma_same_actors(self.ids, old(self)@, self@);
        }
    }

    /// Returns a watermark that the envelopes of the future are at or after.
    pub fn mailbox_watermark(&self) -> (watermark: MailboxWatermark)
        requires
            self@.in_hook(),
        ensures
            watermark.spec_sequence() == self@.top().actor.mailbox.next_sequence,
    {
        let top: usize = self.stack.len() - 1;
        self.stack[top].actor.mailbox.watermark()
    }

    /// Claims the oldest envelope of the current actor, unless it has claimed the envelope of its
    /// turn.
    pub fn receive_next(&mut self) -> (envelope: Option<Envelope>)
        requires
            old(self).wf(),
            old(self)@.in_hook(),
        ensures
            final(self).wf(),
            final(self).same_setup(*old(self)),
            ({
                let current = old(self)@.top().actor;
                if !current.has_claimed && current.mailbox.queue.len() > 0 {
                    &&& envelope == Some(current.mailbox.queue[0].envelope)
                    &&& final(self)@ == old(self)@.with_current(current.claimed(0))
                } else {
                    envelope is None && final(self)@ == old(self)@
                }
            }),
    {
        let top: usize = self.stack.len() - 1;
        assert(self@.top() == self.stack@[top as int]@);
        let envelope = self.stack[top].actor.receive_next();
        proof {
            let after = self.stack@[top as int]@;
            assert(self@.stack =~= old(self)@.stack.drop_last().push(after));
            assert(old(self)@.stack[top as int].actor.wf());
            super::current::lemma_top_ids(self.ids, old(self)@, self@, after);
            assert(self@ == old(self)@.with_current(after.actor));
            if envelope is None {
                assert(self@.stack =~= old(self)@.stack);
            }
        }
        envelope
    }

    /// Claims the first envelope of the current actor that the predicate accepts, unless it has
    /// claimed the envelope of its turn. Control and failure traffic comes before everything else,
    /// whatever the predicate says.
    pub fn receive_selective<F>(&mut self, predicate: F) -> (envelope: Option<Envelope>) where
        F: Fn(&Envelope) -> bool,

        requires
            old(self).wf(),
            old(self)@.in_hook(),
            forall|envelope: &Envelope| #[trigger] predicate.requires((envelope,)),
        ensures
            final(self).wf(),
            final(self).same_setup(*old(self)),
            old(self)@.received(
                crate::runtime::actor_state::by_predicate(predicate),
                envelope,
                final(self)@,
            ),
    {
        let top: usize = self.stack.len() - 1;
        assert(self@.top() == self.stack@[top as int]@);
        let envelope = self.stack[top].actor.receive_selective(predicate);
        proof {
            let after = self.stack@[top as int]@;
            assert(self@.stack =~= old(self)@.stack.drop_last().push(after));
            assert(old(self)@.stack[top as int].actor.wf());
            super::current::lemma_top_ids(self.ids, old(self)@, self@, after);
            assert(self@ == old(self)@.with_current(after.actor));
            if envelope is None {
                assert(self@.stack =~= old(self)@.stack);
            }
        }
        envelope
    }

    /// Claims the first envelope of the current actor at or after the watermark that the
    /// predicate accepts, unless it has claimed the envelope of its turn. Control and failure
    /// traffic comes before everything else.
    pub fn receive_selective_after<F>(
        &mut self,
        watermark: MailboxWatermark,
        predicate: F,
    ) -> (envelope: Option<Envelope>) where F: Fn(&Envelope) -> bool
        requires
            old(self).wf(),
            old(self)@.in_hook(),
            forall|envelope: &Envelope| #[trigger] predicate.requires((envelope,)),
        ensures
            final(self).wf(),
            final(self).same_setup(*old(self)),
            old(self)@.received(
                crate::runtime::actor_state::by_predicate_after(predicate, watermark),
                envelope,
                final(self)@,
            ),
    {
        let top: usize = self.stack.len() - 1;
        assert(self@.top() == self.stack@[top as int]@);
        let envelope = self.stack[top].actor.receive_selective_after(watermark, predicate);
        proof {
            let after = self.stack@[top as int]@;
            assert(self@.stack =~= old(self)@.stack.drop_last().push(after));
            assert(old(self)@.stack[top as int].actor.wf());
            super::current::lemma_top_ids(self.ids, old(self)@, self@, after);
            assert(self@ == old(self)@.with_current(after.actor));
            if envelope is None {
                assert(self@.stack =~= old(self)@.stack);
            }
        }
        envelope
    }

    /// Claims the first envelope of the current actor that is the firing of the timeout or that
    /// the predicate accepts. The timeout is cancelled when another envelope than its firing wins.
    pub fn receive_selective_with_timeout<F>(
        &mut self,
        timeout: ReceiveTimeout,
        predicate: F,
    ) -> (envelope: Option<Envelope>) where F: Fn(&Envelope) -> bool
        requires
            old(self).wf(),
            old(self)@.in_hook(),
            forall|envelope: &Envelope| #[trigger] predicate.requires((envelope,)),
        ensures
            final(self).wf(),
            final(self).same_setup(*old(self)),
            old(self)@.received_in_time(
                timeout.spec_token(),
                crate::runtime::actor_state::by_firing_or_predicate(
                    timeout.spec_token(),
                    predicate,
                ),
                envelope,
                final(self)@,
            ),
    {
        let ghost before = self@;
        let wanted = |envelope: &Envelope| -> (found: bool)
            ensures
                if envelope.is_firing_of(timeout.spec_token()) {
                    found
                } else {
                    crate::runtime::actor_state::may_answer(&predicate, envelope, found)
                },
            { timeout.matches(envelope) || predicate(envelope) };
        let envelope = self.receive_selective(wanted);
        let ghost claimed = self@;
        proof {
            crate::runtime::actor_state::lemma_wider_selection(
                before.top().actor,
                crate::runtime::actor_state::by_predicate(wanted),
                crate::runtime::actor_state::by_firing_or_predicate(
                    timeout.spec_token(),
                    predicate,
                ),
                envelope,
                claimed.top().actor,
            );
            assert(before.received(
                crate::runtime::actor_state::by_firing_or_predicate(
                    timeout.spec_token(),
                    predicate,
                ),
                envelope,
                claimed,
            ));
        }
        let beaten = match &envelope {
            Some(claimed) => !timeout.matches(claimed),
            None => false,
        };
        if beaten {
            let _cancelled = self.cancel_timer(timeout.token());
        }
        envelope
    }

    /// Claims the next envelope of the current actor, or the firing of the timeout. The timeout is
    /// cancelled when another envelope than its firing wins.
    pub fn receive_next_with_timeout(&mut self, timeout: ReceiveTimeout) -> (envelope: Option<
        Envelope,
    >)
        requires
            old(self).wf(),
            old(self)@.in_hook(),
        ensures
            final(self).wf(),
            final(self).same_setup(*old(self)),
            old(self)@.received_in_time(
                timeout.spec_token(),
                crate::runtime::actor_state::of_everything(),
                envelope,
                final(self)@,
            ),
    {
        let ghost before = self@;
        let any = |_envelope: &Envelope| -> (found: bool)
            ensures
                found,
            { true };
        let envelope = self.receive_selective_with_timeout(timeout, any);
        proof {
            let narrow = crate::runtime::actor_state::by_firing_or_predicate(
                timeout.spec_token(),
                any,
            );
            let claimed = choose|claimed: LocalView| #[trigger]
                before.received(narrow, envelope, claimed) && self@ == (
                if crate::runtime::actor_state::beats_timeout(envelope, timeout.spec_token()) {
                    claimed.timer_cancelled(timeout.spec_token())
                } else {
                    claimed
                });
            crate::runtime::actor_state::lemma_wider_selection(
                before.top().actor,
                narrow,
                crate::runtime::actor_state::of_everything(),
                envelope,
                claimed.top().actor,
            );
            assert(before.received(
                crate::runtime::actor_state::of_everything(),
                envelope,
                claimed,
            ));
        }
        envelope
    }
}

} // verus!
