//! The actor behind a typed state machine.

use vstd::prelude::*;

use crate::actor::ActorTurn;
use crate::control::ControlError;
use crate::envelope::{Envelope, Message};
use crate::types::ExitReason;

use super::adapter::uninitialized;
use super::gen_server::{work_of, ServerWork};
use super::info::{CastMessage, InfoMessage};

verus! {

/// Outcome of handling a synchronous state-machine call.
#[derive(Debug, Clone, PartialEq, Eq)]
#[allow(inconsistent_fields)]
pub enum StatemCallOutcome<S, R> {
    /// Reply and keep the current state.
    Reply(R),
    /// Reply and transition to a new state.
    ReplyAndTransition {
        /// Reply sent to the caller.
        reply: R,
        /// Next state for the machine.
        state: S,
    },
    /// Delay the reply and keep the current state.
    NoReply,
    /// Delay the reply and transition to a new state.
    NoReplyAndTransition(S),
    /// Reply and then stop with the given reason.
    ReplyAndStop {
        /// Reply sent to the caller.
        reply: R,
        /// Final exit reason for the machine.
        reason: ExitReason,
    },
    /// Stop without sending a reply.
    Stop(ExitReason),
}

/// Outcome of handling a state-machine cast or info message.
#[derive(Debug, Clone, PartialEq, Eq)]
pub enum StatemOutcome<S> {
    /// Continue in the current state.
    Continue,
    /// Transition to a new state and continue.
    Transition(S),
    /// Yield after the current turn.
    Yield,
    /// Transition to a new state and yield.
    TransitionAndYield(S),
    /// Stop the machine.
    Stop(ExitReason),
}

/// Actor adapter that makes a typed state machine spawnable on the raw runtime.
#[derive(Debug)]
pub struct GenStatemActor<G, S, D> {
    /// The machine.
    pub machine: G,
    /// The state of the machine, once it is initialized.
    pub state: Option<S>,
    /// The data of the machine, once it is initialized.
    pub data: Option<D>,
    /// The version of the state.
    pub state_version: u64,
}

/// What a call comes to: the state that follows, the reply that is sent, and the end of the turn.
pub open spec fn statem_call_result<S, R>(state: S, outcome: StatemCallOutcome<S, R>) -> (
    S,
    Option<R>,
    ActorTurn,
) {
    match outcome {
        StatemCallOutcome::Reply(reply) => (state, Some(reply), ActorTurn::Continue),
        StatemCallOutcome::ReplyAndTransition { reply, state: next } => (
            next,
            Some(reply),
            ActorTurn::Continue,
        ),
        StatemCallOutcome::NoReply => (state, None, ActorTurn::Continue),
        StatemCallOutcome::NoReplyAndTransition(next) => (next, None, ActorTurn::Continue),
        StatemCallOutcome::ReplyAndStop { reply, reason } => (
            state,
            Some(reply),
            ActorTurn::Stop(reason),
        ),
        StatemCallOutcome::Stop(reason) => (state, None, ActorTurn::Stop(reason)),
    }
}

/// What an async message comes to: the state that follows and the end of the turn.
pub open spec fn statem_result<S>(state: S, outcome: StatemOutcome<S>) -> (S, ActorTurn) {
    match outcome {
        StatemOutcome::Continue => (state, ActorTurn::Continue),
        StatemOutcome::Transition(next) => (next, ActorTurn::Continue),
        StatemOutcome::Yield => (state, ActorTurn::Yield),
        StatemOutcome::TransitionAndYield(next) => (next, ActorTurn::Yield),
        StatemOutcome::Stop(reason) => (state, ActorTurn::Stop(reason)),
    }
}

/// Carries out what a call comes to on the state, and returns the reply to send and the end of
/// the turn.
pub fn settle_statem_call<S, R>(state: &mut S, outcome: StatemCallOutcome<S, R>) -> (result: (
    Option<R>,
    ActorTurn,
))
    ensures
        (*final(state), result.0, result.1) == statem_call_result(*old(state), outcome),
        outcome matches StatemCallOutcome::Stop(reason) ==> result.0 is None && result.1
            == ActorTurn::Stop(reason) && *final(state) == *old(state),
        outcome matches StatemCallOutcome::ReplyAndStop { reply, reason } ==> result.0 == Some(
            reply,
        ) && result.1 == ActorTurn::Stop(reason) && *final(state) == *old(state),
        outcome matches StatemCallOutcome::Reply(reply) ==> result.0 == Some(reply)
            && result.1 is Continue && *final(state) == *old(state),
        outcome matches StatemCallOutcome::ReplyAndTransition { reply, state: next } ==> result.0
            == Some(reply) && result.1 is Continue && *final(state) == next,
        outcome is NoReply ==> result.0 is None && result.1 is Continue && *final(state) == *old(
            state,
        ),
        outcome matches StatemCallOutcome::NoReplyAndTransition(next) ==> result.0 is None
            && result.1 is Continue && *final(state) == next,
{
    match outcome {
        StatemCallOutcome::Reply(reply) => (Some(reply), ActorTurn::Continue),
        StatemCallOutcome::ReplyAndTransition { reply, state: next } => {
            *state = next;
            (Some(reply), ActorTurn::Continue)
        },
        StatemCallOutcome::NoReply => (None, ActorTurn::Continue),
        StatemCallOutcome::NoReplyAndTransition(next) => {
            *state = next;
            (None, ActorTurn::Continue)
        },
        StatemCallOutcome::ReplyAndStop { reply, reason } => (
            Some(reply),
            ActorTurn::Stop(reason),
        ),
        StatemCallOutcome::Stop(reason) => (None, ActorTurn::Stop(reason)),
    }
}

/// Carries out what an async message comes to on the state, and returns the end of the turn.
pub fn map_statem_outcome<S>(state: &mut S, outcome: StatemOutcome<S>) -> (turn: ActorTurn)
    ensures
        (*final(state), turn) == statem_result(*old(state), outcome),
        outcome is Continue ==> turn is Continue && *final(state) == *old(state),
        outcome matches StatemOutcome::Transition(next) ==> turn is Continue && *final(state)
            == next,
        outcome is Yield ==> turn is Yield && *final(state) == *old(state),
        outcome matches StatemOutcome::TransitionAndYield(next) ==> turn is Yield && *final(state)
            == next,
        outcome matches StatemOutcome::Stop(reason) ==> turn == ActorTurn::Stop(reason)
            && *final(state) == *old(state),
{
    match outcome {
        StatemOutcome::Continue => ActorTurn::Continue,
        StatemOutcome::Transition(next) => {
            *state = next;
            ActorTurn::Continue
        },
        StatemOutcome::Yield => ActorTurn::Yield,
        StatemOutcome::TransitionAndYield(next) => {
            *state = next;
            ActorTurn::Yield
        },
        StatemOutcome::Stop(reason) => ActorTurn::Stop(reason),
    }
}

impl<G, S, D> GenStatemActor<G, S, D> {
    /// Wraps a typed state machine as a low-level actor.
    pub fn new(machine: G) -> (actor: Self)
        ensures
            actor == (GenStatemActor {
                machine,
                state: None::<S>,
                data: None::<D>,
                state_version: 0,
            }),
    {
        GenStatemActor { machine, state: None, data: None, state_version: 0 }
    }

    /// Takes over the outcome of the initialization of the machine, with the version of its
    /// state.
    pub fn initialized(&mut self, outcome: Result<(S, D), ExitReason>, version: u64) -> (result:
        Result<(), ExitReason>)
        ensures
            match outcome {
                Ok((state, data)) => {
                    &&& result is Ok
                    &&& *final(self) == (GenStatemActor {
                        machine: old(self).machine,
                        state: Some(state),
                        data: Some(data),
                        state_version: version,
                    })
                },
                Err(reason) => result == Err::<(), ExitReason>(reason) && *final(self) == *old(
                    self,
                ),
            },
    {
        match outcome {
            Ok((state, data)) => {
                self.state = Some(state);
                self.data = Some(data);
                self.state_version = version;
                Ok(())
            },
            Err(reason) => Err(reason),
        }
    }

    /// What keeps the machine from handling messages, if anything does.
    pub open spec fn missing(self) -> Option<Seq<char>> {
        if self.state is None {
            Some("gen statem state"@)
        } else if self.data is None {
            Some("gen statem data"@)
        } else {
            None
        }
    }

    /// Decides what an envelope asks of the machine. A message of an unknown type ends the actor,
    /// and so does any other message before the machine is initialized.
    pub fn work<Call: Message, Cast: Message, Info: Message>(&self, envelope: Envelope) -> (work:
        Result<ServerWork<Call, Cast, Info>, ActorTurn>) where
        CastMessage<Cast>: Message,
        InfoMessage<Info>: Message,

        ensures
            exists|asked: Result<ServerWork<Call, Cast, Info>, ActorTurn>| #[trigger]
                super::gen_server::asks(envelope, "statem call"@, "statem"@, asked) && (
                if asked is Ok && self.missing() is Some {
                    work matches Err(turn) && super::adapter::stops_with(
                        turn,
                        super::adapter::uninitialized_text(self.missing()->0),
                    )
                } else {
                    work == asked
                }),
    {
        let asked = work_of::<Call, Cast, Info>(envelope, "statem call", "statem");
        assert(super::gen_server::asks(envelope, "statem call"@, "statem"@, asked));
        match asked {
            Ok(work) => {
                if self.state.is_none() {
                    Err(uninitialized("gen statem state"))
                } else if self.data.is_none() {
                    Err(uninitialized("gen statem data"))
                } else {
                    Ok(work)
                }
            },
            Err(turn) => Err(turn),
        }
    }

    /// Tells whether a control operation can go ahead, which needs the state of the machine.
    pub fn admit_control(&self, operation: &'static str) -> (outcome: Result<(), ControlError>)
        ensures
            self.missing() is None ==> outcome is Ok,
            self.missing() is Some ==> (outcome matches Err(ControlError::Rejected {
                operation: refused,
                reason,
            }) && refused == operation && reason@ == "state machine is not initialized"@),
    {
        if self.state.is_some() && self.data.is_some() {
            Ok(())
        } else {
            Err(ControlError::rejected(operation, "state machine is not initialized"))
        }
    }

    /// Takes over the outcome of a code change to a version.
    pub fn code_changed(&mut self, target_version: u64, outcome: Result<(), ControlError>) -> (
    result: Result<(), ControlError>)
        ensures
            result == outcome,
            *final(self) == (GenStatemActor {
                state_version: if outcome is Ok {
                    target_version
                } else {
                    old(self).state_version
                },
                ..*old(self)
            }),
    {
        if outcome.is_ok() {
            self.state_version = target_version;
        }
        outcome
    }
}

/// A call ends the machine exactly when its outcome names a reason to stop, with that reason; it
/// is answered exactly when the outcome carries a reply, with that reply; and it changes the state
/// exactly when the outcome carries a state, to that state.
pub proof fn lemma_a_statem_call_does_what_its_outcome_says<S, R>(
    state: S,
    next: S,
    reply: R,
    reason: ExitReason,
)
    ensures
        ({
            let stopped = statem_call_result::<S, R>(state, StatemCallOutcome::Stop(reason));
            let answered = statem_call_result::<S, R>(
                state,
                StatemCallOutcome::ReplyAndStop { reply, reason },
            );
            &&& stopped.2 == ActorTurn::Stop(reason) && answered.2 == ActorTurn::Stop(reason)
            &&& stopped.1 is None && answered.1 == Some(reply)
            &&& stopped.0 == state && answered.0 == state
        }),
        ({
            let kept = statem_call_result::<S, R>(state, StatemCallOutcome::Reply(reply));
            let moved = statem_call_result::<S, R>(
                state,
                StatemCallOutcome::ReplyAndTransition { reply, state: next },
            );
            &&& kept.2 is Continue && moved.2 is Continue
            &&& kept.1 == Some(reply) && moved.1 == Some(reply)
            &&& kept.0 == state && moved.0 == next
        }),
        ({
            let kept = statem_call_result::<S, R>(state, StatemCallOutcome::NoReply);
            let moved = statem_call_result::<S, R>(
                state,
                StatemCallOutcome::NoReplyAndTransition(next),
            );
            &&& kept.2 is Continue && moved.2 is Continue
            &&& kept.1 is None && moved.1 is None
            &&& kept.0 == state && moved.0 == next
        }),
{
}

/// A message ends the machine exactly when its outcome names a reason to stop, and changes the
/// state exactly when the outcome carries one; a machine gives up the scheduler exactly when it
/// says so.
pub proof fn lemma_a_statem_message_does_what_its_outcome_says<S>(
    state: S,
    outcome: StatemOutcome<S>,
)
    ensures
        ({
            let (after, turn) = statem_result(state, outcome);
            &&& turn is Stop <==> outcome is Stop
            &&& outcome matches StatemOutcome::Stop(reason) ==> turn == ActorTurn::Stop(reason)
            &&& turn is Yield <==> outcome is Yield || outcome is TransitionAndYield
            &&& outcome matches StatemOutcome::Transition(next) ==> after == next
            &&& outcome matches StatemOutcome::TransitionAndYield(next) ==> after == next
            &&& outcome is Continue || outcome is Yield || outcome is Stop ==> after == state
        }),
{
}

/// A state machine handles messages exactly when both its state and its data are there, and it
/// says which of them is not.
pub proof fn lemma_what_a_state_machine_needs<G, S, D>(actor: GenStatemActor<G, S, D>)
    ensures
        actor.missing() is None <==> actor.state is Some && actor.data is Some,
        actor.state is None ==> actor.missing() == Some("gen statem state"@),
        actor.state is Some && actor.data is None ==> actor.missing() == Some("gen statem data"@),
{
}

} // verus!
