//! The actor behind a typed server.

use vstd::prelude::*;

use crate::actor::ActorTurn;
use crate::control::ControlError;
use crate::envelope::{Envelope, Message, ReplyToken};
use crate::types::ExitReason;

use super::adapter::{
    classify_envelope, downcast_payload, downcast_user_message, uninitialized, DispatchEnvelope,
    UserMessage,
};
use super::info::{CastMessage, InfoMessage, RuntimeInfo};

verus! {

/// Outcome of handling a synchronous `call`.
#[derive(Debug, Clone, PartialEq, Eq)]
#[allow(inconsistent_fields)]
pub enum CallOutcome<R> {
    /// Reply and continue running.
    Reply(R),
    /// Reply and then stop with an exit reason.
    ReplyAndStop {
        /// The reply sent to the caller.
        reply: R,
        /// The reason the server should terminate.
        reason: ExitReason,
    },
    /// Delay the reply and continue running.
    NoReply,
    /// Stop without sending a reply.
    Stop(ExitReason),
}

/// Outcome of handling an async cast or info message.
#[derive(Debug, Clone, PartialEq, Eq)]
pub enum ServerOutcome {
    /// Continue running.
    Continue,
    /// Yield after the current turn.
    Yield,
    /// Stop the server.
    Stop(ExitReason),
}

/// What a server is asked to do.
#[derive(Debug)]
pub enum ServerWork<Call, Cast, Info> {
    /// Answer a request.
    Call(ReplyToken, Call),
    /// Handle a cast.
    Cast(Cast),
    /// Handle an info message.
    Info(Info),
    /// Handle a message of the runtime.
    Runtime(RuntimeInfo),
}

/// Actor adapter that makes a typed server spawnable on the raw runtime.
#[derive(Debug)]
pub struct GenServerActor<G, S> {
    /// The server.
    pub server: G,
    /// The state of the server, once it is initialized.
    pub state: Option<S>,
    /// The version of the state.
    pub state_version: u64,
}

/// What a call comes to: the reply that is sent, and the end of the turn.
pub open spec fn call_result<R>(outcome: CallOutcome<R>) -> (Option<R>, ActorTurn) {
    match outcome {
        CallOutcome::Reply(reply) => (Some(reply), ActorTurn::Continue),
        CallOutcome::ReplyAndStop { reply, reason } => (Some(reply), ActorTurn::Stop(reason)),
        CallOutcome::NoReply => (None, ActorTurn::Continue),
        CallOutcome::Stop(reason) => (None, ActorTurn::Stop(reason)),
    }
}

/// Decides what a call comes to: the reply to send, and the end of the turn.
pub fn settle_call<R>(outcome: CallOutcome<R>) -> (result: (Option<R>, ActorTurn))
    ensures
        result == call_result(outcome),
        outcome matches CallOutcome::Reply(reply) ==> result.0 == Some(reply)
            && result.1 is Continue,
        outcome matches CallOutcome::ReplyAndStop { reply, reason } ==> result.0 == Some(reply)
            && result.1 == ActorTurn::Stop(reason),
        outcome is NoReply ==> result.0 is None && result.1 is Continue,
        outcome matches CallOutcome::Stop(reason) ==> result.0 is None && result.1
            == ActorTurn::Stop(reason),
{
    match outcome {
        CallOutcome::Reply(reply) => (Some(reply), ActorTurn::Continue),
        CallOutcome::ReplyAndStop { reply, reason } => (Some(reply), ActorTurn::Stop(reason)),
        CallOutcome::NoReply => (None, ActorTurn::Continue),
        CallOutcome::Stop(reason) => (None, ActorTurn::Stop(reason)),
    }
}

/// Decides how a turn ends after an async message.
pub fn map_server_outcome(outcome: ServerOutcome) -> (turn: ActorTurn)
    ensures
        turn == match outcome {
            ServerOutcome::Continue => ActorTurn::Continue,
            ServerOutcome::Yield => ActorTurn::Yield,
            ServerOutcome::Stop(reason) => ActorTurn::Stop(reason),
        },
        turn is Continue <==> outcome is Continue,
        turn is Yield <==> outcome is Yield,
        forall|reason: ExitReason|
            (turn == ActorTurn::Stop(reason)) == (outcome == ServerOutcome::Stop(reason)),
{
    match outcome {
        ServerOutcome::Continue => ActorTurn::Continue,
        ServerOutcome::Yield => ActorTurn::Yield,
        ServerOutcome::Stop(reason) => ActorTurn::Stop(reason),
    }
}

/// Whether work is what an envelope asks of a server, or the end of the turn when the envelope
/// holds a message of a type that the server does not know.
pub open spec fn asks<Call: Message, Cast: Message, Info: Message>(
    envelope: Envelope,
    label: Seq<char>,
    actor: Seq<char>,
    work: Result<ServerWork<Call, Cast, Info>, ActorTurn>,
) -> bool where CastMessage<Cast>: Message, InfoMessage<Info>: Message {
    match super::adapter::dispatched(envelope) {
        DispatchEnvelope::Request { token, message } => {
            &&& match work {
                Ok(ServerWork::Call(asker, call)) => asker == token && crate::envelope::erased(
                    call,
                ) == message@,
                Ok(_) => false,
                Err(turn) => !crate::envelope::holds::<Call>(message@)
                    && super::adapter::stops_with(
                    turn,
                    super::adapter::unexpected_text(label, message.spec_label()@),
                ),
            }
            &&& forall|held: Call| #[trigger]
                crate::envelope::erased(held) == message@ ==> work == Ok::<
                    ServerWork<Call, Cast, Info>,
                    ActorTurn,
                >(ServerWork::Call(token, held))
        },
        DispatchEnvelope::User(payload) => {
            &&& match work {
                Ok(ServerWork::Cast(cast)) => crate::envelope::erased(CastMessage(cast))
                    == payload@,
                Ok(ServerWork::Info(info)) => {
                    &&& !crate::envelope::holds::<CastMessage<Cast>>(payload@)
                    &&& crate::envelope::erased(InfoMessage(info)) == payload@
                },
                Ok(_) => false,
                Err(turn) => {
                    &&& !crate::envelope::holds::<CastMessage<Cast>>(payload@)
                    &&& !crate::envelope::holds::<InfoMessage<Info>>(payload@)
                    &&& super::adapter::stops_with(
                        turn,
                        super::adapter::unexpected_user_text(actor, payload.spec_label()@),
                    )
                },
            }
            &&& forall|held: Cast| #[trigger]
                crate::envelope::erased(CastMessage(held)) == payload@ ==> work == Ok::<
                    ServerWork<Call, Cast, Info>,
                    ActorTurn,
                >(ServerWork::Cast(held))
            &&& forall|held: Info| #[trigger]
                crate::envelope::erased(InfoMessage(held)) == payload@ && !crate::envelope::holds::<
                    CastMessage<Cast>,
                >(payload@) ==> work == Ok::<ServerWork<Call, Cast, Info>, ActorTurn>(
                    ServerWork::Info(held),
                )
        },
        DispatchEnvelope::Runtime(info) => work == Ok::<
            ServerWork<Call, Cast, Info>,
            ActorTurn,
        >(ServerWork::Runtime(info)),
    }
}

/// Decides what an envelope asks of a behaviour.
pub(crate) fn work_of<Call: Message, Cast: Message, Info: Message>(
    envelope: Envelope,
    label: &str,
    actor: &str,
) -> (work: Result<ServerWork<Call, Cast, Info>, ActorTurn>) where
    CastMessage<Cast>: Message,
    InfoMessage<Info>: Message,

    ensures
        asks(envelope, label@, actor@, work),
{
    match classify_envelope(envelope) {
        DispatchEnvelope::Request { token, message } => match downcast_payload::<Call>(
            message,
            label,
        ) {
            Ok(call) => Ok(ServerWork::Call(token, call)),
            Err(turn) => Err(turn),
        },
        DispatchEnvelope::User(payload) => match downcast_user_message::<Cast, Info>(
            payload,
            actor,
        ) {
            Ok(UserMessage::Cast(cast)) => Ok(ServerWork::Cast(cast)),
            Ok(UserMessage::Info(info)) => Ok(ServerWork::Info(info)),
            Err(turn) => Err(turn),
        },
        DispatchEnvelope::Runtime(info) => Ok(ServerWork::Runtime(info)),
    }
}

impl<G, S> GenServerActor<G, S> {
    /// Wraps a typed server as a low-level actor.
    pub fn new(server: G) -> (actor: Self)
        ensures
            actor == (GenServerActor { server, state: None::<S>, state_version: 0 }),
    {
        GenServerActor { server, state: None, state_version: 0 }
    }

    /// Takes over the outcome of the initialization of the server, with the version of its state.
    pub fn initialized(&mut self, outcome: Result<S, ExitReason>, version: u64) -> (result: Result<
        (),
        ExitReason,
    >)
        ensures
            match outcome {
                Ok(state) => {
                    &&& result is Ok
                    &&& *final(self) == (GenServerActor {
                        server: old(self).server,
                        state: Some(state),
                        state_version: version,
                    })
                },
                Err(reason) => result == Err::<(), ExitReason>(reason) && *final(self) == *old(
                    self,
                ),
            },
    {
        match outcome {
            Ok(state) => {
                self.state = Some(state);
                self.state_version = version;
                Ok(())
            },
            Err(reason) => Err(reason),
        }
    }

    /// Decides what an envelope asks of the server. A message of an unknown type ends the actor,
    /// and so does any other message before the server is initialized.
    pub fn work<Call: Message, Cast: Message, Info: Message>(&self, envelope: Envelope) -> (work:
        Result<ServerWork<Call, Cast, Info>, ActorTurn>) where
        CastMessage<Cast>: Message,
        InfoMessage<Info>: Message,

        ensures
            exists|asked: Result<ServerWork<Call, Cast, Info>, ActorTurn>| #[trigger]
                asks(envelope, "call"@, "server"@, asked) && (if asked is Ok && self.state is None {
                    work matches Err(turn) && super::adapter::stops_with(
                        turn,
                        super::adapter::uninitialized_text("gen server state"@),
                    )
                } else {
                    work == asked
                }),
    {
        let asked = work_of::<Call, Cast, Info>(envelope, "call", "server");
        assert(asks(envelope, "call"@, "server"@, asked));
        match asked {
            Ok(work) => {
                if self.state.is_none() {
                    Err(uninitialized("gen server state"))
                } else {
                    Ok(work)
                }
            },
            Err(turn) => Err(turn),
        }
    }

    /// Tells whether a control operation can go ahead, which needs the state of the server.
    pub fn admit_control(&self, operation: &'static str) -> (outcome: Result<(), ControlError>)
        ensures
            self.state is Some ==> outcome is Ok,
            self.state is None ==> (outcome matches Err(ControlError::Rejected {
                operation: refused,
                reason,
            }) && refused == operation && reason@ == "server state is not initialized"@),
    {
        if self.state.is_some() {
            Ok(())
        } else {
            Err(ControlError::rejected(operation, "server state is not initialized"))
        }
    }

    /// Takes over the outcome of a code change to a version.
    pub fn code_changed(&mut self, target_version: u64, outcome: Result<(), ControlError>) -> (
    result: Result<(), ControlError>)
        ensures
            result == outcome,
            *final(self) == (GenServerActor {
                state_version: if outcome is Ok {
                    target_version
                } else {
                    old(self).state_version
                },
                ..*old(self)
            }),
    {
        if outcome.is_ok() {
            self.state_version = target_version;
        }
        outcome
    }
}

/// A call ends the server exactly when its outcome names a reason to stop, with that reason, and
/// is answered exactly when the outcome carries a reply, with that reply.
pub proof fn lemma_a_call_does_what_its_outcome_says<R>(reply: R, reason: ExitReason)
    ensures
        call_result::<R>(CallOutcome::Reply(reply)).0 == Some(reply),
        call_result::<R>(CallOutcome::ReplyAndStop { reply, reason }).0 == Some(reply),
        call_result::<R>(CallOutcome::NoReply).0 is None,
        call_result::<R>(CallOutcome::Stop(reason)).0 is None,
        call_result::<R>(CallOutcome::Reply(reply)).1 is Continue,
        call_result::<R>(CallOutcome::NoReply).1 is Continue,
        call_result::<R>(CallOutcome::ReplyAndStop { reply, reason }).1 == ActorTurn::Stop(reason),
        call_result::<R>(CallOutcome::Stop(reason)).1 == ActorTurn::Stop(reason),
{
}

/// What envelopes ask of a server: a request with a call that it knows is that call, with the
/// token to answer it by; a user message with a cast that it knows is that cast; an envelope of
/// the runtime is passed on; and a request with something else ends the turn with an error.
pub proof fn lemma_what_envelopes_ask_of_a_server<Call: Message, Cast: Message, Info: Message>(
    envelope: Envelope,
    label: Seq<char>,
    actor: Seq<char>,
    work: Result<ServerWork<Call, Cast, Info>, ActorTurn>,
    call: Call,
    cast: Cast,
) where CastMessage<Cast>: Message, InfoMessage<Info>: Message
    requires
        asks(envelope, label, actor, work),
    ensures
        envelope matches Envelope::Request { token, message } ==> (message@
            == crate::envelope::erased(call) ==> work == Ok::<
            ServerWork<Call, Cast, Info>,
            ActorTurn,
        >(ServerWork::Call(token, call))),
        envelope matches Envelope::Request { token, message } ==> (!crate::envelope::holds::<Call>(
            message@,
        ) ==> work is Err && work->Err_0 is Stop && work->Err_0->0 is Error),
        envelope matches Envelope::User(payload) ==> (payload@ == crate::envelope::erased(
            CastMessage(cast),
        ) ==> work == Ok::<ServerWork<Call, Cast, Info>, ActorTurn>(ServerWork::Cast(cast))),
        envelope matches Envelope::User(payload) ==> (!crate::envelope::holds::<CastMessage<Cast>>(
            payload@,
        ) && !crate::envelope::holds::<InfoMessage<Info>>(payload@) ==> work is Err
            && work->Err_0 is Stop && work->Err_0->0 is Error),
        !(envelope is Request) && !(envelope is User) ==> work is Ok && work->Ok_0 is Runtime,
        work matches Ok(ServerWork::Call(_, _)) ==> envelope is Request,
        work matches Ok(ServerWork::Cast(_)) ==> envelope is User,
        work matches Ok(ServerWork::Info(_)) ==> envelope is User,
        envelope matches Envelope::Exit(signal) ==> work == Ok::<
            ServerWork<Call, Cast, Info>,
            ActorTurn,
        >(ServerWork::Runtime(super::info::RuntimeInfo::Exit(signal))),
        envelope matches Envelope::Down(down) ==> work == Ok::<
            ServerWork<Call, Cast, Info>,
            ActorTurn,
        >(ServerWork::Runtime(super::info::RuntimeInfo::Down(down))),
        envelope matches Envelope::Timer(fired) ==> work == Ok::<
            ServerWork<Call, Cast, Info>,
            ActorTurn,
        >(ServerWork::Runtime(super::info::RuntimeInfo::Timer(fired))),
{
}

} // verus!
