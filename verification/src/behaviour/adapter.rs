//! From envelopes to typed messages.

use vstd::prelude::*;

use crate::actor::ActorTurn;
use crate::envelope::{Envelope, Message, Payload, ReplyToken};
use crate::types::ExitReason;

use super::info::{CastMessage, InfoMessage, RuntimeInfo};

verus! {

/// What an envelope is to a behaviour.
#[derive(Debug)]
#[allow(inconsistent_fields)]
pub enum DispatchEnvelope {
    /// A synchronous request.
    Request {
        /// Where the reply goes.
        token: ReplyToken,
        /// The request payload.
        message: Payload,
    },
    /// A message from an actor.
    User(Payload),
    /// A message from the runtime.
    Runtime(RuntimeInfo),
}

/// A message from an actor.
#[derive(Debug)]
pub enum UserMessage<C, I> {
    /// A cast.
    Cast(C),
    /// An info message.
    Info(I),
}

/// What an envelope is to a behaviour: requests and user messages are its own, and everything
/// else comes from the runtime.
pub open spec fn dispatched(envelope: Envelope) -> DispatchEnvelope {
    match envelope {
        Envelope::Request { token, message } => DispatchEnvelope::Request { token, message },
        Envelope::User(payload) => DispatchEnvelope::User(payload),
        Envelope::Reply { reference, message } => DispatchEnvelope::Runtime(
            RuntimeInfo::Reply { reference, message },
        ),
        Envelope::Task(task) => DispatchEnvelope::Runtime(RuntimeInfo::Task(task)),
        Envelope::CallTimeout(timeout) => DispatchEnvelope::Runtime(
            RuntimeInfo::CallTimeout(timeout),
        ),
        Envelope::Exit(signal) => DispatchEnvelope::Runtime(RuntimeInfo::Exit(signal)),
        Envelope::Down(message) => DispatchEnvelope::Runtime(RuntimeInfo::Down(message)),
        Envelope::Timer(timer) => DispatchEnvelope::Runtime(RuntimeInfo::Timer(timer)),
        Envelope::System(message) => DispatchEnvelope::Runtime(RuntimeInfo::System(message)),
    }
}

/// Decides what an envelope is to a behaviour.
pub fn classify_envelope(envelope: Envelope) -> (dispatch: DispatchEnvelope)
    ensures
        dispatch == dispatched(envelope),
        dispatch is Request <==> envelope is Request,
        dispatch is User <==> envelope is User,
        dispatch is Runtime <==> !(envelope is Request) && !(envelope is User),
{
    match envelope {
        Envelope::Request { token, message } => DispatchEnvelope::Request { token, message },
        Envelope::User(payload) => DispatchEnvelope::User(payload),
        Envelope::Reply { reference, message } => DispatchEnvelope::Runtime(
            RuntimeInfo::Reply { reference, message },
        ),
        Envelope::Task(task) => DispatchEnvelope::Runtime(RuntimeInfo::Task(task)),
        Envelope::CallTimeout(timeout) => DispatchEnvelope::Runtime(
            RuntimeInfo::CallTimeout(timeout),
        ),
        Envelope::Exit(signal) => DispatchEnvelope::Runtime(RuntimeInfo::Exit(signal)),
        Envelope::Down(message) => DispatchEnvelope::Runtime(RuntimeInfo::Down(message)),
        Envelope::Timer(timer) => DispatchEnvelope::Runtime(RuntimeInfo::Timer(timer)),
        Envelope::System(message) => DispatchEnvelope::Runtime(RuntimeInfo::System(message)),
    }
}

/// Whether a turn stops an actor with an error of the given text.
pub open spec fn stops_with(turn: ActorTurn, text: Seq<char>) -> bool {
    turn matches ActorTurn::Stop(ExitReason::Error(detail)) && detail@ == text
}

/// The complaint about a payload of an unexpected type.
pub open spec fn unexpected_text(what: Seq<char>, label: Seq<char>) -> Seq<char> {
    "unexpected "@ + what + " payload `"@ + label + "`"@
}

/// The complaint about a user payload of an unexpected type.
pub open spec fn unexpected_user_text(actor: Seq<char>, label: Seq<char>) -> Seq<char> {
    "unexpected "@ + actor + " user payload `"@ + label + "`"@
}

/// The complaint about state that is not there yet.
pub open spec fn uninitialized_text(what: Seq<char>) -> Seq<char> {
    what + " is not initialized"@
}

/// Stops an actor because of a payload of an unexpected type.
fn unexpected(what: &str, middle: &str, payload: &Payload) -> (turn: ActorTurn)
    ensures
        stops_with(
            turn,
            "unexpected "@ + what@ + middle@ + " payload `"@ + payload.spec_label()@ + "`"@,
        ),
{
    let mut text = String::new();
    text.append("unexpected ");
    text.append(what);
    text.append(middle);
    text.append(" payload `");
    text.append(payload.label());
    text.append("`");
    assert(text@ =~= "unexpected "@ + what@ + middle@ + " payload `"@ + payload.spec_label()@
        + "`"@);
    ActorTurn::Stop(ExitReason::Error(text))
}

/// Stops an actor because its state is not there yet.
pub fn uninitialized(what: &str) -> (turn: ActorTurn)
    ensures
        stops_with(turn, uninitialized_text(what@)),
{
    let mut text = String::new();
    text.append(what);
    text.append(" is not initialized");
    assert(text@ =~= uninitialized_text(what@));
    ActorTurn::Stop(ExitReason::Error(text))
}

/// Takes a typed message out of a payload, or stops the actor when there is none of that type.
pub fn downcast_payload<M: Message>(payload: Payload, label: &str) -> (message: Result<
    M,
    ActorTurn,
>)
    ensures
        message is Ok == crate::envelope::holds::<M>(payload@),
        message matches Ok(message) ==> crate::envelope::erased(message) == payload@,
        message matches Err(turn) ==> stops_with(
            turn,
            unexpected_text(label@, payload.spec_label()@),
        ),
        forall|held: M| #[trigger]
            crate::envelope::erased(held) == payload@ ==> message == Ok::<M, ActorTurn>(held),
{
    match payload.downcast::<M>() {
        Ok(message) => Ok(message),
        Err(payload) => {
            let turn = unexpected(label, "", &payload);
            proof {
                reveal_strlit("");
                assert("unexpected "@ + label@ + ""@ + " payload `"@ + payload.spec_label()@ + "`"@
                    =~= unexpected_text(label@, payload.spec_label()@));
            }
            Err(turn)
        },
    }
}

/// Takes a cast or an info message out of a payload, or stops the actor when there is neither.
pub fn downcast_user_message<C: Message, I: Message>(payload: Payload, actor: &str) -> (message:
    Result<UserMessage<C, I>, ActorTurn>) where CastMessage<C>: Message, InfoMessage<I>: Message
    ensures
        match message {
            Ok(UserMessage::Cast(cast)) => crate::envelope::erased(CastMessage(cast)) == payload@,
            Ok(UserMessage::Info(info)) => {
                &&& !crate::envelope::holds::<CastMessage<C>>(payload@)
                &&& crate::envelope::erased(InfoMessage(info)) == payload@
            },
            Err(turn) => {
                &&& !crate::envelope::holds::<CastMessage<C>>(payload@)
                &&& !crate::envelope::holds::<InfoMessage<I>>(payload@)
                &&& stops_with(turn, unexpected_user_text(actor@, payload.spec_label()@))
            },
        },
        forall|held: C| #[trigger]
            crate::envelope::erased(CastMessage(held)) == payload@ ==> message == Ok::<
                UserMessage<C, I>,
                ActorTurn,
            >(UserMessage::Cast(held)),
        forall|held: I| #[trigger]
            crate::envelope::erased(InfoMessage(held)) == payload@ && !crate::envelope::holds::<
                CastMessage<C>,
            >(payload@) ==> message == Ok::<UserMessage<C, I>, ActorTurn>(UserMessage::Info(held)),
{
    match payload.downcast::<CastMessage<C>>() {
        Ok(CastMessage(message)) => Ok(UserMessage::Cast(message)),
        Err(payload) => match payload.downcast::<InfoMessage<I>>() {
            Ok(InfoMessage(message)) => Ok(UserMessage::Info(message)),
            Err(payload) => {
                let turn = unexpected(actor, " user", &payload);
                proof {
                    reveal_strlit(" user");
                    reveal_strlit(" payload `");
                    reveal_strlit(" user payload `");
                    assert(" user"@ + " payload `"@ =~= " user payload `"@);
                    assert("unexpected "@ + actor@ + " user"@ + " payload `"@
                        + payload.spec_label()@ + "`"@ =~= unexpected_user_text(
                        actor@,
                        payload.spec_label()@,
                    ));
                }
                Err(turn)
            },
        },
    }
}

/// What each envelope is to a behaviour: a request stays a request with its reply token, a user
/// message stays one, and everything else is a message of the runtime with what it carries.
pub proof fn lemma_what_envelopes_are_to_a_behaviour(envelope: Envelope)
    ensures
        dispatched(envelope) is Request <==> envelope is Request,
        dispatched(envelope) is User <==> envelope is User,
        envelope matches Envelope::Request { token, message } ==> dispatched(envelope)
            == (DispatchEnvelope::Request { token, message }),
        envelope matches Envelope::User(payload) ==> dispatched(envelope) == DispatchEnvelope::User(
            payload,
        ),
        envelope matches Envelope::Reply { reference, message } ==> dispatched(envelope)
            == DispatchEnvelope::Runtime(RuntimeInfo::Reply { reference, message }),
        envelope matches Envelope::Task(task) ==> dispatched(envelope) == DispatchEnvelope::Runtime(
            RuntimeInfo::Task(task),
        ),
        envelope matches Envelope::CallTimeout(timeout) ==> dispatched(envelope)
            == DispatchEnvelope::Runtime(RuntimeInfo::CallTimeout(timeout)),
        envelope matches Envelope::Exit(signal) ==> dispatched(envelope)
            == DispatchEnvelope::Runtime(RuntimeInfo::Exit(signal)),
        envelope matches Envelope::Down(down) ==> dispatched(envelope) == DispatchEnvelope::Runtime(
            RuntimeInfo::Down(down),
        ),
        envelope matches Envelope::Timer(fired) ==> dispatched(envelope)
            == DispatchEnvelope::Runtime(RuntimeInfo::Timer(fired)),
        envelope matches Envelope::System(message) ==> dispatched(envelope)
            == DispatchEnvelope::Runtime(RuntimeInfo::System(message)),
{
}

/// An actor that cannot use a payload stops with an error that names what was expected and what
/// came.
pub proof fn lemma_what_complaints_say(
    turn: ActorTurn,
    what: Seq<char>,
    label: Seq<char>,
)
    ensures
        stops_with(turn, unexpected_text(what, label)) ==> turn is Stop && turn->0 is Error
            && turn->0->Error_0@ == "unexpected "@ + what + " payload `"@ + label + "`"@,
        stops_with(turn, unexpected_user_text(what, label)) ==> turn is Stop && turn->0 is Error
            && turn->0->Error_0@ == "unexpected "@ + what + " user payload `"@ + label + "`"@,
        stops_with(turn, uninitialized_text(what)) ==> turn is Stop && turn->0 is Error
            && turn->0->Error_0@ == what + " is not initialized"@,
{
}

} // verus!
