//! Mailbox envelopes and their type-erased payloads.

use std::any::Any;
use std::sync::mpsc;

use vstd::prelude::*;

use crate::control::{ControlResult, StateSnapshot, TraceOptions};
use crate::scheduler::PoolKind;
use crate::types::{ActorId, ExitReason, Ref, TimerToken};

verus! {

/// Soft limit for inline payloads stored directly in mailboxes.
///
/// The runtime does not measure payload byte size at send time. Instead, it
/// bounds mailbox growth by envelope count and recommends that callers move
/// larger immutable payloads behind shared buffers such as `Arc<[u8]>`, `Bytes`,
/// or `Arc<str>` once they routinely exceed this size.
pub const RECOMMENDED_INLINE_MESSAGE_LIMIT_BYTES: usize = 65_536;

/// Marker trait for values that can be sent through actor mailboxes.
pub trait Message: Send + 'static {

}

impl<T> Message for T where T: Send + 'static {

}

/// `std::sync::mpsc::Sender`, carried through control messages and never used here.
#[verifier::external_type_specification]
#[verifier::external_body]
#[verifier::reject_recursive_types(T)]
pub struct ExSender<T>(mpsc::Sender<T>);

/// A message with its type erased, kept in a `Box<dyn Any + Send>`.
///
/// The verifier takes no `dyn` of two traits, so the box stands behind a
/// struct that it does not look into.
#[verifier::external_body]
#[derive(Debug)]
pub struct ErasedBox(Box<dyn Any + Send>);

/// A message seen without its type. Contracts speak of payloads through it.
pub struct ErasedMessage {
    /// The message.
    pub message: Box<dyn Message>,
}

/// What an erased box holds.
pub uninterp spec fn erased_contents(boxed: ErasedBox) -> ErasedMessage;

/// A typed message, seen without its type.
pub open spec fn erased<M: Message>(message: M) -> ErasedMessage {
    ErasedMessage { message: Box::new(message) }
}

/// Whether an erased message is one of type `M`.
///
/// Nothing here says that a message of one type is none of another: contracts cannot speak of two
/// types being different.
pub open spec fn holds<M: Message>(contents: ErasedMessage) -> bool {
    exists|message: M| erased(message) == contents
}

/// Coerces `Box<M>` to `Box<dyn Any + Send>`.
///
/// The contract says that the box holds the message.
#[verifier::external_body]
fn erase<M: Message>(message: M) -> (boxed: ErasedBox)
    ensures
        erased_contents(boxed) == erased(message),
{
    let typed = Box::new(message);
    let inner: Box<dyn Any + Send> = typed;
    ErasedBox(inner)
}

/// `Box<dyn Any + Send>::downcast`.
///
/// The contract says that the message comes out when the box holds one of
/// type `M`, the very message that went in, and that the box comes back
/// unchanged otherwise.
#[verifier::external_body]
fn recover<M: Message>(boxed: ErasedBox) -> (recovered: Result<M, ErasedBox>)
    ensures
        recovered is Ok ==> erased(recovered->Ok_0) == erased_contents(boxed),
        recovered is Err ==> recovered->Err_0 == boxed && !holds::<M>(erased_contents(boxed)),
        forall|held: M|
            #![trigger erased(held)]
            erased(held) == erased_contents(boxed) ==> (recovered is Ok && recovered->Ok_0 == held),
{
    match boxed.0.downcast::<M>() {
        Ok(message) => Ok(*message),
        Err(rest) => Err(ErasedBox(rest)),
    }
}

/// `<dyn Any + Send>::downcast_ref`.
///
/// The contract says that it borrows the message that went in when the box
/// holds one of type `M`, and gives nothing otherwise.
#[verifier::external_body]
fn inspect<M: Message>(boxed: &ErasedBox) -> (message: Option<&M>)
    ensures
        message is Some ==> erased(*message->Some_0) == erased_contents(*boxed),
        message is None ==> !holds::<M>(erased_contents(*boxed)),
        forall|held: M|
            #![trigger erased(held)]
            erased(held) == erased_contents(*boxed) ==> message == Some(&held),
{
    boxed.0.downcast_ref::<M>()
}

/// A type-erased mailbox payload with downcast support.
#[derive(Debug)]
pub struct Payload {
    inner: ErasedBox,
    label: &'static str,
}

impl View for Payload {
    type V = ErasedMessage;

    /// The message in the payload, without its type.
    closed spec fn view(&self) -> ErasedMessage {
        erased_contents(self.inner)
    }
}

impl Payload {
    /// The name of the message type, as the sender gave it.
    pub closed spec fn spec_label(self) -> &'static str {
        self.label
    }

    /// Whether a typed loan is what the payload holds: the message when it is one of type `M`, and
    /// nothing otherwise.
    pub open spec fn lends<M: Message>(self, message: Option<&M>) -> bool {
        &&& message is Some == holds::<M>(self@)
        &&& message matches Some(message) ==> erased(*message) == self@
        &&& forall|held: M| #[trigger] erased(held) == self@ ==> message == Some(&held)
    }

    /// Whether a typed message is what the payload gives up: the message when it is one of type
    /// `M`, and the payload itself otherwise.
    pub open spec fn yields<M: Message>(self, message: Result<M, Payload>) -> bool {
        &&& message is Ok == holds::<M>(self@)
        &&& match message {
            Ok(message) => erased(message) == self@,
            Err(payload) => payload == self,
        }
        &&& forall|held: M| #[trigger] erased(held) == self@ ==> message == Ok::<M, Payload>(held)
    }

    /// Wraps a typed message for mailbox delivery, together with the name of its type.
    pub fn new<M: Message>(message: M, label: &'static str) -> (payload: Self)
        ensures
            payload@ == erased(message),
            payload.spec_label() == label,
    {
        Payload { inner: erase(message), label }
    }

    /// Returns the name of the message type, as the sender gave it.
    pub fn label(&self) -> (label: &'static str)
        ensures
            label == self.spec_label(),
    {
        self.label
    }

    /// Returns `true` if the payload contains `M`.
    pub fn is<M: Message>(&self) -> (found: bool)
        ensures
            found == holds::<M>(self@),
    {
        match inspect::<M>(&self.inner) {
            Some(_message) => true,
            None => false,
        }
    }

    /// Borrows the inner message as `M` when the type matches.
    pub fn downcast_ref<M: Message>(&self) -> (message: Option<&M>)
        ensures
            self.lends(message),
    {
        inspect::<M>(&self.inner)
    }

    /// Consumes the payload and returns the inner message when the type matches.
    pub fn downcast<M: Message>(self) -> (message: Result<M, Self>)
        ensures
            self.yields(message),
    {
        let label = self.label;
        match recover::<M>(self.inner) {
            Ok(message) => Ok(message),
            Err(inner) => Err(Payload { inner, label }),
        }
    }
}

/// A payload gives back the message that went into it, under the type that it went in with, and a
/// look at it shows that very message.
pub proof fn lemma_a_payload_gives_its_message_back<M: Message>(
    payload: Payload,
    message: M,
    found: bool,
    loan: Option<&M>,
    outcome: Result<M, Payload>,
)
    requires
        payload@ == erased(message),
        found == holds::<M>(payload@),
        payload.lends(loan),
        payload.yields(outcome),
    ensures
        found,
        loan == Some(&message),
        outcome == Ok::<M, Payload>(message),
{
}

/// The three ways to ask a payload for a type give the same answer.
pub proof fn lemma_type_tests_agree<M: Message>(
    payload: Payload,
    found: bool,
    loan: Option<&M>,
    outcome: Result<M, Payload>,
)
    requires
        found == holds::<M>(payload@),
        payload.lends(loan),
        payload.yields(outcome),
    ensures
        found == loan is Some,
        found == outcome is Ok,
{
}

/// A failed attempt to take a message out under some type loses nothing: the payload that comes
/// back has the same label, and still gives the message back under its own type.
pub proof fn lemma_a_failed_downcast_loses_nothing<M: Message, N: Message>(
    payload: Payload,
    message: M,
    attempt: Result<N, Payload>,
    outcome: Result<M, Payload>,
)
    requires
        payload@ == erased(message),
        payload.yields(attempt),
        attempt matches Err(rest) && rest.yields(outcome),
    ensures
        attempt->Err_0.spec_label() == payload.spec_label(),
        outcome == Ok::<M, Payload>(message),
{
}

/// Reply routing information for synchronous request/response patterns.
#[derive(Debug, Clone, Copy, PartialEq, Eq, Structural, Hash)]
pub struct ReplyToken {
    /// The actor waiting for the response.
    pub from: ActorId,
    /// The unique request reference.
    pub reference: Ref,
}

impl ReplyToken {
    /// Creates a reply token for the actor and request reference.
    pub fn new(from: ActorId, reference: Ref) -> (token: Self)
        ensures
            token == (ReplyToken { from, reference }),
    {
        ReplyToken { from, reference }
    }
}

/// Exit propagation between linked actors.
#[derive(Debug, PartialEq, Eq)]
pub struct ExitSignal {
    /// The actor that exited.
    pub from: ActorId,
    /// The reason for the exit.
    pub reason: ExitReason,
    /// Whether the exit came from a bidirectional link.
    pub linked: bool,
}

impl Clone for ExitSignal {
    fn clone(&self) -> (copy: Self)
        ensures
            copy == *self,
    {
        ExitSignal { from: self.from, reason: self.reason.clone(), linked: self.linked }
    }
}

/// One-way monitor notification sent when an observed actor exits.
#[derive(Debug, PartialEq, Eq)]
pub struct DownMessage {
    /// The monitor reference returned by `monitor`.
    pub reference: Ref,
    /// The actor that terminated.
    pub actor: ActorId,
    /// The exit reason for the terminated actor.
    pub reason: ExitReason,
}

impl Clone for DownMessage {
    fn clone(&self) -> (copy: Self)
        ensures
            copy == *self,
    {
        DownMessage {
            reference: self.reference,
            actor: self.actor,
            reason: self.reason.clone(),
        }
    }
}

/// Timer delivery used to wake actors after a delay.
#[derive(Debug, Clone, Copy, PartialEq, Eq, Structural)]
pub struct TimerFired {
    /// The timer token that fired.
    pub token: TimerToken,
}

/// Request timeout emitted when an `ask` does not receive a reply in time.
#[derive(Debug, Clone, Copy, PartialEq, Eq, Structural)]
pub struct CallTimedOut {
    /// The timed-out request reference.
    pub reference: Ref,
}

/// Blocking task completion routed back into the originating actor mailbox.
#[derive(Debug)]
pub struct TaskCompleted {
    /// The original task handle reference.
    pub reference: Ref,
    /// Pool that executed the task.
    pub pool: PoolKind,
    /// Completed task result payload.
    pub result: Payload,
}

/// Reserved runtime control messages.
#[derive(Debug)]
#[allow(inconsistent_fields)]
pub enum SystemMessage {
    /// Suspend user-message execution.
    Suspend,
    /// Resume user-message execution.
    Resume,
    /// Request a state snapshot from the actor.
    GetState {
        /// Reply channel for the control result.
        reply: mpsc::Sender<ControlResult<StateSnapshot>>,
    },
    /// Replace the actor state in a controlled code-change path.
    ReplaceState {
        /// Replacement payload and version.
        state: StateSnapshot,
        /// Reply channel for the control result.
        reply: mpsc::Sender<ControlResult<()>>,
    },
    /// Enable tracing for the actor.
    TraceOn {
        /// Tracing dimensions to enable.
        options: TraceOptions,
        /// Reply channel for the control result.
        reply: mpsc::Sender<ControlResult<()>>,
    },
    /// Disable tracing for the actor.
    TraceOff {
        /// Reply channel for the control result.
        reply: mpsc::Sender<ControlResult<()>>,
    },
    /// Shutdown initiated by the runtime or supervisor.
    Shutdown,
    /// Trigger a code-change hook without carrying the new state directly.
    CodeChange {
        /// Target version requested by the caller.
        target_version: u64,
        /// Reply channel for the control result.
        reply: mpsc::Sender<ControlResult<()>>,
    },
}

/// High-level envelope categories.
#[derive(Debug, Clone, Copy, PartialEq, Eq, Structural)]
pub enum EnvelopeKind {
    /// Application-level fire-and-forget message.
    User,
    /// Application-level synchronous request.
    Request,
    /// Reply to a prior synchronous request.
    Reply,
    /// Completion of a blocking task submitted by the actor.
    Task,
    /// Request timeout emitted by the runtime.
    CallTimeout,
    /// Exit signal from a linked actor.
    Exit,
    /// Down notification from a monitored actor.
    Down,
    /// Timer message emitted by the runtime.
    Timer,
    /// Reserved runtime control message.
    System,
}

impl EnvelopeKind {
    /// Whether envelopes of this kind may fill the slots kept for the runtime.
    pub open spec fn is_runtime_kind(self) -> bool {
        !(self is User) && !(self is Request)
    }

    /// Tells whether envelopes of this kind may fill the slots kept for the runtime.
    pub(crate) fn uses_runtime_reserve(self) -> (reserved: bool)
        ensures
            reserved == self.is_runtime_kind(),
            self is User || self is Request ==> !reserved,
            self is Reply || self is Task || self is CallTimeout || self is Exit || self is Down
                || self is Timer || self is System ==> reserved,
    {
        match self {
            EnvelopeKind::User => false,
            EnvelopeKind::Request => false,
            _ => true,
        }
    }
}

/// A mailbox item delivered to an actor turn.
#[derive(Debug)]
pub enum Envelope {
    /// Fire-and-forget application message.
    User(Payload),
    /// Synchronous request with a reply token.
    Request {
        /// The actor and reference that should receive the reply.
        token: ReplyToken,
        /// The request payload.
        message: Payload,
    },
    /// Reply to a prior request.
    Reply {
        /// The request reference being satisfied.
        reference: Ref,
        /// The reply payload.
        message: Payload,
    },
    /// Completion of a blocking task submitted by the actor.
    Task(TaskCompleted),
    /// Request timeout emitted by the runtime.
    CallTimeout(CallTimedOut),
    /// Exit signal emitted by a linked or runtime-owned relationship.
    Exit(ExitSignal),
    /// Down notification emitted by a monitor.
    Down(DownMessage),
    /// Timer wakeup emitted by the runtime.
    Timer(TimerFired),
    /// Reserved runtime control message.
    System(SystemMessage),
}

impl Envelope {
    /// The category of an envelope.
    pub open spec fn spec_kind(self) -> EnvelopeKind {
        match self {
            Envelope::User(_) => EnvelopeKind::User,
            Envelope::Request { .. } => EnvelopeKind::Request,
            Envelope::Reply { .. } => EnvelopeKind::Reply,
            Envelope::Task(_) => EnvelopeKind::Task,
            Envelope::CallTimeout(_) => EnvelopeKind::CallTimeout,
            Envelope::Exit(_) => EnvelopeKind::Exit,
            Envelope::Down(_) => EnvelopeKind::Down,
            Envelope::Timer(_) => EnvelopeKind::Timer,
            Envelope::System(_) => EnvelopeKind::System,
        }
    }

    /// Creates a user envelope from a typed message and the name of its type.
    pub fn user<M: Message>(message: M, label: &'static str) -> (envelope: Self)
        ensures
            envelope matches Envelope::User(payload) && payload@ == erased(message)
                && payload.spec_label() == label,
    {
        Envelope::User(Payload::new(message, label))
    }

    /// Creates a synchronous request envelope from a typed message and the name of its type.
    pub fn request<M: Message>(token: ReplyToken, message: M, label: &'static str) -> (envelope:
        Self)
        ensures
            envelope matches Envelope::Request { token: routed, message: payload } && routed
                == token && payload@ == erased(message) && payload.spec_label() == label,
    {
        Envelope::Request { token, message: Payload::new(message, label) }
    }

    /// Creates a reply envelope from a typed message and the name of its type.
    pub fn reply<M: Message>(reference: Ref, message: M, label: &'static str) -> (envelope: Self)
        ensures
            envelope matches Envelope::Reply { reference: answered, message: payload } && answered
                == reference && payload@ == erased(message) && payload.spec_label() == label,
    {
        Envelope::Reply { reference, message: Payload::new(message, label) }
    }

    /// Creates a blocking task completion envelope from a typed result and the name of its type.
    pub fn task<M: Message>(
        reference: Ref,
        pool: PoolKind,
        message: M,
        label: &'static str,
    ) -> (envelope: Self)
        ensures
            envelope matches Envelope::Task(task) && task.reference == reference && task.pool
                == pool && task.result@ == erased(message) && task.result.spec_label() == label,
    {
        Envelope::Task(TaskCompleted { reference, pool, result: Payload::new(message, label) })
    }

    /// Creates a request-timeout envelope.
    pub fn call_timeout(reference: Ref) -> (envelope: Self)
        ensures
            envelope == Envelope::CallTimeout(CallTimedOut { reference }),
    {
        Envelope::CallTimeout(CallTimedOut { reference })
    }

    /// Returns the envelope category.
    pub fn kind(&self) -> (kind: EnvelopeKind)
        ensures
            kind == self.spec_kind(),
            kind is User <==> *self is User,
            kind is Request <==> *self is Request,
            kind is Reply <==> *self is Reply,
            kind is Task <==> *self is Task,
            kind is CallTimeout <==> *self is CallTimeout,
            kind is Exit <==> *self is Exit,
            kind is Down <==> *self is Down,
            kind is Timer <==> *self is Timer,
            kind is System <==> *self is System,
    {
        match self {
            Envelope::User(_) => EnvelopeKind::User,
            Envelope::Request { .. } => EnvelopeKind::Request,
            Envelope::Reply { .. } => EnvelopeKind::Reply,
            Envelope::Task(_) => EnvelopeKind::Task,
            Envelope::CallTimeout(_) => EnvelopeKind::CallTimeout,
            Envelope::Exit(_) => EnvelopeKind::Exit,
            Envelope::Down(_) => EnvelopeKind::Down,
            Envelope::Timer(_) => EnvelopeKind::Timer,
            Envelope::System(_) => EnvelopeKind::System,
        }
    }

    /// Tells whether the envelope carries a reserved control message.
    pub fn is_system_message(&self) -> (system: bool)
        ensures
            system == (*self is System),
    {
        match self {
            Envelope::System(_) => true,
            _ => false,
        }
    }

    /// Whether the envelope is control or failure traffic, which an actor cannot put off.
    pub open spec fn is_reserved(self) -> bool {
        self is System || self is Exit || self is Down
    }

    /// Whether the envelope is the firing of a timer.
    pub open spec fn is_firing_of(self, token: TimerToken) -> bool {
        self matches Envelope::Timer(timer) && timer.token == token
    }

    /// Tells whether a suspended actor still receives the envelope.
    pub fn can_run_while_suspended(&self) -> (deliverable: bool)
        ensures
            deliverable == self.is_reserved(),
            deliverable <==> *self is System || *self is Exit || *self is Down,
    {
        match self {
            Envelope::System(_) => true,
            Envelope::Exit(_) => true,
            Envelope::Down(_) => true,
            _ => false,
        }
    }
}

/// Exactly the envelopes of users, messages and requests, may not fill the slots kept for the
/// runtime, and exactly control and failure traffic cannot be put off.
pub proof fn lemma_classes_of_envelopes(envelope: Envelope)
    ensures
        envelope is User || envelope is Request ==> !envelope.spec_kind().is_runtime_kind(),
        envelope is Reply || envelope is Task || envelope is CallTimeout || envelope is Exit
            || envelope is Down || envelope is Timer || envelope is System
            ==> envelope.spec_kind().is_runtime_kind(),
        envelope is System || envelope is Exit || envelope is Down ==> envelope.is_reserved(),
        envelope is User || envelope is Request || envelope is Reply || envelope is Task
            || envelope is CallTimeout || envelope is Timer ==> !envelope.is_reserved(),
{
}

} // verus!
