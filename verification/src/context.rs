//! Values that actors exchange with the runtime while they run.

use std::marker::PhantomData;
use std::time::Duration;

use vstd::prelude::*;

use crate::envelope::{Envelope, ReplyToken};
use crate::lifecycle::copy_ids;
use crate::mailbox::MailboxWatermark;
use crate::registry::RegistryError;
use crate::scheduler::PoolKind;
use crate::types::{ActorId, ExitReason, Ref, TimerToken};

verus! {

/// Options applied when spawning a new actor.
#[derive(Debug, PartialEq, Eq)]
pub struct SpawnOptions {
    /// Optional registered name for introspection or lookup tables.
    pub registered_name: Option<String>,
    /// Optional per-actor mailbox capacity override.
    pub mailbox_capacity: Option<usize>,
    /// Whether the runtime should link the child to the current actor.
    pub link_to_parent: bool,
    /// Whether the child should start with trap-exit enabled.
    pub trap_exit: bool,
    /// Parent actor metadata for supervision trees.
    pub parent: Option<ActorId>,
    /// Ancestor metadata for crash reports and observer views.
    pub ancestors: Vec<ActorId>,
    /// Stable supervisor child id when the spawn is owned by a supervisor.
    pub supervisor_child: Option<&'static str>,
}

impl Clone for SpawnOptions {
    fn clone(&self) -> (copy: Self)
        ensures
            copy.ancestors@ == self.ancestors@,
            copy == (SpawnOptions { ancestors: copy.ancestors, ..*self }),
    {
        SpawnOptions {
            registered_name: self.registered_name.clone(),
            mailbox_capacity: self.mailbox_capacity,
            link_to_parent: self.link_to_parent,
            trap_exit: self.trap_exit,
            parent: self.parent,
            ancestors: copy_ids(&self.ancestors),
            supervisor_child: self.supervisor_child,
        }
    }
}

impl Default for SpawnOptions {
    fn default() -> (options: Self)
        ensures
            options.registered_name is None,
            options.mailbox_capacity is None,
            !options.link_to_parent,
            !options.trap_exit,
            options.parent is None,
            options.ancestors@ == Seq::<ActorId>::empty(),
            options.supervisor_child is None,
    {
        SpawnOptions {
            registered_name: None,
            mailbox_capacity: None,
            link_to_parent: false,
            trap_exit: false,
            parent: None,
            ancestors: Vec::new(),
            supervisor_child: None,
        }
    }
}

impl SpawnOptions {
    /// Marks the options as those of a supervisor child: linked to the supervisor, under its id.
    pub fn for_child(self, child_id: &'static str) -> (options: Self)
        ensures
            options == (SpawnOptions {
                link_to_parent: true,
                supervisor_child: Some(child_id),
                ..self
            }),
    {
        SpawnOptions { link_to_parent: true, supervisor_child: Some(child_id), ..self }
    }
}

/// Handle returned by `ask` for reply correlation and fast-path receives.
#[derive(Debug, Clone, Copy, PartialEq, Eq)]
pub struct PendingCall {
    /// The unique request reference.
    pub reference: Ref,
    /// The actor and reference that will receive the reply.
    pub reply_to: ReplyToken,
    /// Mailbox watermark captured when the call was created.
    pub mailbox_watermark: MailboxWatermark,
    /// Optional timeout for the request.
    pub timeout: Option<Duration>,
}

impl PendingCall {
    /// Creates a pending-call descriptor.
    pub fn new(
        reply_to: ReplyToken,
        mailbox_watermark: MailboxWatermark,
        timeout: Option<Duration>,
    ) -> (call: Self)
        ensures
            call == (PendingCall {
                reference: reply_to.reference,
                reply_to,
                mailbox_watermark,
                timeout,
            }),
    {
        PendingCall { reference: reply_to.reference, reply_to, mailbox_watermark, timeout }
    }

    /// Returns `true` when the reference matches the pending call.
    pub fn matches(self, reference: Ref) -> (same: bool)
        ensures
            same == (self.reference == reference),
    {
        self.reference == reference
    }
}

/// An envelope claimed from the current actor mailbox for this turn.
#[derive(Debug)]
pub struct ReceivedEnvelope {
    envelope: Envelope,
}

impl View for ReceivedEnvelope {
    type V = Envelope;

    /// The claimed envelope.
    closed spec fn view(&self) -> Envelope {
        self.envelope
    }
}

impl ReceivedEnvelope {
    /// Claims an envelope.
    pub fn new(envelope: Envelope) -> (received: Self)
        ensures
            received@ == envelope,
    {
        ReceivedEnvelope { envelope }
    }

    /// Borrows the claimed envelope without consuming it.
    pub fn as_envelope(&self) -> (envelope: &Envelope)
        ensures
            *envelope == self@,
    {
        &self.envelope
    }

    /// Consumes the claimed envelope so the runtime can deliver it to `handle`.
    pub fn into_envelope(self) -> (envelope: Envelope)
        ensures
            envelope == self@,
    {
        self.envelope
    }
}

/// Runtime-managed timeout token for selective-receive wait states.
#[derive(Debug, Clone, Copy, PartialEq, Eq, Structural, Hash)]
pub struct ReceiveTimeout {
    token: TimerToken,
}

impl ReceiveTimeout {
    /// The timer token behind the timeout.
    pub closed spec fn spec_token(self) -> TimerToken {
        self.token
    }

    /// Whether an envelope is this timeout firing.
    pub open spec fn fires(self, envelope: Envelope) -> bool {
        envelope matches Envelope::Timer(timer) && timer.token == self.spec_token()
    }

    /// Creates a receive-timeout handle from a timer token.
    pub fn new(token: TimerToken) -> (timeout: Self)
        ensures
            timeout.spec_token() == token,
    {
        ReceiveTimeout { token }
    }

    /// Returns the underlying timer token.
    pub fn token(self) -> (token: TimerToken)
        ensures
            token == self.spec_token(),
    {
        self.token
    }

    /// Returns `true` when the envelope is this timeout firing.
    pub fn matches(self, envelope: &Envelope) -> (fired: bool)
        ensures
            fired == self.fires(*envelope),
    {
        match envelope {
            Envelope::Timer(timer) => timer.token == self.token,
            _ => false,
        }
    }
}

/// Handle for work dispatched onto a blocking pool.
///
/// Completion is routed back to the originating actor as an `Envelope::Task`
/// carrying the same reference.
#[derive(Debug, PartialEq, Eq)]
pub struct TaskHandle<T> {
    id: Ref,
    pool: PoolKind,
    _marker: PhantomData<T>,
}

impl<T> Clone for TaskHandle<T> {
    fn clone(&self) -> (copy: Self)
        ensures
            copy == *self,
    {
        *self
    }
}

impl<T> Copy for TaskHandle<T> {

}

impl<T> TaskHandle<T> {
    /// The reference of the task.
    pub closed spec fn spec_id(self) -> Ref {
        self.id
    }

    /// The pool of the task.
    pub closed spec fn spec_pool(self) -> PoolKind {
        self.pool
    }

    /// Creates a task handle from a reference and pool kind.
    pub fn new(id: Ref, pool: PoolKind) -> (handle: Self)
        ensures
            handle.spec_id() == id,
            handle.spec_pool() == pool,
    {
        TaskHandle { id, pool, _marker: PhantomData }
    }

    /// Returns the task id.
    pub fn id(self) -> (id: Ref)
        ensures
            id == self.spec_id(),
    {
        self.id
    }

    /// Returns the pool the task was submitted to.
    pub fn pool(self) -> (pool: PoolKind)
        ensures
            pool == self.spec_pool(),
    {
        self.pool
    }
}

/// Send failure for async delivery.
#[derive(Debug, Clone, Copy, PartialEq, Eq, Structural)]
#[allow(inconsistent_fields)]
pub enum SendError {
    /// The target actor does not exist.
    NoProc(ActorId),
    /// The target mailbox is applying backpressure.
    MailboxFull {
        /// Actor whose mailbox is full.
        actor: ActorId,
        /// Current bounded mailbox capacity.
        capacity: usize,
    },
}

/// Spawn failure for actor creation.
#[derive(Debug, Clone, PartialEq, Eq)]
pub enum SpawnError {
    /// The runtime could not allocate an actor slot.
    CapacityExceeded,
    /// Initial registry registration was rejected.
    Registry(RegistryError),
    /// Actor initialization failed before the actor became runnable.
    InitFailed(ExitReason),
}

/// Link or unlink failure.
#[derive(Debug, Clone, Copy, PartialEq, Eq, Structural)]
pub enum LinkError {
    /// The target actor does not exist.
    NoProc(ActorId),
    /// The link already exists.
    AlreadyLinked(ActorId),
    /// The link does not exist.
    NotLinked(ActorId),
}

/// Monitor or demonitor failure.
#[derive(Debug, Clone, Copy, PartialEq, Eq, Structural)]
pub enum MonitorError {
    /// The target actor does not exist.
    NoProc(ActorId),
    /// The reference is not active.
    UnknownRef(Ref),
}

/// Timer scheduling or cancellation failure.
#[derive(Debug, Clone, Copy, PartialEq, Eq, Structural)]
pub enum TimerError {
    /// The runtime cannot allocate another timer.
    CapacityExceeded,
    /// The timer reference is unknown or already expired.
    UnknownTimer(TimerToken),
}

/// A timeout for a receive fires with the firing of its own timer, and with nothing else.
pub proof fn lemma_when_a_receive_times_out(timeout: ReceiveTimeout, envelope: Envelope)
    ensures
        envelope matches Envelope::Timer(fired) ==> timeout.fires(envelope) == (fired.token
            == timeout.spec_token()),
        !(envelope is Timer) ==> !timeout.fires(envelope),
{
}

} // verus!
