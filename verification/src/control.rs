//! Control-plane values: state snapshots, tracing options and failures.

use vstd::prelude::*;

use crate::context::SendError;
use crate::envelope::{Message, Payload};
use crate::text::push_decimal;
use crate::types::ActorId;

verus! {

/// Result type returned by control-plane operations.
pub type ControlResult<T> = Result<T, ControlError>;

/// Type-erased actor state returned by the control plane.
#[derive(Debug)]
pub struct StateSnapshot {
    /// Actor-defined state schema version.
    pub version: u64,
    /// Type-erased state payload.
    pub payload: Payload,
}

impl StateSnapshot {
    /// Creates a new versioned state snapshot from a typed state and the name of its type.
    pub fn new<M: Message>(version: u64, payload: M, label: &'static str) -> (snapshot: Self)
        ensures
            snapshot.version == version,
            snapshot.payload@ == crate::envelope::erased(payload),
            snapshot.payload.spec_label() == label,
    {
        StateSnapshot { version, payload: Payload::new(payload, label) }
    }

    /// Creates a new versioned state snapshot from an existing payload.
    pub fn from_payload(version: u64, payload: Payload) -> (snapshot: Self)
        ensures
            snapshot == (StateSnapshot { version, payload }),
    {
        StateSnapshot { version, payload }
    }
}

/// Actor-local tracing options controlled through the reserved control lane.
#[derive(Debug, Clone, Copy, PartialEq, Eq, Structural)]
pub struct TraceOptions {
    /// Emit trace events when the actor sends envelopes.
    pub sends: bool,
    /// Emit trace events when the actor receives envelopes.
    pub receives: bool,
    /// Include the actor's mailbox depth in trace events.
    pub mailbox_depth: bool,
    /// Include the scheduler id in trace events.
    pub scheduler: bool,
}

impl Default for TraceOptions {
    fn default() -> (options: Self)
        ensures
            options == (TraceOptions {
                sends: false,
                receives: false,
                mailbox_depth: false,
                scheduler: false,
            }),
    {
        TraceOptions { sends: false, receives: false, mailbox_depth: false, scheduler: false }
    }
}

impl TraceOptions {
    /// Enables send and receive tracing.
    pub fn messages() -> (options: Self)
        ensures
            options == (TraceOptions {
                sends: true,
                receives: true,
                mailbox_depth: false,
                scheduler: false,
            }),
    {
        TraceOptions { sends: true, receives: true, mailbox_depth: false, scheduler: false }
    }

    /// Enables all currently supported tracing dimensions.
    pub fn all() -> (options: Self)
        ensures
            options == (TraceOptions {
                sends: true,
                receives: true,
                mailbox_depth: true,
                scheduler: true,
            }),
    {
        TraceOptions { sends: true, receives: true, mailbox_depth: true, scheduler: true }
    }

    /// Returns `true` when any trace dimension is enabled.
    pub fn is_enabled(self) -> (enabled: bool)
        ensures
            enabled == (self.sends || self.receives || self.mailbox_depth || self.scheduler),
    {
        self.sends || self.receives || self.mailbox_depth || self.scheduler
    }
}

/// Structured control-plane failures.
#[derive(Debug, PartialEq, Eq)]
pub enum ControlError {
    /// The target actor does not exist.
    NoProc(ActorId),
    /// The actor does not support the requested control operation.
    Unsupported {
        /// Reserved control-plane operation name.
        operation: &'static str,
    },
    /// The supplied state version does not match the actor's current version.
    VersionMismatch {
        /// Actor's current version.
        current: u64,
        /// Requested or supplied version.
        requested: u64,
    },
    /// The supplied state payload had the wrong type.
    InvalidState {
        /// Expected Rust type name.
        expected: &'static str,
        /// Actual payload type name.
        actual: &'static str,
    },
    /// The actor rejected the control operation for a domain-specific reason.
    Rejected {
        /// Reserved control-plane operation name.
        operation: &'static str,
        /// Human-readable rejection reason.
        reason: String,
    },
}

impl Clone for ControlError {
    fn clone(&self) -> (copy: Self)
        ensures
            copy == *self,
    {
        match self {
            ControlError::NoProc(actor) => ControlError::NoProc(*actor),
            ControlError::Unsupported { operation } => ControlError::Unsupported { operation },
            ControlError::VersionMismatch { current, requested } => ControlError::VersionMismatch {
                current: *current,
                requested: *requested,
            },
            ControlError::InvalidState { expected, actual } => ControlError::InvalidState {
                expected,
                actual,
            },
            ControlError::Rejected { operation, reason } => ControlError::Rejected {
                operation,
                reason: reason.clone(),
            },
        }
    }
}

impl ControlError {
    /// Creates an unsupported-operation error.
    pub fn unsupported(operation: &'static str) -> (error: Self)
        ensures
            error == (ControlError::Unsupported { operation }),
    {
        ControlError::Unsupported { operation }
    }

    /// Creates a state-type mismatch error.
    pub fn invalid_state(expected: &'static str, actual: &'static str) -> (error: Self)
        ensures
            error == (ControlError::InvalidState { expected, actual }),
    {
        ControlError::InvalidState { expected, actual }
    }

    /// Creates an operation rejection with a free-form reason.
    pub fn rejected(operation: &'static str, reason: &str) -> (error: Self)
        ensures
            error matches ControlError::Rejected { operation: refused, reason: text } && refused
                == operation && text@ == reason@,
    {
        let mut text = String::new();
        text.append(reason);
        assert(text@ =~= reason@);
        ControlError::Rejected { operation, reason: text }
    }

    /// The text of the error.
    pub open spec fn text(self) -> Seq<char> {
        match self {
            ControlError::NoProc(actor) => "actor `"@ + actor.text() + "` does not exist"@,
            ControlError::Unsupported { operation } => "actor does not support control operation `"@
                + operation@ + "`"@,
            ControlError::VersionMismatch { current, requested } =>
                "control state version mismatch: current="@ + crate::text::decimal(current as nat)
                + ", requested="@ + crate::text::decimal(requested as nat),
            ControlError::InvalidState { expected, actual } =>
                "invalid replacement state payload: expected `"@ + expected@ + "`, got `"@ + actual@
                + "`"@,
            ControlError::Rejected { operation, reason } => "control operation `"@ + operation@
                + "` rejected: "@ + reason@,
        }
    }

    /// Appends the text of the error.
    pub(crate) fn push_to(&self, out: &mut String)
        ensures
            final(out)@ == old(out)@ + self.text(),
    {
        match self {
            ControlError::NoProc(actor) => {
                out.append("actor `");
                actor.push_to(out);
                out.append("` does not exist");
            },
            ControlError::Unsupported { operation } => {
                out.append("actor does not support control operation `");
                out.append(operation);
                out.append("`");
            },
            ControlError::VersionMismatch { current, requested } => {
                out.append("control state version mismatch: current=");
                push_decimal(out, *current);
                out.append(", requested=");
                push_decimal(out, *requested);
            },
            ControlError::InvalidState { expected, actual } => {
                out.append("invalid replacement state payload: expected `");
                out.append(expected);
                out.append("`, got `");
                out.append(actual);
                out.append("`");
            },
            ControlError::Rejected { operation, reason } => {
                out.append("control operation `");
                out.append(operation);
                out.append("` rejected: ");
                out.append(reason.as_str());
            },
        }
        assert(out@ =~= old(out)@ + self.text());
    }

    /// Renders the error.
    pub fn to_string(&self) -> (text: String)
        ensures
            text@ == self.text(),
    {
        let mut out = String::new();
        self.push_to(&mut out);
        assert(out@ =~= self.text());
        out
    }
}

/// Runtime stage for a local supervisor-tree upgrade transaction.
#[derive(Debug, Clone, Copy, PartialEq, Eq, Structural)]
pub enum LocalUpgradeStage {
    /// Quiescing normal user-envelope processing by suspending the tree.
    Suspend,
    /// Running actor-local code-change hooks in upgrade order.
    CodeChange,
    /// Releasing the tree back to normal user-envelope processing.
    Resume,
}

impl LocalUpgradeStage {
    /// The name of the stage.
    pub open spec fn text(self) -> Seq<char> {
        match self {
            LocalUpgradeStage::Suspend => "Suspend"@,
            LocalUpgradeStage::CodeChange => "CodeChange"@,
            LocalUpgradeStage::Resume => "Resume"@,
        }
    }

    /// Returns the name of the stage.
    pub fn name(self) -> (name: &'static str)
        ensures
            name@ == self.text(),
    {
        match self {
            LocalUpgradeStage::Suspend => "Suspend",
            LocalUpgradeStage::CodeChange => "CodeChange",
            LocalUpgradeStage::Resume => "Resume",
        }
    }
}

/// Failure kind surfaced by a local supervisor-tree upgrade transaction.
#[derive(Debug, Clone, PartialEq, Eq)]
pub enum LocalUpgradeFailure {
    /// The requested root is not a live supervisor.
    NotLiveSupervisor(ActorId),
    /// The runtime found a tree-shape invariant that makes upgrade unsafe.
    InvalidTree {
        /// Actor whose subtree failed validation.
        actor: ActorId,
        /// Human-readable rejection reason.
        reason: String,
    },
    /// A reserved suspend or resume message could not be enqueued.
    Send(SendError),
    /// A reserved code-change operation rejected or failed.
    Control(ControlError),
}

/// Successful local supervisor-tree upgrade details.
///
/// Local supervisor-tree upgrades are atomic only with respect to quiescing and
/// resuming normal message processing. Once an actor's `CodeChange` hook
/// succeeds, that actor stays on the requested version for the rest of the
/// transaction.
#[derive(Debug, Clone, PartialEq, Eq)]
pub struct LocalUpgradeReport {
    /// Root supervisor that scoped the upgrade.
    pub root: ActorId,
    /// Target version requested for each upgraded actor.
    pub target_version: u64,
    /// Root-to-leaf traversal order used when quiescing the tree.
    pub suspend_order: Vec<ActorId>,
    /// Leaf-to-root traversal order used for `CodeChange`.
    pub upgrade_order: Vec<ActorId>,
}

/// Structured failure returned by a local supervisor-tree upgrade transaction.
#[derive(Debug, Clone, PartialEq, Eq)]
pub struct LocalUpgradeError {
    /// Root supervisor that scoped the upgrade.
    pub root: ActorId,
    /// Target version requested for the upgrade.
    pub target_version: u64,
    /// Actor whose step failed, when the failure happened after planning.
    pub actor: Option<ActorId>,
    /// Upgrade stage that failed, when the failure happened after planning.
    pub stage: Option<LocalUpgradeStage>,
    /// Concrete reason the transaction aborted.
    pub failure: Box<LocalUpgradeFailure>,
    /// Actors newly suspended by this transaction before it failed.
    pub suspended: Vec<ActorId>,
    /// Actors whose `CodeChange` hook completed before the failure.
    pub upgraded: Vec<ActorId>,
}

/// The text of an id as a debug value.
pub open spec fn id_debug(id: ActorId) -> Seq<char> {
    "ActorId { local_id: "@ + crate::text::decimal(id.local_id as nat) + ", generation: "@
        + crate::text::decimal(id.generation as nat) + " }"@
}

/// The text of a send failure as a debug value.
pub open spec fn send_debug(error: SendError) -> Seq<char> {
    match error {
        SendError::NoProc(actor) => "NoProc("@ + id_debug(actor) + ")"@,
        SendError::MailboxFull { actor, capacity } => "MailboxFull { actor: "@ + id_debug(actor)
            + ", capacity: "@ + crate::text::decimal(capacity as nat) + " }"@,
    }
}

fn push_id_debug(out: &mut String, id: ActorId)
    ensures
        final(out)@ == old(out)@ + id_debug(id),
{
    out.append("ActorId { local_id: ");
    push_decimal(out, id.local_id);
    out.append(", generation: ");
    push_decimal(out, id.generation);
    out.append(" }");
    assert(out@ =~= old(out)@ + id_debug(id));
}

fn push_send_debug(out: &mut String, error: &SendError)
    ensures
        final(out)@ == old(out)@ + send_debug(*error),
{
    match error {
        SendError::NoProc(actor) => {
            out.append("NoProc(");
            push_id_debug(out, *actor);
            out.append(")");
        },
        SendError::MailboxFull { actor, capacity } => {
            out.append("MailboxFull { actor: ");
            push_id_debug(out, *actor);
            out.append(", capacity: ");
            push_decimal(out, *capacity as u64);
            out.append(" }");
        },
    }
    assert(out@ =~= old(out)@ + send_debug(*error));
}

impl LocalUpgradeError {
    /// Where the upgrade failed, for a step that belongs to an actor and a stage.
    pub open spec fn place_text(self) -> Seq<char> {
        match (self.stage, self.actor) {
            (Some(stage), Some(actor)) => " during "@ + stage.text() + " for actor `"@
                + actor.text() + "`"@,
            _ => Seq::empty(),
        }
    }

    /// The text of the error.
    pub open spec fn text(self) -> Seq<char> {
        match *self.failure {
            LocalUpgradeFailure::NotLiveSupervisor(actor) => "actor `"@ + actor.text()
                + "` is not a live supervisor root"@,
            LocalUpgradeFailure::InvalidTree { actor, reason } =>
                "invalid supervisor tree at actor `"@ + actor.text() + "`: "@ + reason@,
            LocalUpgradeFailure::Send(error) => "local upgrade failed"@ + self.place_text() + ": "@
                + send_debug(error),
            LocalUpgradeFailure::Control(error) => "local upgrade failed"@ + self.place_text()
                + ": "@ + error.text(),
        }
    }

    fn push_place(&self, out: &mut String)
        ensures
            final(out)@ == old(out)@ + self.place_text(),
    {
        match (self.stage, self.actor) {
            (Some(stage), Some(actor)) => {
                out.append(" during ");
                out.append(stage.name());
                out.append(" for actor `");
                actor.push_to(out);
                out.append("`");
            },
            _ => {},
        }
        assert(out@ =~= old(out)@ + self.place_text());
    }

    /// Renders the error.
    pub fn to_string(&self) -> (text: String)
        ensures
            text@ == self.text(),
    {
        let mut out = String::new();
        match &*self.failure {
            LocalUpgradeFailure::NotLiveSupervisor(actor) => {
                out.append("actor `");
                actor.push_to(&mut out);
                out.append("` is not a live supervisor root");
            },
            LocalUpgradeFailure::InvalidTree { actor, reason } => {
                out.append("invalid supervisor tree at actor `");
                actor.push_to(&mut out);
                out.append("`: ");
                out.append(reason.as_str());
            },
            LocalUpgradeFailure::Send(error) => {
                out.append("local upgrade failed");
                self.push_place(&mut out);
                out.append(": ");
                push_send_debug(&mut out, error);
            },
            LocalUpgradeFailure::Control(error) => {
                out.append("local upgrade failed");
                self.push_place(&mut out);
                out.append(": ");
                error.push_to(&mut out);
            },
        }
        assert(out@ =~= self.text());
        out
    }
}

/// Decides whether state of one version serves where another version is asked for: only the same
/// version does.
pub fn check_version(current: u64, requested: u64) -> (outcome: Result<(), ControlError>)
    ensures
        outcome == (if current == requested {
            Ok(())
        } else {
            Err(ControlError::VersionMismatch { current, requested })
        }),
{
    if current == requested {
        Ok(())
    } else {
        Err(ControlError::VersionMismatch { current, requested })
    }
}

/// What failures of the control plane read like.
pub proof fn lemma_how_control_errors_read(error: ControlError)
    ensures
        error matches ControlError::NoProc(actor) ==> error.text() == "actor `"@ + actor.text()
            + "` does not exist"@,
        error matches ControlError::Unsupported { operation } ==> error.text()
            == "actor does not support control operation `"@ + operation@ + "`"@,
        error matches ControlError::VersionMismatch { current, requested } ==> error.text()
            == "control state version mismatch: current="@ + crate::text::decimal(current as nat)
            + ", requested="@ + crate::text::decimal(requested as nat),
        error matches ControlError::InvalidState { expected, actual } ==> error.text()
            == "invalid replacement state payload: expected `"@ + expected@ + "`, got `"@ + actual@
            + "`"@,
        error matches ControlError::Rejected { operation, reason } ==> error.text()
            == "control operation `"@ + operation@ + "` rejected: "@ + reason@,
{
}

/// What a failed upgrade reads like: the failure, and the stage and the actor where it happened
/// when both are known.
pub proof fn lemma_how_upgrade_errors_read(error: LocalUpgradeError)
    ensures
        *error.failure matches LocalUpgradeFailure::NotLiveSupervisor(actor) ==> error.text()
            == "actor `"@ + actor.text() + "` is not a live supervisor root"@,
        *error.failure matches LocalUpgradeFailure::InvalidTree { actor, reason } ==> error.text()
            == "invalid supervisor tree at actor `"@ + actor.text() + "`: "@ + reason@,
        *error.failure matches LocalUpgradeFailure::Control(cause) ==> (error.stage is None
            || error.actor is None ==> error.text() =~= "local upgrade failed"@ + ": "@
            + cause.text()),
        *error.failure matches LocalUpgradeFailure::Control(cause) ==> (error.stage is Some
            && error.actor is Some ==> error.text() == "local upgrade failed"@ + (" during "@
            + error.stage->0.text() + " for actor `"@ + error.actor->0.text() + "`"@) + ": "@
            + cause.text()),
        *error.failure matches LocalUpgradeFailure::Send(SendError::NoProc(actor)) ==> (
        error.stage is Some && error.actor is Some ==> error.text() == "local upgrade failed"@ + (
        " during "@ + error.stage->0.text() + " for actor `"@ + error.actor->0.text() + "`"@)
            + ": "@ + ("NoProc("@ + id_debug(actor) + ")"@)),
        *error.failure matches LocalUpgradeFailure::Send(SendError::MailboxFull {
            actor,
            capacity,
        }) ==> (error.stage is Some && error.actor is Some ==> error.text()
            == "local upgrade failed"@ + (" during "@ + error.stage->0.text() + " for actor `"@
            + error.actor->0.text() + "`"@) + ": "@ + ("MailboxFull { actor: "@ + id_debug(actor)
            + ", capacity: "@ + crate::text::decimal(capacity as nat) + " }"@)),
{
    if error.stage is None || error.actor is None {
        assert("local upgrade failed"@ + error.place_text() =~= "local upgrade failed"@);
    }
}

/// The names of the stages of an upgrade, and the id of an actor in a nested message.
pub proof fn lemma_how_stages_read(stage: LocalUpgradeStage, id: ActorId)
    ensures
        stage is Suspend ==> stage.text() == "Suspend"@,
        stage is CodeChange ==> stage.text() == "CodeChange"@,
        stage is Resume ==> stage.text() == "Resume"@,
        id_debug(id) == "ActorId { local_id: "@ + crate::text::decimal(id.local_id as nat)
            + ", generation: "@ + crate::text::decimal(id.generation as nat) + " }"@,
{
}

} // verus!
