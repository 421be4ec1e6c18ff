//! Shutdown requests.

use std::time::Duration;

use vstd::prelude::*;

use crate::envelope::ExitSignal;
use crate::types::{ActorId, ExitReason, Shutdown};

verus! {

/// A shutdown that was requested and has not completed.
#[derive(Debug, Clone, Copy, PartialEq, Eq)]
pub struct ShutdownTracker {
    /// The actor that asked for it.
    pub requester: ActorId,
    /// The policy in effect.
    pub policy: Shutdown,
}

impl ShutdownTracker {
    /// Notes who asked for a shutdown, and how.
    pub fn new(requester: ActorId, policy: Shutdown) -> (tracker: Self)
        ensures
            tracker == (ShutdownTracker { requester, policy }),
    {
        ShutdownTracker { requester, policy }
    }
}

/// How a shutdown proceeds.
#[derive(Debug, Clone, Copy, PartialEq, Eq)]
pub enum ShutdownMode {
    /// Kill the actor at once.
    ForceKill,
    /// Send it a linked exit signal, and kill it after the timeout, if there is one.
    Linked {
        /// How long to wait before the kill.
        timeout: Option<Duration>,
    },
}

impl ShutdownMode {
    /// How a shutdown under a policy proceeds.
    pub open spec fn of(policy: Shutdown) -> ShutdownMode {
        match policy {
            Shutdown::BrutalKill => ShutdownMode::ForceKill,
            Shutdown::Timeout(delay) => ShutdownMode::Linked { timeout: Some(delay) },
            Shutdown::Infinity => ShutdownMode::Linked { timeout: None },
        }
    }

    /// Decides how a shutdown under a policy proceeds.
    pub fn from_policy(policy: &Shutdown) -> (mode: Self)
        ensures
            mode == ShutdownMode::of(*policy),
            mode is ForceKill <==> *policy is BrutalKill,
            forall|delay: Duration|
                (mode == ShutdownMode::Linked { timeout: Some(delay) }) == (*policy
                    == Shutdown::Timeout(delay)),
            mode == (ShutdownMode::Linked { timeout: None }) <==> *policy is Infinity,
    {
        match policy {
            Shutdown::BrutalKill => ShutdownMode::ForceKill,
            Shutdown::Timeout(delay) => ShutdownMode::Linked { timeout: Some(*delay) },
            Shutdown::Infinity => ShutdownMode::Linked { timeout: None },
        }
    }
}

/// The signal that asks an actor to shut down.
pub fn shutdown_signal(requester: ActorId) -> (signal: ExitSignal)
    ensures
        signal == (ExitSignal { from: requester, reason: ExitReason::Shutdown, linked: true }),
{
    ExitSignal { from: requester, reason: ExitReason::Shutdown, linked: true }
}

/// The reason that linked actors see: the kill of a requested shutdown counts as a shutdown.
pub open spec fn link_reason(shutdown_requested: bool, final_reason: ExitReason) -> ExitReason {
    if shutdown_requested && final_reason is Kill {
        ExitReason::Shutdown
    } else {
        final_reason
    }
}

/// Decides which reason linked actors see.
pub fn shutdown_link_reason(shutdown_requested: bool, final_reason: &ExitReason) -> (reason:
    ExitReason)
    ensures
        reason == link_reason(shutdown_requested, *final_reason),
        !(*final_reason is Kill) ==> reason == *final_reason,
        !shutdown_requested ==> reason == *final_reason,
        shutdown_requested && *final_reason is Kill ==> reason is Shutdown,
{
    if shutdown_requested {
        match final_reason {
            ExitReason::Kill => ExitReason::Shutdown,
            _ => final_reason.clone(),
        }
    } else {
        final_reason.clone()
    }
}

/// A requested shutdown hides nothing but a kill from linked actors: they see every other reason
/// as it is, and without a request they see every reason as it is.
pub proof fn lemma_links_see_the_exit_reason(shutdown_requested: bool, final_reason: ExitReason)
    ensures
        !(final_reason is Kill) ==> link_reason(shutdown_requested, final_reason) == final_reason,
        link_reason(false, final_reason) == final_reason,
        final_reason is Kill ==> link_reason(true, final_reason) is Shutdown,
{
}

/// Only a brutal kill is immediate; under every other policy the actor is asked first, and is
/// killed after the delay of the policy, if it has one.
pub proof fn lemma_only_a_brutal_kill_is_immediate(policy: Shutdown)
    ensures
        ShutdownMode::of(policy) is ForceKill <==> policy is BrutalKill,
        policy is Infinity ==> ShutdownMode::of(policy)->timeout is None,
        policy matches Shutdown::Timeout(delay) ==> ShutdownMode::of(policy)->timeout == Some(
            delay,
        ),
{
}

} // verus!
