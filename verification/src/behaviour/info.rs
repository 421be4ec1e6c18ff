//! Messages that behaviours understand.

use vstd::prelude::*;

use crate::envelope::{
    CallTimedOut, DownMessage, ExitSignal, Payload, SystemMessage, TaskCompleted, TimerFired,
};
use crate::types::Ref;

verus! {

/// Wrapper used for `cast` messages sent to a behaviour.
#[derive(Debug, Clone, PartialEq, Eq)]
pub struct CastMessage<T>(pub T);

/// Wrapper used for user-defined `info` messages sent to a behaviour.
#[derive(Debug, Clone, PartialEq, Eq)]
pub struct InfoMessage<T>(pub T);

/// Runtime-generated informational messages delivered to the info handler of a behaviour.
#[derive(Debug)]
#[allow(inconsistent_fields)]
pub enum RuntimeInfo {
    /// Reply to a previously issued call.
    Reply {
        /// The original request reference.
        reference: Ref,
        /// The reply payload.
        message: Payload,
    },
    /// Completion of a blocking task.
    Task(TaskCompleted),
    /// Timeout for a pending request.
    CallTimeout(CallTimedOut),
    /// Exit signal from a linked actor.
    Exit(ExitSignal),
    /// Down notification from a monitor.
    Down(DownMessage),
    /// Fired timer token.
    Timer(TimerFired),
    /// Reserved runtime control message.
    System(SystemMessage),
}

} // verus!
