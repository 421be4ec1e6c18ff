//! Actor status and metrics.

use vstd::prelude::*;

use super::ExitReason;

verus! {

/// Actor lifecycle state exposed through observability APIs.
#[derive(Debug, Clone, Copy, PartialEq, Eq, Structural)]
pub enum ActorStatus {
    /// The actor has been allocated but not yet initialized.
    Starting,
    /// The actor is ready to run.
    Runnable,
    /// The actor is blocked on a mailbox, timer, or async completion.
    Waiting,
    /// The actor is currently executing on a scheduler thread.
    Running,
    /// The actor is unwinding and running termination hooks.
    Exiting,
    /// The actor has terminated.
    Dead,
}

impl Default for ActorStatus {
    fn default() -> (status: Self)
        ensures
            status is Starting,
    {
        ActorStatus::Starting
    }
}

/// Observable actor metrics useful for an Observer-style UI.
#[derive(Debug, PartialEq, Eq)]
pub struct ActorMetrics {
    /// Current mailbox length.
    pub mailbox_len: usize,
    /// Number of actor turns processed.
    pub turns_run: u64,
    /// Number of restarts observed by supervisors.
    pub restarts: u64,
    /// Most recent exit reason, if the actor has terminated before.
    pub last_exit: Option<ExitReason>,
    /// Current scheduler assignment, if runnable.
    pub scheduler_id: Option<usize>,
}

impl Clone for ActorMetrics {
    fn clone(&self) -> (copy: Self)
        ensures
            copy == *self,
    {
        ActorMetrics {
            mailbox_len: self.mailbox_len,
            turns_run: self.turns_run,
            restarts: self.restarts,
            last_exit: self.last_exit.clone(),
            scheduler_id: self.scheduler_id,
        }
    }
}

impl Default for ActorMetrics {
    fn default() -> (metrics: Self)
        ensures
            metrics == (ActorMetrics {
                mailbox_len: 0,
                turns_run: 0,
                restarts: 0,
                last_exit: None,
                scheduler_id: None,
            }),
    {
        ActorMetrics {
            mailbox_len: 0,
            turns_run: 0,
            restarts: 0,
            last_exit: None,
            scheduler_id: None,
        }
    }
}

} // verus!
