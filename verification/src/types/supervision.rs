//! Restart, shutdown and child policies.

use std::time::Duration;

use vstd::prelude::*;

use super::ExitReason;

verus! {

/// The length of a duration in nanoseconds, as `Duration::as_nanos` counts it.
pub uninterp spec fn duration_nanos(duration: Duration) -> nat;

/// `Duration::as_nanos`: the total number of nanoseconds in the duration.
pub assume_specification[ Duration::as_nanos ](duration: &Duration) -> (nanos: u128)
    ensures
        nanos == duration_nanos(*duration),
;

/// `Duration::from_secs`: a duration of that many whole seconds.
pub assume_specification[ Duration::from_secs ](secs: u64) -> (duration: Duration)
    ensures
        duration_nanos(duration) == secs * 1_000_000_000,
;

/// Restart policy for supervisor children.
#[derive(Debug, Clone, Copy, PartialEq, Eq, Structural)]
pub enum Restart {
    /// Always restart the child.
    Permanent,
    /// Restart only on abnormal exits.
    Transient,
    /// Never restart the child.
    Temporary,
}

/// Child restart strategy for a supervisor subtree.
#[derive(Debug, Clone, Copy, PartialEq, Eq, Structural)]
pub enum Strategy {
    /// Restart only the failed child.
    OneForOne,
    /// Restart all children when any child fails.
    OneForAll,
    /// Restart the failed child and any child started after it.
    RestForOne,
}

/// Shutdown policy used when terminating children.
#[derive(Debug, Clone, Copy, PartialEq, Eq)]
pub enum Shutdown {
    /// Terminate immediately without graceful shutdown.
    BrutalKill,
    /// Give the child time to exit before forcing termination.
    Timeout(Duration),
    /// Wait indefinitely for shutdown.
    Infinity,
}

impl Default for Shutdown {
    fn default() -> (policy: Self)
        ensures
            policy matches Shutdown::Timeout(delay) && duration_nanos(delay) == 5_000_000_000,
    {
        Shutdown::Timeout(Duration::from_secs(5))
    }
}

/// Supervisor-level restart intensity configuration.
#[derive(Debug, Clone, Copy, PartialEq, Eq)]
pub struct SupervisorFlags {
    /// The restart strategy for the subtree.
    pub strategy: Strategy,
    /// The maximum restarts allowed inside the period window.
    pub intensity: u32,
    /// The time window used for restart throttling.
    pub period: Duration,
}

impl Default for SupervisorFlags {
    fn default() -> (flags: Self)
        ensures
            flags.strategy is OneForOne,
            flags.intensity == 3,
            duration_nanos(flags.period) == 5_000_000_000,
    {
        SupervisorFlags {
            strategy: Strategy::OneForOne,
            intensity: 3,
            period: Duration::from_secs(5),
        }
    }
}

/// Static child metadata used by supervisors.
#[derive(Debug, Clone, Copy, PartialEq, Eq)]
pub struct ChildSpec {
    /// Stable child identifier within the supervisor.
    pub id: &'static str,
    /// Restart policy for the child.
    pub restart: Restart,
    /// Shutdown behavior when terminating the child.
    pub shutdown: Shutdown,
    /// Whether the child is itself a supervisor.
    pub is_supervisor: bool,
}

impl ChildSpec {
    /// Whether an exit for the given reason calls for a restart.
    pub open spec fn restarts_on(self, reason: ExitReason) -> bool {
        match self.restart {
            Restart::Permanent => true,
            Restart::Temporary => false,
            Restart::Transient => !reason.is_orderly(),
        }
    }

    /// Returns `true` when the child should be restarted for the exit reason.
    pub fn should_restart(&self, reason: &ExitReason) -> (restart: bool)
        ensures
            restart == self.restarts_on(*reason),
            self.restart is Temporary ==> !restart,
            self.restart is Permanent ==> restart,
            self.restart is Transient ==> (restart <==> !(*reason is Normal) && !(
            *reason is Shutdown)),
    {
        match self.restart {
            Restart::Permanent => true,
            Restart::Temporary => false,
            Restart::Transient => !reason.orderly(),
        }
    }
}

/// What the restart policies of children mean, for every exit reason: a temporary child is never
/// restarted, a permanent one always is, and a transient one is restarted exactly when it has
/// exited neither normally nor because of a shutdown.
pub proof fn lemma_restart_policies(
    temporary: ChildSpec,
    permanent: ChildSpec,
    transient: ChildSpec,
    reason: ExitReason,
)
    requires
        temporary.restart is Temporary,
        permanent.restart is Permanent,
        transient.restart is Transient,
    ensures
        !temporary.restarts_on(reason),
        permanent.restarts_on(reason),
        reason is Normal || reason is Shutdown ==> !transient.restarts_on(reason),
        reason is Kill || reason is NoProc || reason is NoConnection || reason is Error
            ==> transient.restarts_on(reason),
{
}

} // verus!
