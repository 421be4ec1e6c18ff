//! Outcomes of actor turns.

use vstd::prelude::*;

use crate::types::ExitReason;

verus! {

/// Outcome of a single actor turn on a scheduler thread.
#[derive(Debug, PartialEq, Eq)]
pub enum ActorTurn {
    /// Continue processing future messages without forcing an immediate yield.
    Continue,
    /// Yield the scheduler after finishing the current envelope.
    Yield,
    /// Stop the actor with the given exit reason.
    Stop(ExitReason),
}

impl Clone for ActorTurn {
    fn clone(&self) -> (copy: Self)
        ensures
            copy == *self,
    {
        match self {
            ActorTurn::Continue => ActorTurn::Continue,
            ActorTurn::Yield => ActorTurn::Yield,
            ActorTurn::Stop(reason) => ActorTurn::Stop(reason.clone()),
        }
    }
}

} // verus!
