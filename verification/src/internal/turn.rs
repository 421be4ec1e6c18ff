//! What an actor asks for during a turn.

use vstd::prelude::*;

use crate::actor::ActorTurn;
use crate::types::ExitReason;

verus! {

/// What an actor asked for during a turn, besides the turn's own outcome.
#[derive(Debug)]
pub struct TurnEffects {
    /// The reason with which the actor wants to exit.
    pub exit_reason: Option<ExitReason>,
    /// Whether the actor gives up the scheduler after the turn.
    pub yielded: bool,
}

impl TurnEffects {
    /// No effects.
    pub open spec fn none() -> TurnEffects {
        TurnEffects { exit_reason: None, yielded: false }
    }

    /// No effects.
    pub fn new() -> (effects: Self)
        ensures
            effects == (TurnEffects { exit_reason: None, yielded: false }),
    {
        TurnEffects { exit_reason: None, yielded: false }
    }
}

impl Default for TurnEffects {
    fn default() -> (effects: Self)
        ensures
            effects == (TurnEffects { exit_reason: None, yielded: false }),
    {
        TurnEffects::new()
    }
}

/// What an actor asked for over two stretches of a turn: the later request to exit counts, and a
/// request to give up the scheduler stands.
pub open spec fn merged(earlier: TurnEffects, later: TurnEffects) -> TurnEffects {
    TurnEffects {
        exit_reason: match later.exit_reason {
            Some(reason) => Some(reason),
            None => earlier.exit_reason,
        },
        yielded: earlier.yielded || later.yielded,
    }
}

/// Puts together what an actor asked for over two stretches of a turn.
pub fn merge_effects(earlier: TurnEffects, later: TurnEffects) -> (effects: TurnEffects)
    ensures
        effects == merged(earlier, later),
        effects.yielded <==> earlier.yielded || later.yielded,
        later.exit_reason is Some ==> effects.exit_reason == later.exit_reason,
        later.exit_reason is None ==> effects.exit_reason == earlier.exit_reason,
{
    TurnEffects {
        exit_reason: match later.exit_reason {
            Some(reason) => Some(reason),
            None => earlier.exit_reason,
        },
        yielded: earlier.yielded || later.yielded,
    }
}

/// Whether an actor gives up the scheduler after a turn: it asked for that during the turn, or the
/// turn ended in it.
pub open spec fn yields_after(effects: TurnEffects, turn: ActorTurn) -> bool {
    effects.yielded || turn is Yield
}

/// Decides whether an actor gives up the scheduler after a turn.
pub fn yields_scheduler(effects: &TurnEffects, turn: &ActorTurn) -> (yields: bool)
    ensures
        yields == yields_after(*effects, *turn),
        effects.yielded ==> yields,
        *turn is Yield ==> yields,
        !effects.yielded && !(*turn is Yield) ==> !yields,
{
    effects.yielded || matches!(turn, ActorTurn::Yield)
}

/// The reason with which an actor exits after a turn: what it asked for during the turn comes
/// before the outcome of the turn.
pub open spec fn exit_after(effects: TurnEffects, turn: ActorTurn) -> Option<ExitReason> {
    match (effects.exit_reason, turn) {
        (Some(reason), _) => Some(reason),
        (None, ActorTurn::Stop(reason)) => Some(reason),
        (None, _) => None,
    }
}

/// Decides whether an actor exits after a turn.
pub fn exit_reason_after(effects: TurnEffects, turn: ActorTurn) -> (reason: Option<ExitReason>)
    ensures
        reason == exit_after(effects, turn),
        effects.exit_reason is Some ==> reason == effects.exit_reason,
        effects.exit_reason is None ==> (reason is Some <==> turn is Stop),
        effects.exit_reason is None && turn is Stop ==> reason == Some(turn->Stop_0),
{
    match effects.exit_reason {
        Some(reason) => Some(reason),
        None => match turn {
            ActorTurn::Stop(reason) => Some(reason),
            _ => None,
        },
    }
}

/// An actor goes on after a turn exactly when neither it nor the turn asked for its end; what it
/// asked for itself comes before the end of the turn, and the later of two requests counts.
pub proof fn lemma_how_a_turn_ends(earlier: TurnEffects, later: TurnEffects, turn: ActorTurn)
    ensures
        exit_after(merged(earlier, later), turn) is None <==> earlier.exit_reason is None
            && later.exit_reason is None && !(turn is Stop),
        later.exit_reason is Some ==> exit_after(merged(earlier, later), turn)
            == later.exit_reason,
        later.exit_reason is None && earlier.exit_reason is Some ==> exit_after(
            merged(earlier, later),
            turn,
        ) == earlier.exit_reason,
        earlier.exit_reason is None && later.exit_reason is None ==> (turn matches ActorTurn::Stop(
            reason,
        ) ==> exit_after(merged(earlier, later), turn) == Some(reason)),
        yields_after(merged(earlier, later), turn) <==> earlier.yielded || later.yielded
            || turn is Yield,
{
}

} // verus!
