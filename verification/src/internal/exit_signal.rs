//! What an exit signal does to an actor.

use vstd::prelude::*;

use crate::envelope::ExitSignal;
use crate::types::ExitReason;

verus! {

/// What becomes of an exit signal.
#[derive(Debug, Clone, Copy, PartialEq, Eq, Structural)]
pub enum ExitDisposition {
    /// The actor dies at once.
    KillNow,
    /// The signal is dropped.
    Ignore,
    /// The signal is delivered as a message.
    Enqueue,
}

/// What becomes of an exit signal: a kill cannot be trapped, a link spreads every abnormal exit
/// to an actor that does not trap exits and spares it a normal one, and everything else arrives
/// as a message.
pub open spec fn disposition(trap_exit: bool, signal: ExitSignal) -> ExitDisposition {
    if signal.reason is Kill {
        ExitDisposition::KillNow
    } else if !signal.linked || trap_exit {
        ExitDisposition::Enqueue
    } else if signal.reason is Normal {
        ExitDisposition::Ignore
    } else {
        ExitDisposition::KillNow
    }
}

/// Decides what becomes of an exit signal.
pub fn classify_exit_signal(trap_exit: bool, signal: &ExitSignal) -> (decision: ExitDisposition)
    ensures
        decision == disposition(trap_exit, *signal),
        signal.reason is Kill ==> decision is KillNow,
        !(signal.reason is Kill) && trap_exit ==> decision is Enqueue,
        !(signal.reason is Kill) && !signal.linked ==> decision is Enqueue,
        signal.reason is Normal && signal.linked && !trap_exit ==> decision is Ignore,
        !(signal.reason is Normal) && signal.linked && !trap_exit ==> decision is KillNow,
{
    let kill: bool = match signal.reason {
        ExitReason::Kill => true,
        _ => false,
    };
    let normal: bool = match signal.reason {
        ExitReason::Normal => true,
        _ => false,
    };
    if kill || (signal.linked && !trap_exit && !normal) {
        ExitDisposition::KillNow
    } else if signal.linked && !trap_exit && normal {
        ExitDisposition::Ignore
    } else {
        ExitDisposition::Enqueue
    }
}

/// A kill is fatal even to an actor that traps exits, an actor that traps exits survives every
/// other signal, an actor that does not dies of every linked exit but a normal one, and it does
/// not notice a normal one.
pub proof fn lemma_who_dies_of_an_exit_signal(trap_exit: bool, signal: ExitSignal)
    ensures
        signal.reason is Kill ==> disposition(trap_exit, signal) is KillNow,
        trap_exit && !(signal.reason is Kill) ==> disposition(trap_exit, signal) is Enqueue,
        !signal.linked && !(signal.reason is Kill) ==> disposition(trap_exit, signal) is Enqueue,
        !trap_exit && signal.linked && signal.reason is Normal ==> disposition(
            trap_exit,
            signal,
        ) is Ignore,
        !trap_exit && signal.linked && (signal.reason is Shutdown || signal.reason is NoProc
            || signal.reason is NoConnection || signal.reason is Error) ==> disposition(
            trap_exit,
            signal,
        ) is KillNow,
{
}

} // verus!
