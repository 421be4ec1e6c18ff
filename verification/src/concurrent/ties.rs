//! Links and monitors of the multicore runtime.

use vstd::prelude::*;

use crate::context::{LinkError, MonitorError};
use crate::envelope::{DownMessage, Envelope};
use crate::internal::error::mailbox_overflow_reason;
use crate::runtime::state::StateView;
use crate::types::{ActorId, ExitReason, Ref};

use super::state::ConcurrentRuntime;

verus! {

/// The state once two actors are linked.
pub open spec fn linked(state: StateView, actor: ActorId, other: ActorId) -> StateView {
    state.link_added(actor, other).link_added(other, actor)
}

/// The state once two actors are no longer linked.
pub open spec fn unlinked(state: StateView, actor: ActorId, other: ActorId) -> StateView {
    state.link_removed(actor, other).link_removed(other, actor)
}

/// The state once an actor monitors another one.
pub open spec fn monitored(
    state: StateView,
    actor: ActorId,
    other: ActorId,
    reference: Ref,
) -> StateView {
    state.watching_added(actor, reference, other).watch_added(other, reference, actor)
}

/// The state once an actor no longer monitors another one.
pub open spec fn demonitored(
    state: StateView,
    actor: ActorId,
    other: ActorId,
    reference: Ref,
) -> StateView {
    state.watching_removed(actor, reference).watch_removed(other, reference)
}

/// What happens when an actor monitors one that does not exist: it is told at once, or, when its
/// mailbox has no room for that, the reason with which it has to exit is returned.
pub open spec fn missing_reported(
    state: StateView,
    actor: ActorId,
    other: ActorId,
    reference: Ref,
    after: StateView,
    exit: Option<ExitReason>,
) -> bool {
    let down = Envelope::Down(
        DownMessage { reference, actor: other, reason: ExitReason::NoProc },
    );
    if state.has(actor) {
        &&& after == state.with(state.actor(actor).delivered(down))
        &&& if state.actor(actor).mailbox.refuses(down) {
            exit matches Some(reason) && crate::internal::error::is_overflow(
                reason,
                actor,
                "down"@,
            )
        } else {
            exit is None
        }
    } else {
        after == state && exit is None
    }
}

impl ConcurrentRuntime {
    /// Links two actors. Linking an actor with itself does nothing.
    pub fn link(&mut self, actor: ActorId, other: ActorId) -> (outcome: Result<(), LinkError>)
        requires
            old(self).wf(),
        ensures
            final(self).wf(),
            final(self).same_setup(*old(self)),
            ({
                let before = old(self).state@;
                outcome == (if other == actor {
                    Ok(())
                } else if !before.has(actor) {
                    Err(LinkError::NoProc(actor))
                } else if !before.has(other) {
                    Err(LinkError::NoProc(other))
                } else if before.actor(actor).links.contains(other) {
                    Err(LinkError::AlreadyLinked(other))
                } else {
                    Ok(())
                })
            }),
            final(self).state@ == (if outcome is Ok && other != actor {
                linked(old(self).state@, actor, other)
            } else {
                old(self).state@
            }),
    {
        if other == actor {
            return Ok(());
        }
        if !self.state.actors.contains(actor) {
            return Err(LinkError::NoProc(actor));
        }
        if !self.state.actors.contains(other) {
            return Err(LinkError::NoProc(other));
        }
        let ghost before = self.state@;
        if !self.state.add_link(actor, other) {
            proof {
                let entry = before.actor(actor);
                assert(entry.links.insert(other) =~= entry.links);
                assert(self.state@.actors =~= before.actors);
            }
            return Err(LinkError::AlreadyLinked(other));
        }
        let _added = self.state.add_link(other, actor);
        Ok(())
    }

    /// Unlinks two actors. Unlinking an actor from itself does nothing.
    pub fn unlink(&mut self, actor: ActorId, other: ActorId) -> (outcome: Result<(), LinkError>)
        requires
            old(self).wf(),
        ensures
            final(self).wf(),
            final(self).same_setup(*old(self)),
            ({
                let before = old(self).state@;
                outcome == (if other == actor {
                    Ok(())
                } else if !before.has(actor) {
                    Err(LinkError::NoProc(actor))
                } else if !before.has(other) {
                    Err(LinkError::NoProc(other))
                } else if !before.actor(actor).links.contains(other) {
                    Err(LinkError::NotLinked(other))
                } else {
                    Ok(())
                })
            }),
            final(self).state@ == (if outcome is Ok && other != actor {
                unlinked(old(self).state@, actor, other)
            } else {
                old(self).state@
            }),
    {
        if other == actor {
            return Ok(());
        }
        if !self.state.actors.contains(actor) {
            return Err(LinkError::NoProc(actor));
        }
        if !self.state.actors.contains(other) {
            return Err(LinkError::NoProc(other));
        }
        let ghost before = self.state@;
        if !self.state.remove_link(actor, other) {
            proof {
                let entry = before.actor(actor);
                assert(entry.links.remove(other) =~= entry.links);
                assert(self.state@.actors =~= before.actors);
            }
            return Err(LinkError::NotLinked(other));
        }
        let _removed = self.state.remove_link(other, actor);
        Ok(())
    }

    /// Makes an actor monitor another one under a reference. An actor that monitors one that does
    /// not exist is told at once; the reason with which it has to exit is returned when its
    /// mailbox has no room for that.
    pub fn monitor(&mut self, actor: ActorId, other: ActorId, reference: Ref) -> (exit: Option<
        ExitReason,
    >)
        requires
            old(self).wf(),
        ensures
            final(self).wf(),
            final(self).same_setup(*old(self)),
            if other == actor || old(self).state@.has(other) {
                exit is None && final(self).state@ == monitored(
                    old(self).state@,
                    actor,
                    other,
                    reference,
                )
            } else {
                missing_reported(
                    old(self).state@,
                    actor,
                    other,
                    reference,
                    final(self).state@,
                    exit,
                )
            },
    {
        if other == actor || self.state.actors.contains(other) {
            self.state.add_watching(actor, reference, other);
            self.state.add_watch(other, reference, actor);
            return None;
        }
        let ghost before = self.state@;
        match self.state.actors.take(actor) {
            Some(mut entry) => {
                let outcome = entry.deliver(
                    Envelope::Down(
                        DownMessage { reference, actor: other, reason: ExitReason::NoProc },
                    ),
                );
                self.state.actors.put(entry);
                proof {
                    let down = Envelope::Down(
                        DownMessage { reference, actor: other, reason: ExitReason::NoProc },
                    );
                    assert(self.state@.actors =~= before.with(
                        before.actor(actor).delivered(down),
                    ).actors);
                }
                match outcome {
                    Ok(()) => None,
                    Err(_) => Some(mailbox_overflow_reason(actor, "down")),
                }
            },
            None => None,
        }
    }

    /// Ends a monitor of an actor.
    pub fn demonitor(&mut self, actor: ActorId, reference: Ref) -> (outcome: Result<
        (),
        MonitorError,
    >)
        requires
            old(self).wf(),
        ensures
            final(self).wf(),
            final(self).same_setup(*old(self)),
            ({
                let before = old(self).state@;
                if !before.has(actor) {
                    outcome == Err::<(), MonitorError>(MonitorError::NoProc(actor))
                        && final(self).state@ == before
                } else if !before.actor(actor).monitors_out.contains_key(reference) {
                    outcome == Err::<(), MonitorError>(MonitorError::UnknownRef(reference))
                        && final(self).state@ == before
                } else {
                    outcome == Ok::<(), MonitorError>(()) && final(self).state@ == demonitored(
                        before,
                        actor,
                        before.actor(actor).monitors_out[reference],
                        reference,
                    )
                }
            }),
    {
        if !self.state.actors.contains(actor) {
            return Err(MonitorError::NoProc(actor));
        }
        let ghost before = self.state@;
        match self.state.remove_watching(actor, reference) {
            Some(target) => {
                self.state.remove_watch(target, reference);
                Ok(())
            },
            None => {
                proof {
                    let entry = before.actor(actor);
                    assert(entry.monitors_out.remove(reference) =~= entry.monitors_out);
                    assert(self.state@.actors =~= before.actors);
                }
                Err(MonitorError::UnknownRef(reference))
            },
        }
    }
}

} // verus!
