//! Lifecycle events and crash reports.

use vstd::prelude::*;

use crate::types::{ActorId, ActorIdentity, ExitReason, Ref, Shutdown};

verus! {

/// Copies a list of ids.
pub(crate) fn copy_ids(ids: &Vec<ActorId>) -> (copy: Vec<ActorId>)
    ensures
        copy@ == ids@,
{
    let copy = ids.clone();
    assert(copy@ =~= ids@);
    copy
}

/// Lifecycle phases for runtime-managed actor shutdown.
#[derive(Debug, Clone, Copy, PartialEq, Eq, Structural)]
pub enum ShutdownPhase {
    /// A graceful or forced shutdown was requested.
    Requested,
    /// A graceful shutdown exceeded its timeout and was escalated.
    TimedOut,
    /// The actor finished exiting after a shutdown request.
    Completed,
}

/// Structured lifecycle events emitted by the runtime.
#[derive(Debug, PartialEq, Eq)]
#[allow(inconsistent_fields)]
pub enum LifecycleEvent {
    /// A new actor was spawned into the runtime.
    Spawn {
        /// The spawned actor id.
        actor: ActorId,
        /// Human-readable actor name.
        name: &'static str,
        /// Optional registered name for the actor.
        registered_name: Option<String>,
        /// Parent actor in the supervision tree, if any.
        parent: Option<ActorId>,
        /// Supervisor child spec id when the actor belongs to a supervisor.
        supervisor_child: Option<&'static str>,
    },
    /// An actor exited and completed termination.
    Exit {
        /// The terminated actor id.
        actor: ActorId,
        /// Human-readable actor name.
        name: &'static str,
        /// Final exit reason.
        reason: ExitReason,
        /// Parent actor in the supervision tree, if any.
        parent: Option<ActorId>,
        /// Ancestor chain captured at spawn time.
        ancestors: Vec<ActorId>,
    },
    /// A monitor delivered a `DOWN` notification.
    Down {
        /// Watching actor that received the notification.
        watcher: ActorId,
        /// Terminated actor.
        actor: ActorId,
        /// Monitor reference.
        reference: Ref,
        /// Exit reason observed by the watcher.
        reason: ExitReason,
    },
    /// A supervisor restarted a child.
    Restart {
        /// Supervisor actor performing the restart.
        supervisor: ActorId,
        /// Stable child id from the supervisor spec.
        child_id: &'static str,
        /// Previous actor id for the child, if one existed.
        old_actor: Option<ActorId>,
        /// Newly spawned actor id.
        new_actor: ActorId,
    },
    /// A shutdown request was issued, timed out, or completed.
    Shutdown {
        /// Actor that initiated the shutdown.
        requester: ActorId,
        /// Actor being shut down.
        actor: ActorId,
        /// Shutdown policy in effect.
        policy: Shutdown,
        /// Current phase of the shutdown flow.
        phase: ShutdownPhase,
        /// Final or escalated reason when available.
        reason: Option<ExitReason>,
    },
}

/// What a lifecycle event says, with sequences in place of vectors.
#[allow(inconsistent_fields)]
pub enum LifecycleView {
    /// See [`LifecycleEvent::Spawn`].
    Spawn {
        /// The spawned actor id.
        actor: ActorId,
        /// Human-readable actor name.
        name: &'static str,
        /// Optional registered name for the actor.
        registered_name: Option<String>,
        /// Parent actor, if any.
        parent: Option<ActorId>,
        /// Supervisor child spec id, if any.
        supervisor_child: Option<&'static str>,
    },
    /// See [`LifecycleEvent::Exit`].
    Exit {
        /// The terminated actor id.
        actor: ActorId,
        /// Human-readable actor name.
        name: &'static str,
        /// Final exit reason.
        reason: ExitReason,
        /// Parent actor, if any.
        parent: Option<ActorId>,
        /// Ancestor chain captured at spawn time.
        ancestors: Seq<ActorId>,
    },
    /// See [`LifecycleEvent::Down`].
    Down {
        /// Watching actor.
        watcher: ActorId,
        /// Terminated actor.
        actor: ActorId,
        /// Monitor reference.
        reference: Ref,
        /// Exit reason observed by the watcher.
        reason: ExitReason,
    },
    /// See [`LifecycleEvent::Restart`].
    Restart {
        /// Supervisor actor.
        supervisor: ActorId,
        /// Stable child id.
        child_id: &'static str,
        /// Previous actor id, if one existed.
        old_actor: Option<ActorId>,
        /// Newly spawned actor id.
        new_actor: ActorId,
    },
    /// See [`LifecycleEvent::Shutdown`].
    Shutdown {
        /// Actor that initiated the shutdown.
        requester: ActorId,
        /// Actor being shut down.
        actor: ActorId,
        /// Shutdown policy in effect.
        policy: Shutdown,
        /// Current phase.
        phase: ShutdownPhase,
        /// Reason when available.
        reason: Option<ExitReason>,
    },
}

impl View for LifecycleEvent {
    type V = LifecycleView;

    open spec fn view(&self) -> LifecycleView {
        match *self {
            LifecycleEvent::Spawn { actor, name, registered_name, parent, supervisor_child } => LifecycleView::Spawn {
                actor,
                name,
                registered_name,
                parent,
                supervisor_child,
            },
            LifecycleEvent::Exit { actor, name, reason, parent, ancestors } => LifecycleView::Exit {
                actor,
                name,
                reason,
                parent,
                ancestors: ancestors@,
            },
            LifecycleEvent::Down { watcher, actor, reference, reason } => LifecycleView::Down {
                watcher,
                actor,
                reference,
                reason,
            },
            LifecycleEvent::Restart { supervisor, child_id, old_actor, new_actor } => LifecycleView::Restart {
                supervisor,
                child_id,
                old_actor,
                new_actor,
            },
            LifecycleEvent::Shutdown { requester, actor, policy, phase, reason } => LifecycleView::Shutdown {
                requester,
                actor,
                policy,
                phase,
                reason,
            },
        }
    }
}

impl Clone for LifecycleEvent {
    fn clone(&self) -> (copy: Self)
        ensures
            copy@ == self@,
    {
        match self {
            LifecycleEvent::Spawn { actor, name, registered_name, parent, supervisor_child } => LifecycleEvent::Spawn {
                actor: *actor,
                name: *name,
                registered_name: registered_name.clone(),
                parent: *parent,
                supervisor_child: *supervisor_child,
            },
            LifecycleEvent::Exit { actor, name, reason, parent, ancestors } => LifecycleEvent::Exit {
                actor: *actor,
                name: *name,
                reason: reason.clone(),
                parent: *parent,
                ancestors: copy_ids(ancestors),
            },
            LifecycleEvent::Down { watcher, actor, reference, reason } => LifecycleEvent::Down {
                watcher: *watcher,
                actor: *actor,
                reference: *reference,
                reason: reason.clone(),
            },
            LifecycleEvent::Restart { supervisor, child_id, old_actor, new_actor } => LifecycleEvent::Restart {
                supervisor: *supervisor,
                child_id: *child_id,
                old_actor: *old_actor,
                new_actor: *new_actor,
            },
            LifecycleEvent::Shutdown { requester, actor, policy, phase, reason } => LifecycleEvent::Shutdown {
                requester: *requester,
                actor: *actor,
                policy: *policy,
                phase: *phase,
                reason: reason.clone(),
            },
        }
    }
}

/// Structured crash report emitted for abnormal actor exits.
#[derive(Debug, PartialEq, Eq)]
pub struct CrashReport {
    /// Actor that crashed or was killed.
    pub actor: ActorId,
    /// Human-readable actor name.
    pub name: &'static str,
    /// Optional registered actor name.
    pub registered_name: Option<String>,
    /// Parent actor in the supervision tree, if any.
    pub parent: Option<ActorId>,
    /// Resolved parent actor identity when it was still available.
    pub parent_context: Option<ActorIdentity>,
    /// Ancestor chain captured at spawn time.
    pub ancestors: Vec<ActorId>,
    /// Resolved ancestor identities from root to leaf when available.
    pub ancestor_contexts: Vec<ActorIdentity>,
    /// Supervisor child spec id when the actor belongs to a supervisor.
    pub supervisor_child: Option<&'static str>,
    /// Final abnormal exit reason.
    pub reason: ExitReason,
}

/// What a crash report says, with sequences in place of vectors.
pub struct CrashView {
    /// Actor that crashed or was killed.
    pub actor: ActorId,
    /// Human-readable actor name.
    pub name: &'static str,
    /// Optional registered actor name.
    pub registered_name: Option<String>,
    /// Parent actor, if any.
    pub parent: Option<ActorId>,
    /// Resolved parent actor identity.
    pub parent_context: Option<ActorIdentity>,
    /// Ancestor chain captured at spawn time.
    pub ancestors: Seq<ActorId>,
    /// Resolved ancestor identities.
    pub ancestor_contexts: Seq<ActorIdentity>,
    /// Supervisor child spec id, if any.
    pub supervisor_child: Option<&'static str>,
    /// Final abnormal exit reason.
    pub reason: ExitReason,
}

impl View for CrashReport {
    type V = CrashView;

    open spec fn view(&self) -> CrashView {
        CrashView {
            actor: self.actor,
            name: self.name,
            registered_name: self.registered_name,
            parent: self.parent,
            parent_context: self.parent_context,
            ancestors: self.ancestors@,
            ancestor_contexts: self.ancestor_contexts@,
            supervisor_child: self.supervisor_child,
            reason: self.reason,
        }
    }
}

impl Clone for CrashReport {
    fn clone(&self) -> (copy: Self)
        ensures
            copy@ == self@,
    {
        let ancestor_contexts = self.ancestor_contexts.clone();
        assert(ancestor_contexts@ =~= self.ancestor_contexts@);
        CrashReport {
            actor: self.actor,
            name: self.name,
            registered_name: self.registered_name.clone(),
            parent: self.parent,
            parent_context: self.parent_context.clone(),
            ancestors: copy_ids(&self.ancestors),
            ancestor_contexts,
            supervisor_child: self.supervisor_child,
            reason: self.reason.clone(),
        }
    }
}

/// Texts one after the other with an arrow between them.
pub open spec fn arrow_joined(texts: Seq<Seq<char>>) -> Seq<char>
    decreases texts.len(),
{
    if texts.len() == 0 {
        Seq::empty()
    } else if texts.len() == 1 {
        texts[0]
    } else {
        arrow_joined(texts.drop_last()) + " -> "@ + texts.last()
    }
}

/// The texts of identities.
pub open spec fn identity_texts(identities: Seq<ActorIdentity>) -> Seq<Seq<char>> {
    identities.map_values(|identity: ActorIdentity| identity.text())
}

/// The texts of ids.
pub open spec fn id_texts(ids: Seq<ActorId>) -> Seq<Seq<char>> {
    ids.map_values(|id: ActorId| id.text())
}

impl CrashReport {
    /// Returns the crashing actor as a reusable identity object.
    pub fn actor_identity(&self) -> (identity: ActorIdentity)
        ensures
            identity == (ActorIdentity {
                actor: self.actor,
                name: self.name,
                registered_name: self.registered_name,
            }),
    {
        ActorIdentity::new(self.actor, self.name, self.registered_name.clone())
    }

    /// Returns the resolved parent actor identity when available.
    pub fn parent_identity(&self) -> (identity: Option<&ActorIdentity>)
        ensures
            match identity {
                Some(identity) => self.parent_context == Some(*identity),
                None => self.parent_context is None,
            },
    {
        self.parent_context.as_ref()
    }

    /// Returns resolved ancestor identities in root-to-leaf order.
    pub fn ancestor_identities(&self) -> (identities: &[ActorIdentity])
        ensures
            identities@ == self.ancestor_contexts@,
    {
        self.ancestor_contexts.as_slice()
    }

    /// The part of the text that names the supervisor child.
    pub open spec fn child_text(self) -> Seq<char> {
        match self.supervisor_child {
            Some(child_id) => " [supervisor child: "@ + child_id@ + "]"@,
            None => Seq::empty(),
        }
    }

    /// The part of the text that names the parent.
    pub open spec fn parent_text(self) -> Seq<char> {
        match (self.parent_context, self.parent) {
            (Some(parent), _) => "; parent: "@ + parent.text(),
            (None, Some(parent)) => "; parent: "@ + parent.text(),
            (None, None) => Seq::empty(),
        }
    }

    /// The part of the text that names the ancestors.
    pub open spec fn ancestors_text(self) -> Seq<char> {
        if self.ancestor_contexts@.len() > 0 {
            "; ancestors: "@ + arrow_joined(identity_texts(self.ancestor_contexts@))
        } else if self.ancestors@.len() > 0 {
            "; ancestors: "@ + arrow_joined(id_texts(self.ancestors@))
        } else {
            Seq::empty()
        }
    }

    /// The text of a crash report.
    pub open spec fn text(self) -> Seq<char> {
        let identity = ActorIdentity {
            actor: self.actor,
            name: self.name,
            registered_name: self.registered_name,
        };
        identity.text() + " exited abnormally: "@ + self.reason.text() + self.child_text()
            + self.parent_text() + self.ancestors_text()
    }

    fn push_child_to(&self, out: &mut String)
        ensures
            final(out)@ == old(out)@ + self.child_text(),
    {
        if let Some(child_id) = self.supervisor_child {
            out.append(" [supervisor child: ");
            out.append(child_id);
            out.append("]");
        }
        assert(out@ =~= old(out)@ + self.child_text());
    }

    fn push_parent_to(&self, out: &mut String)
        ensures
            final(out)@ == old(out)@ + self.parent_text(),
    {
        match &self.parent_context {
            Some(parent) => {
                out.append("; parent: ");
                parent.push_to(out);
            },
            None => {
                if let Some(parent) = self.parent {
                    out.append("; parent: ");
                    parent.push_to(out);
                }
            },
        }
        assert(out@ =~= old(out)@ + self.parent_text());
    }

    fn push_ancestors_to(&self, out: &mut String)
        ensures
            final(out)@ == old(out)@ + self.ancestors_text(),
    {
        if self.ancestor_contexts.len() > 0 {
            out.append("; ancestors: ");
            push_identity_chain(out, &self.ancestor_contexts);
        } else if self.ancestors.len() > 0 {
            out.append("; ancestors: ");
            push_id_chain(out, &self.ancestors);
        }
        assert(out@ =~= old(out)@ + self.ancestors_text());
    }

    /// Renders the report.
    pub fn to_string(&self) -> (text: String)
        ensures
            text@ == self.text(),
    {
        let mut out = String::new();
        let identity = self.actor_identity();
        identity.push_to(&mut out);
        out.append(" exited abnormally: ");
        self.reason.push_to(&mut out);
        self.push_child_to(&mut out);
        self.push_parent_to(&mut out);
        self.push_ancestors_to(&mut out);
        assert(out@ =~= self.text());
        out
    }
}

/// Joining one text more adds an arrow and the text.
proof fn lemma_join_step(texts: Seq<Seq<char>>, at: int)
    requires
        0 <= at < texts.len(),
    ensures
        arrow_joined(texts.take(at + 1)) == (if at == 0 {
            texts[0]
        } else {
            arrow_joined(texts.take(at)) + " -> "@ + texts[at]
        }),
{
    assert(texts.take(at + 1).drop_last() =~= texts.take(at));
}

fn push_identity_chain(out: &mut String, identities: &Vec<ActorIdentity>)
    ensures
        final(out)@ == old(out)@ + arrow_joined(identity_texts(identities@)),
{
    let ghost texts = identity_texts(identities@);
    let mut at: usize = 0;
    assert(out@ =~= old(out)@ + arrow_joined(texts.take(0)));
    while at < identities.len()
        invariant
            at <= identities@.len(),
            texts == identity_texts(identities@),
            out@ == old(out)@ + arrow_joined(texts.take(at as int)),
        decreases identities@.len() - at,
    {
        proof {
            lemma_join_step(texts, at as int);
        }
        let ghost before = out@;
        if at > 0 {
            out.append(" -> ");
        }
        identities[at].push_to(out);
        proof {
            assert(texts[at as int] == identities@[at as int].text());
            if at == 0 {
                assert(arrow_joined(texts.take(0)) =~= Seq::<char>::empty());
                assert(before =~= old(out)@);
            }
            assert(out@ =~= old(out)@ + arrow_joined(texts.take(at + 1)));
        }
        at = at + 1;
    }
    assert(texts.take(texts.len() as int) =~= texts);
}

fn push_id_chain(out: &mut String, ids: &Vec<ActorId>)
    ensures
        final(out)@ == old(out)@ + arrow_joined(id_texts(ids@)),
{
    let ghost texts = id_texts(ids@);
    let mut at: usize = 0;
    assert(out@ =~= old(out)@ + arrow_joined(texts.take(0)));
    while at < ids.len()
        invariant
            at <= ids@.len(),
            texts == id_texts(ids@),
            out@ == old(out)@ + arrow_joined(texts.take(at as int)),
        decreases ids@.len() - at,
    {
        proof {
            lemma_join_step(texts, at as int);
        }
        let ghost before = out@;
        if at > 0 {
            out.append(" -> ");
        }
        ids[at].push_to(out);
        proof {
            assert(texts[at as int] == ids@[at as int].text());
            if at == 0 {
                assert(arrow_joined(texts.take(0)) =~= Seq::<char>::empty());
                assert(before =~= old(out)@);
            }
            assert(out@ =~= old(out)@ + arrow_joined(texts.take(at + 1)));
        }
        at = at + 1;
    }
    assert(texts.take(texts.len() as int) =~= texts);
}

/// What a crash report reads like: who exited and why, then as which child, whose child it was and
/// from whom it descends, as far as that is known; a parent and ancestors whose names are known
/// read by name.
pub proof fn lemma_how_a_crash_report_reads(report: CrashReport)
    ensures
        ({
            let identity = ActorIdentity {
                actor: report.actor,
                name: report.name,
                registered_name: report.registered_name,
            };
            let head = identity.text() + " exited abnormally: "@ + report.reason.text();
            report.supervisor_child is None && report.parent_context is None
                && report.parent is None && report.ancestor_contexts@.len() == 0
                && report.ancestors@.len() == 0 ==> report.text() =~= head
        }),
        report.supervisor_child matches Some(child) ==> report.child_text()
            == " [supervisor child: "@ + child@ + "]"@,
        report.supervisor_child is None ==> report.child_text().len() == 0,
        report.parent_context matches Some(parent) ==> report.parent_text() == "; parent: "@
            + parent.text(),
        report.parent_context is None && report.parent is Some ==> report.parent_text()
            == "; parent: "@ + report.parent->0.text(),
        report.parent_context is None && report.parent is None ==> report.parent_text().len() == 0,
        report.ancestor_contexts@.len() == 1 ==> report.ancestors_text() == "; ancestors: "@
            + report.ancestor_contexts@[0].text(),
        report.ancestor_contexts@.len() == 0 && report.ancestors@.len() == 1
            ==> report.ancestors_text() == "; ancestors: "@ + report.ancestors@[0].text(),
        report.ancestor_contexts@.len() == 0 && report.ancestors@.len() == 0
            ==> report.ancestors_text().len() == 0,
        ({
            let identity = ActorIdentity {
                actor: report.actor,
                name: report.name,
                registered_name: report.registered_name,
            };
            report.text() == identity.text() + " exited abnormally: "@ + report.reason.text()
                + report.child_text() + report.parent_text() + report.ancestors_text()
        }),
{
    if report.ancestor_contexts@.len() == 1 {
        let texts = identity_texts(report.ancestor_contexts@);
        assert(texts[0] == report.ancestor_contexts@[0].text());
    }
    if report.ancestors@.len() == 1 {
        let texts = id_texts(report.ancestors@);
        assert(texts[0] == report.ancestors@[0].text());
    }
}

/// A chain of names has an arrow between each two of them.
pub proof fn lemma_how_a_chain_reads(texts: Seq<Seq<char>>, next: Seq<char>)
    ensures
        arrow_joined(Seq::empty()).len() == 0,
        texts.len() == 0 ==> arrow_joined(texts.push(next)) == next,
        texts.len() > 0 ==> arrow_joined(texts.push(next)) == arrow_joined(texts) + " -> "@ + next,
{
    assert(texts.push(next).drop_last() =~= texts);
}

} // verus!
