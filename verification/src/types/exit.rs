//! Exit reasons and actor identities.

use vstd::prelude::*;

use super::ActorId;

verus! {

/// Exit reasons modeled after the OTP failure protocol.
#[derive(Debug, PartialEq, Eq)]
pub enum ExitReason {
    /// Clean actor completion.
    Normal,
    /// Ordered shutdown from a supervisor or caller.
    Shutdown,
    /// Untrappable kill signal.
    Kill,
    /// Target actor does not exist.
    NoProc,
    /// Target node is unavailable.
    NoConnection,
    /// Arbitrary runtime or application error.
    Error(String),
}

impl Clone for ExitReason {
    fn clone(&self) -> (copy: Self)
        ensures
            copy == *self,
    {
        match self {
            ExitReason::Normal => ExitReason::Normal,
            ExitReason::Shutdown => ExitReason::Shutdown,
            ExitReason::Kill => ExitReason::Kill,
            ExitReason::NoProc => ExitReason::NoProc,
            ExitReason::NoConnection => ExitReason::NoConnection,
            ExitReason::Error(detail) => ExitReason::Error(detail.clone()),
        }
    }
}

/// Prints a text the way `{:?}` does: quoted, with escapes.
///
/// `debug_text` names the result; it depends on the text alone.
#[verifier::external_body]
fn quote(text: &str) -> (quoted: String)
    ensures
        quoted@ == debug_text(text@),
{
    format!("{:?}", text)
}

/// What `<str as Debug>::fmt` prints for a text: quotes around it, escapes inside.
pub uninterp spec fn debug_text(text: Seq<char>) -> Seq<char>;

impl ExitReason {
    /// Whether the reason counts as an orderly end: `Normal` or `Shutdown`.
    pub open spec fn is_orderly(self) -> bool {
        self is Normal || self is Shutdown
    }

    /// Tells whether the exit is orderly, so that nothing has to be reported or restarted.
    pub(crate) fn orderly(&self) -> (orderly: bool)
        ensures
            orderly == self.is_orderly(),
            orderly <==> *self is Normal || *self is Shutdown,
    {
        match self {
            ExitReason::Normal => true,
            ExitReason::Shutdown => true,
            _ => false,
        }
    }

    /// The text of a reason.
    pub open spec fn text(self) -> Seq<char> {
        match self {
            ExitReason::Normal => "normal"@,
            ExitReason::Shutdown => "shutdown"@,
            ExitReason::Kill => "killed"@,
            ExitReason::NoProc => "no process"@,
            ExitReason::NoConnection => "no connection"@,
            ExitReason::Error(detail) => "error: "@ + detail@,
        }
    }

    /// The text of a reason as a developer reads it in a nested message.
    pub open spec fn debug(self) -> Seq<char> {
        match self {
            ExitReason::Normal => "Normal"@,
            ExitReason::Shutdown => "Shutdown"@,
            ExitReason::Kill => "Kill"@,
            ExitReason::NoProc => "NoProc"@,
            ExitReason::NoConnection => "NoConnection"@,
            ExitReason::Error(detail) => "Error("@ + debug_text(detail@) + ")"@,
        }
    }

    /// Appends the text of the reason.
    pub(crate) fn push_to(&self, out: &mut String)
        ensures
            final(out)@ == old(out)@ + self.text(),
    {
        match self {
            ExitReason::Normal => out.append("normal"),
            ExitReason::Shutdown => out.append("shutdown"),
            ExitReason::Kill => out.append("killed"),
            ExitReason::NoProc => out.append("no process"),
            ExitReason::NoConnection => out.append("no connection"),
            ExitReason::Error(detail) => {
                out.append("error: ");
                out.append(detail.as_str());
                assert(out@ =~= old(out)@ + self.text());
            },
        }
    }

    /// Renders the reason.
    pub fn to_string(&self) -> (text: String)
        ensures
            text@ == self.text(),
            *self is Normal ==> text@ == "normal"@,
            *self is Shutdown ==> text@ == "shutdown"@,
            *self is Kill ==> text@ == "killed"@,
            *self is NoProc ==> text@ == "no process"@,
            *self is NoConnection ==> text@ == "no connection"@,
            *self matches ExitReason::Error(detail) ==> text@ == "error: "@ + detail@,
    {
        let mut out = String::new();
        self.push_to(&mut out);
        assert(out@ =~= self.text());
        out
    }

    /// Appends the developer text of the reason.
    pub(crate) fn push_debug_to(&self, out: &mut String)
        ensures
            final(out)@ == old(out)@ + self.debug(),
    {
        match self {
            ExitReason::Normal => out.append("Normal"),
            ExitReason::Shutdown => out.append("Shutdown"),
            ExitReason::Kill => out.append("Kill"),
            ExitReason::NoProc => out.append("NoProc"),
            ExitReason::NoConnection => out.append("NoConnection"),
            ExitReason::Error(detail) => {
                let quoted = quote(detail.as_str());
                out.append("Error(");
                out.append(quoted.as_str());
                out.append(")");
                assert(out@ =~= old(out)@ + self.debug());
            },
        }
    }
}

/// Identifies an actor in crash reports and topology snapshots.
#[derive(Debug, PartialEq, Eq)]
pub struct ActorIdentity {
    /// Stable runtime id for the actor.
    pub actor: ActorId,
    /// Human-readable actor name.
    pub name: &'static str,
    /// Optional registered name.
    pub registered_name: Option<String>,
}

impl Clone for ActorIdentity {
    fn clone(&self) -> (copy: Self)
        ensures
            copy == *self,
    {
        ActorIdentity {
            actor: self.actor,
            name: self.name,
            registered_name: self.registered_name.clone(),
        }
    }
}

impl ActorIdentity {
    /// Creates an actor identity from runtime metadata.
    pub fn new(actor: ActorId, name: &'static str, registered_name: Option<String>) -> (identity:
        Self)
        ensures
            identity == (ActorIdentity { actor, name, registered_name }),
    {
        ActorIdentity { actor, name, registered_name }
    }

    /// The text of an identity: id, name in backticks, registered name in brackets.
    pub open spec fn text(self) -> Seq<char> {
        let base = self.actor.text() + " `"@ + self.name@ + "`"@;
        match self.registered_name {
            Some(name) => base + " ("@ + name@ + ")"@,
            None => base,
        }
    }

    /// Appends the text of the identity.
    pub(crate) fn push_to(&self, out: &mut String)
        ensures
            final(out)@ == old(out)@ + self.text(),
    {
        self.actor.push_to(out);
        out.append(" `");
        out.append(self.name);
        out.append("`");
        if let Some(name) = &self.registered_name {
            out.append(" (");
            out.append(name.as_str());
            out.append(")");
        }
        assert(out@ =~= old(out)@ + self.text());
    }

    /// Renders the identity.
    pub fn to_string(&self) -> (text: String)
        ensures
            text@ == self.text(),
    {
        let mut out = String::new();
        self.push_to(&mut out);
        assert(out@ =~= self.text());
        out
    }
}

/// What reasons and identities read like: every reason has its own word, an error its detail, and
/// an actor its id, its name and the name under which it is registered.
pub proof fn lemma_how_reasons_and_identities_read(reason: ExitReason, identity: ActorIdentity)
    ensures
        reason is Normal ==> reason.text() == "normal"@ && reason.debug() == "Normal"@,
        reason is Shutdown ==> reason.text() == "shutdown"@ && reason.debug() == "Shutdown"@,
        reason is Kill ==> reason.text() == "killed"@ && reason.debug() == "Kill"@,
        reason is NoProc ==> reason.text() == "no process"@ && reason.debug() == "NoProc"@,
        reason is NoConnection ==> reason.text() == "no connection"@ && reason.debug()
            == "NoConnection"@,
        reason matches ExitReason::Error(detail) ==> reason.text() == "error: "@ + detail@
            && reason.debug() == "Error("@ + debug_text(detail@) + ")"@,
        reason.is_orderly() <==> reason is Normal || reason is Shutdown,
        identity.registered_name is None ==> identity.text() == identity.actor.text() + " `"@
            + identity.name@ + "`"@,
        identity.registered_name matches Some(name) ==> identity.text() == identity.actor.text()
            + " `"@ + identity.name@ + "`"@ + " ("@ + name@ + ")"@,
        identity.actor.text() == crate::text::decimal(identity.actor.local_id as nat) + "."@
            + crate::text::decimal(identity.actor.generation as nat),
{
}

} // verus!
