//! Exit reasons that the runtime itself produces.

use vstd::prelude::*;

use crate::types::{ActorId, ExitReason};

verus! {

/// The detail of a panic report.
pub open spec fn panic_text(actor: ActorId, name: Seq<char>, detail: Seq<char>) -> Seq<char> {
    "actor `"@ + name + "` ("@ + actor.text() + ") panicked: "@ + detail
}

/// The reason with which a panicking actor exits. A panic without a text is an unknown one.
pub fn panic_reason(actor: ActorId, name: &str, detail: Option<String>) -> (reason: ExitReason)
    ensures
        reason matches ExitReason::Error(text) && text@ == panic_text(
            actor,
            name@,
            match detail {
                Some(detail) => detail@,
                None => "unknown panic"@,
            },
        ),
{
    let mut text = String::new();
    text.append("actor `");
    text.append(name);
    text.append("` (");
    actor.push_to(&mut text);
    text.append(") panicked: ");
    match &detail {
        Some(detail) => text.append(detail.as_str()),
        None => text.append("unknown panic"),
    }
    assert(text@ =~= panic_text(
        actor,
        name@,
        match detail {
            Some(detail) => detail@,
            None => "unknown panic"@,
        },
    ));
    ExitReason::Error(text)
}

/// The detail of a mailbox overflow.
pub open spec fn overflow_text(actor: ActorId, label: Seq<char>) -> Seq<char> {
    "actor `"@ + actor.text() + "` mailbox overflow while delivering "@ + label
}

/// Whether a reason reports that the mailbox of an actor overflowed.
pub open spec fn is_overflow(reason: ExitReason, actor: ActorId, label: Seq<char>) -> bool {
    reason matches ExitReason::Error(text) && text@ == overflow_text(actor, label)
}

/// The reason with which an actor exits when its mailbox has no room for a runtime envelope.
pub fn mailbox_overflow_reason(actor: ActorId, label: &str) -> (reason: ExitReason)
    ensures
        is_overflow(reason, actor, label@),
{
    let mut text = String::new();
    text.append("actor `");
    actor.push_to(&mut text);
    text.append("` mailbox overflow while delivering ");
    text.append(label);
    assert(text@ =~= overflow_text(actor, label@));
    ExitReason::Error(text)
}

/// The detail of an actor that is gone before it was initialized.
pub open spec fn vanished_text(actor: ActorId) -> Seq<char> {
    "actor `"@ + actor.text() + "` disappeared before init"@
}

/// The reason with which an actor exits that is gone before it was initialized.
pub fn vanished_reason(actor: ActorId) -> (reason: ExitReason)
    ensures
        reason matches ExitReason::Error(text) && text@ == vanished_text(actor),
{
    let mut text = String::new();
    text.append("actor `");
    actor.push_to(&mut text);
    text.append("` disappeared before init");
    assert(text@ =~= vanished_text(actor));
    ExitReason::Error(text)
}

/// What the errors of the runtime say: which actor, and what happened to it.
pub proof fn lemma_what_runtime_errors_say(
    reason: ExitReason,
    actor: ActorId,
    name: Seq<char>,
    detail: Seq<char>,
    label: Seq<char>,
)
    ensures
        is_overflow(reason, actor, label) ==> reason is Error && reason->Error_0@ == "actor `"@
            + actor.text() + "` mailbox overflow while delivering "@ + label,
        panic_text(actor, name, detail) == "actor `"@ + name + "` ("@ + actor.text()
            + ") panicked: "@ + detail,
        vanished_text(actor) == "actor `"@ + actor.text() + "` disappeared before init"@,
{
}

} // verus!
