//! Corrective feedback for the model when its reply breaks the protocol or
//! asks for a destructive command.
use crate::message::{Message, MessageView, Role};
use crate::parser::{reason_text, Malformation};
use crate::text::push_text;
use vstd::prelude::*;

verus! {

/// A protocol or safety violation of the model.
#[derive(Clone, Debug)]
pub enum Violation {
    /// The reply, or its line `raw`, breaks the protocol.
    Malformed { raw: String, reason: Malformation },
    /// The command was refused for safety.
    Refused { command: String },
}

/// A violation with its texts as character sequences.
pub enum ViolationView {
    Malformed { raw: Seq<char>, reason: Malformation },
    Refused { command: Seq<char> },
}

impl View for Violation {
    type V = ViolationView;

    open spec fn view(&self) -> ViolationView {
        match self {
            Violation::Malformed { raw, reason } => ViolationView::Malformed {
                raw: raw@,
                reason: *reason,
            },
            Violation::Refused { command } => ViolationView::Refused { command: command@ },
        }
    }
}

/// The views of a sequence of violations.
pub open spec fn violation_views(vs: Seq<Violation>) -> Seq<ViolationView> {
    vs.map_values(|v: Violation| v@)
}

/// The reminder of the expected reply format that closes every correction.
pub open spec fn format_reminder() -> Seq<char> {
    "Reply with one `EXECUTE: <command>` per line, or with a single `FINAL: <message>` once the task is done, never both."@
}

/// The text of the correction for `v`.
pub open spec fn correction_text(v: ViolationView) -> Seq<char> {
    match v {
        ViolationView::Malformed { raw, reason } => "Your reply broke the protocol: "@ + reason_text(
            reason,
        ) + ".\nOffending text: "@ + raw + "\n"@ + format_reminder(),
        ViolationView::Refused { command } =>
            "Refused for safety: destructive commands are never run.\nOffending command: "@
                + command + "\n"@ + format_reminder(),
    }
}

/// The user-role message that corrects `v`.
pub open spec fn correction_message(v: ViolationView) -> MessageView {
    MessageView { role: Role::User, content: correction_text(v) }
}

/// The corrections for `vs`, in order.
pub open spec fn corrections(vs: Seq<ViolationView>) -> Seq<MessageView> {
    vs.map_values(|v: ViolationView| correction_message(v))
}

/// The user-role message that describes `v` and the expected format.
pub fn correction(v: &Violation) -> (m: Message)
    ensures
        m@ == correction_message(v@),
{
    let mut text = String::new();
    match v {
        Violation::Malformed { raw, reason } => {
            push_text(&mut text, "Your reply broke the protocol: ");
            push_text(&mut text, reason.reason());
            push_text(&mut text, ".\nOffending text: ");
            push_text(&mut text, raw.as_str());
        },
        Violation::Refused { command } => {
            push_text(
                &mut text,
                "Refused for safety: destructive commands are never run.\nOffending command: ",
            );
            push_text(&mut text, command.as_str());
        },
    }
    push_text(&mut text, "\n");
    push_text(
        &mut text,
        "Reply with one `EXECUTE: <command>` per line, or with a single `FINAL: <message>` once the task is done, never both.",
    );
    proof {
        assert(text@ =~= correction_text(v@));
    }
    Message::user(text)
}

} // verus!
