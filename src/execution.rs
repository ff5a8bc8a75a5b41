//! What running a command produced, and the feedback that reports it to the
//! model.
use crate::text::push_text;
use vstd::prelude::*;

verus! {

/// The outcome of one shell command. A failing command is data, not a fault.
#[derive(Clone, Debug)]
pub struct CommandResult {
    pub stdout: String,
    pub stderr: String,
    pub succeeded: bool,
}

/// A command outcome with its texts as character sequences.
pub struct CommandResultView {
    pub stdout: Seq<char>,
    pub stderr: Seq<char>,
    pub succeeded: bool,
}

impl View for CommandResult {
    type V = CommandResultView;

    open spec fn view(&self) -> CommandResultView {
        CommandResultView {
            stdout: self.stdout@,
            stderr: self.stderr@,
            succeeded: self.succeeded,
        }
    }
}

/// The feedback block that reports running `command` with outcome `r`: the
/// command and its output, then its error output when there is any.
pub open spec fn feedback_block(command: Seq<char>, r: CommandResultView) -> Seq<char> {
    "Output of `"@ + command + "`:\n"@ + r.stdout + "\n"@ + if r.stderr.len() > 0 {
        "ERROR: "@ + r.stderr + "\n"@
    } else {
        Seq::empty()
    }
}

/// Appends to `buffer` the feedback block for `command` and its outcome `r`.
pub fn push_feedback(buffer: &mut String, command: &str, r: &CommandResult)
    ensures
        final(buffer)@ == old(buffer)@ + feedback_block(command@, r@),
{
    push_text(buffer, "Output of `");
    push_text(buffer, command);
    push_text(buffer, "`:\n");
    push_text(buffer, r.stdout.as_str());
    push_text(buffer, "\n");
    if !r.stderr.as_str().is_empty() {
        push_text(buffer, "ERROR: ");
        push_text(buffer, r.stderr.as_str());
        push_text(buffer, "\n");
    }
    assert(final(buffer)@ =~= old(buffer)@ + feedback_block(command@, r@));
}

} // verus!
