//! The veto on destructive commands.
//!
//! The policy is deliberately coarse: a command is refused when its text
//! holds a hard reset or a recursive forced delete, wherever that text stands.
use crate::text::{chars_of, contains, find};
use vstd::prelude::*;

verus! {

/// The text of a hard reset.
pub open spec fn hard_reset() -> Seq<char> {
    "reset --hard"@
}

/// The text of a recursive forced delete.
pub open spec fn forced_delete() -> Seq<char> {
    "rm -rf"@
}

/// The command text holds a destructive pattern.
pub open spec fn is_destructive(command: Seq<char>) -> bool {
    contains(command, hard_reset()) || contains(command, forced_delete())
}

/// What the guard decides about a command.
#[derive(Clone, Copy, Debug, PartialEq, Eq, Structural)]
pub enum Verdict {
    Allowed,
    Refused,
}

/// Decides whether the command `command`, given as characters, may run.
pub fn check_chars(command: &Vec<char>) -> (r: Verdict)
    ensures
        r == (if is_destructive(command@) {
            Verdict::Refused
        } else {
            Verdict::Allowed
        }),
{
    let reset = chars_of("reset --hard");
    let delete = chars_of("rm -rf");
    let hit_reset = find(command, &reset);
    let hit_delete = find(command, &delete);
    if hit_reset.is_some() || hit_delete.is_some() {
        Verdict::Refused
    } else {
        Verdict::Allowed
    }
}

/// Decides whether `command` may run.
pub fn check(command: &str) -> (r: Verdict)
    ensures
        r == (if is_destructive(command@) {
            Verdict::Refused
        } else {
            Verdict::Allowed
        }),
{
    let cs = chars_of(command);
    check_chars(&cs)
}

} // verus!
