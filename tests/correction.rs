use jade::correction::{correction, Violation};
use jade::execution::{push_feedback, CommandResult};
use jade::message::Role;
use jade::parser::Malformation;

#[test]
fn malformed_reply_correction() {
    let m = correction(&Violation::Malformed {
        raw: "hello".to_string(),
        reason: Malformation::NoMarker,
    });
    assert_eq!(m.role, Role::User);
    assert_eq!(
        m.content,
        "Your reply broke the protocol: response contained neither EXECUTE nor FINAL.\nOffending text: hello\nReply with one `EXECUTE: <command>` per line, or with a single `FINAL: <message>` once the task is done, never both."
    );
}

#[test]
fn refusal_correction() {
    let m = correction(&Violation::Refused { command: "rm -rf /".to_string() });
    assert_eq!(m.role, Role::User);
    assert_eq!(
        m.content,
        "Refused for safety: destructive commands are never run.\nOffending command: rm -rf /\nReply with one `EXECUTE: <command>` per line, or with a single `FINAL: <message>` once the task is done, never both."
    );
}

#[test]
fn feedback_block_with_and_without_errors() {
    let mut buf = String::from(">");
    push_feedback(
        &mut buf,
        "ls",
        &CommandResult { stdout: "a\nb".to_string(), stderr: String::new(), succeeded: true },
    );
    assert_eq!(buf, ">Output of `ls`:\na\nb\n");
    push_feedback(
        &mut buf,
        "cat x",
        &CommandResult { stdout: String::new(), stderr: "no such file".to_string(), succeeded: false },
    );
    assert_eq!(buf, ">Output of `ls`:\na\nb\nOutput of `cat x`:\n\nERROR: no such file\n");
}
