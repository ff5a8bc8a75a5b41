use jade::parser::{parse, Directive, Malformation};

fn command(d: &Directive) -> &str {
    match d {
        Directive::Execute { command } => command.as_str(),
        other => panic!("expected a command, got {:?}", other),
    }
}

fn malformed(d: &Directive) -> (&str, Malformation) {
    match d {
        Directive::Malformed { raw, reason } => (raw.as_str(), *reason),
        other => panic!("expected a malformation, got {:?}", other),
    }
}

#[test]
fn two_commands_in_order() {
    let ds = parse("EXECUTE: echo hi\nEXECUTE: echo bye");
    assert_eq!(ds.len(), 2);
    assert_eq!(command(&ds[0]), "echo hi");
    assert_eq!(command(&ds[1]), "echo bye");
}

#[test]
fn final_message_is_trimmed() {
    let ds = parse("FINAL:   done  \n");
    assert_eq!(ds.len(), 1);
    match &ds[0] {
        Directive::Final { message } => assert_eq!(message, "done"),
        other => panic!("expected a final message, got {:?}", other),
    }
}

#[test]
fn final_message_keeps_everything_after_the_marker() {
    let ds = parse("All set.\nFINAL: branch created\nand pushed");
    assert_eq!(ds.len(), 1);
    match &ds[0] {
        Directive::Final { message } => assert_eq!(message, "branch created\nand pushed"),
        other => panic!("expected a final message, got {:?}", other),
    }
}

#[test]
fn empty_final_yields_nothing() {
    assert!(parse("FINAL:   ").is_empty());
}

#[test]
fn mixed_markers_are_one_malformation() {
    let reply = "EXECUTE: git status\nFINAL: done";
    let ds = parse(reply);
    assert_eq!(ds.len(), 1);
    let (raw, reason) = malformed(&ds[0]);
    assert_eq!(raw, reply);
    assert_eq!(reason, Malformation::MixedMarkers);
    assert_eq!(reason.reason(), "mixed FINAL and EXECUTE");
}

#[test]
fn no_marker_is_malformed() {
    let ds = parse("I think you should run git status.");
    assert_eq!(ds.len(), 1);
    let (raw, reason) = malformed(&ds[0]);
    assert_eq!(raw, "I think you should run git status.");
    assert_eq!(reason, Malformation::NoMarker);
    assert_eq!(reason.reason(), "response contained neither EXECUTE nor FINAL");
}

#[test]
fn narration_line_is_malformed_and_blank_lines_are_skipped() {
    let ds = parse("Let me look.\n\n   \nEXECUTE: ls -la\n");
    assert_eq!(ds.len(), 2);
    let (raw, reason) = malformed(&ds[0]);
    assert_eq!(raw, "Let me look.");
    assert_eq!(reason, Malformation::StrayLine);
    assert_eq!(reason.reason(), "line must start with EXECUTE");
    assert_eq!(command(&ds[1]), "ls -la");
}

#[test]
fn marker_inside_a_line_is_split_at_its_first_occurrence() {
    let ds = parse("  now EXECUTE: git log EXECUTE: x");
    assert_eq!(ds.len(), 1);
    assert_eq!(command(&ds[0]), "git log EXECUTE: x");
}

#[test]
fn surrounding_backticks_are_stripped_from_commands() {
    let ds = parse("EXECUTE: `git diff --stat`");
    assert_eq!(ds.len(), 1);
    assert_eq!(command(&ds[0]), "git diff --stat");
}

#[test]
fn marker_without_command_is_malformed() {
    let ds = parse("EXECUTE:   \nEXECUTE: pwd");
    assert_eq!(ds.len(), 2);
    let (raw, reason) = malformed(&ds[0]);
    assert_eq!(raw, "EXECUTE:");
    assert_eq!(reason, Malformation::EmptyCommand);
    assert_eq!(command(&ds[1]), "pwd");
}

#[test]
fn markers_are_case_sensitive() {
    let ds = parse("execute: ls");
    assert_eq!(ds.len(), 1);
    assert_eq!(malformed(&ds[0]).1, Malformation::NoMarker);
}

#[test]
fn crlf_lines_are_trimmed() {
    let ds = parse("EXECUTE: git status\r\nEXECUTE: git branch\r\n");
    assert_eq!(ds.len(), 2);
    assert_eq!(command(&ds[0]), "git status");
    assert_eq!(command(&ds[1]), "git branch");
}

#[test]
fn empty_reply_is_malformed() {
    let ds = parse("");
    assert_eq!(ds.len(), 1);
    assert_eq!(malformed(&ds[0]).1, Malformation::NoMarker);
}
