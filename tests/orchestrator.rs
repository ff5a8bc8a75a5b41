use jade::correction::Violation;
use jade::execution::CommandResult;
use jade::message::Role;
use jade::orchestrator::{system_prompt_for, Action, Event, Orchestrator, Phase, Reaction, PROTOCOL_PROMPT};
use jade::parser::Malformation;

fn start(o: &mut Orchestrator, text: &str) -> Reaction {
    o.step(Event::UserInput { text: text.to_string(), environment: "On branch main".to_string() })
}

fn reply(o: &mut Orchestrator, text: &str) -> Reaction {
    o.step(Event::Reply { text: text.to_string() })
}

fn finished(o: &mut Orchestrator, stdout: &str, stderr: &str, succeeded: bool) -> Reaction {
    o.step(Event::CommandFinished {
        result: CommandResult { stdout: stdout.to_string(), stderr: stderr.to_string(), succeeded },
    })
}

fn run_command(r: &Reaction) -> &str {
    match &r.action {
        Action::Run { command } => command.as_str(),
        other => panic!("expected a command to run, got {:?}", other),
    }
}

fn is_request(r: &Reaction) -> bool {
    matches!(r.action, Action::Request { .. })
}

#[test]
fn user_input_asks_the_model() {
    let mut o = Orchestrator::new(20, 10);
    assert_eq!(o.phase(), Phase::Idle);
    let r = start(&mut o, "what changed?");
    match &r.action {
        Action::Request { system_prompt, history } => {
            assert_eq!(system_prompt, &format!("{}\n\nREPOSITORY STATUS:\nOn branch main", PROTOCOL_PROMPT));
            assert_eq!(system_prompt, &system_prompt_for("On branch main"));
            assert_eq!(history.len(), 1);
            assert_eq!(history[0].role, Role::User);
            assert_eq!(history[0].content, "what changed?");
        }
        other => panic!("expected a request, got {:?}", other),
    }
    assert!(r.notices.is_empty());
    assert_eq!(o.phase(), Phase::AwaitingReply);
    assert_eq!(o.attempts(), 0);
}

#[test]
fn two_commands_run_in_order_and_report_once() {
    let mut o = Orchestrator::new(20, 10);
    start(&mut o, "say hi and bye");
    let r = reply(&mut o, "EXECUTE: echo hi\nEXECUTE: echo bye");
    assert_eq!(run_command(&r), "echo hi");
    assert_eq!(o.phase(), Phase::Executing);
    let r = finished(&mut o, "hi\n", "", true);
    assert_eq!(run_command(&r), "echo bye");
    let r = finished(&mut o, "bye\n", "", true);
    assert!(is_request(&r));
    let h = o.history();
    assert_eq!(h.len(), 3);
    assert_eq!(h[1].role, Role::Assistant);
    assert_eq!(h[1].content, "EXECUTE: echo hi\nEXECUTE: echo bye");
    assert_eq!(h[2].role, Role::User);
    assert_eq!(h[2].content, "Output of `echo hi`:\nhi\n\nOutput of `echo bye`:\nbye\n\n");
    let hi = h[2].content.find("hi\n").unwrap();
    let bye = h[2].content.find("bye\n").unwrap();
    assert!(hi < bye);
    assert_eq!(o.attempts(), 1);
}

#[test]
fn final_reply_ends_the_turn() {
    let mut o = Orchestrator::new(20, 10);
    start(&mut o, "anything to do?");
    let r = reply(&mut o, "FINAL: done");
    match &r.action {
        Action::Finish { message } => assert_eq!(message, "done"),
        other => panic!("expected the turn to finish, got {:?}", other),
    }
    assert!(r.notices.is_empty());
    assert_eq!(o.phase(), Phase::Finalized);
    let r = finished(&mut o, "x", "", true);
    assert!(matches!(r.action, Action::Wait));
    assert_eq!(o.history().len(), 2);
}

#[test]
fn backticks_are_removed_from_the_reply() {
    let mut o = Orchestrator::new(20, 10);
    start(&mut o, "status");
    let r = reply(&mut o, "  EXECUTE: `git status`\n");
    assert_eq!(run_command(&r), "git status");
    assert_eq!(o.history()[1].content, "EXECUTE: git status");
}

#[test]
fn mixed_reply_is_corrected_and_not_final() {
    let mut o = Orchestrator::new(20, 10);
    start(&mut o, "commit");
    let r = reply(&mut o, "EXECUTE: git commit -am wip\nFINAL: committed");
    assert!(is_request(&r));
    assert_eq!(r.notices.len(), 1);
    match &r.notices[0] {
        Violation::Malformed { reason, .. } => assert_eq!(*reason, Malformation::MixedMarkers),
        other => panic!("expected a malformation, got {:?}", other),
    }
    assert_eq!(o.phase(), Phase::AwaitingReply);
    let h = o.history();
    assert_eq!(h.len(), 3);
    assert_eq!(h[2].role, Role::User);
    assert!(h[2].content.contains("mixed FINAL and EXECUTE"));
}

#[test]
fn destructive_command_is_refused_and_never_run() {
    let mut o = Orchestrator::new(20, 10);
    start(&mut o, "clean up");
    let r = reply(&mut o, "EXECUTE: git reset --hard\nEXECUTE: git status");
    assert_eq!(run_command(&r), "git status");
    assert_eq!(r.notices.len(), 1);
    match &r.notices[0] {
        Violation::Refused { command } => assert_eq!(command, "git reset --hard"),
        other => panic!("expected a refusal, got {:?}", other),
    }
    let r = finished(&mut o, "clean\n", "", true);
    assert!(is_request(&r));
    let h = o.history();
    assert_eq!(h.len(), 4);
    assert!(h[2].content.starts_with("Refused for safety"));
    assert_eq!(h[3].content, "Output of `git status`:\nclean\n\n");
}

#[test]
fn only_refused_commands_ask_again() {
    let mut o = Orchestrator::new(20, 10);
    start(&mut o, "wipe");
    let r = reply(&mut o, "EXECUTE: rm -rf .");
    assert!(is_request(&r));
    assert_eq!(r.notices.len(), 1);
    assert_eq!(o.attempts(), 1);
    assert_eq!(o.history().len(), 3);
}

#[test]
fn failed_command_output_is_fed_back() {
    let mut o = Orchestrator::new(20, 10);
    start(&mut o, "read");
    reply(&mut o, "EXECUTE: cat missing");
    let r = finished(&mut o, "", "cat: missing: No such file", false);
    assert!(is_request(&r));
    let h = o.history();
    assert_eq!(h[2].content, "Output of `cat missing`:\n\nERROR: cat: missing: No such file\n");
}

#[test]
fn unmarked_reply_is_corrected() {
    let mut o = Orchestrator::new(20, 10);
    start(&mut o, "hello");
    let r = reply(&mut o, "Sure, happy to help!");
    assert!(is_request(&r));
    assert_eq!(r.notices.len(), 1);
    match &r.notices[0] {
        Violation::Malformed { raw, reason } => {
            assert_eq!(raw, "Sure, happy to help!");
            assert_eq!(*reason, Malformation::NoMarker);
        }
        other => panic!("expected a malformation, got {:?}", other),
    }
    assert_eq!(o.history().len(), 3);
}

#[test]
fn too_many_attempts_abort_once() {
    let mut o = Orchestrator::new(50, 2);
    let mut requests = 1;
    assert!(is_request(&start(&mut o, "loop")));
    let mut aborts = 0;
    for _ in 0..6 {
        let r = reply(&mut o, "no markers here");
        match r.action {
            Action::Request { .. } => requests += 1,
            Action::Abort => aborts += 1,
            Action::Wait => {}
            other => panic!("unexpected action {:?}", other),
        }
    }
    assert_eq!(requests, 3);
    assert_eq!(aborts, 1);
    assert_eq!(o.phase(), Phase::Aborted);
    assert_eq!(o.attempts(), 3);
    assert!(matches!(o.step(Event::BackendFailed { error: "x".to_string() }).action, Action::Wait));
    assert!(is_request(&start(&mut o, "again")));
    assert_eq!(o.attempts(), 0);
}

#[test]
fn backend_failure_ends_the_turn_only() {
    let mut o = Orchestrator::new(20, 10);
    start(&mut o, "hi");
    let r = o.step(Event::BackendFailed { error: "503".to_string() });
    match &r.action {
        Action::Fail { error } => assert_eq!(error, "503"),
        other => panic!("expected a failure, got {:?}", other),
    }
    assert_eq!(o.phase(), Phase::Idle);
    assert_eq!(o.history().len(), 1);
    assert!(is_request(&start(&mut o, "hi again")));
}

#[test]
fn events_out_of_phase_are_ignored() {
    let mut o = Orchestrator::new(20, 10);
    assert!(matches!(reply(&mut o, "FINAL: x").action, Action::Wait));
    start(&mut o, "go");
    assert!(matches!(start(&mut o, "again").action, Action::Wait));
    assert_eq!(o.history().len(), 1);
}

#[test]
fn history_stays_bounded_over_many_turns() {
    let mut o = Orchestrator::new(4, 10);
    for i in 0..10 {
        start(&mut o, &format!("q{}", i));
        reply(&mut o, "FINAL: ok");
        assert!(o.history().len() <= 4);
    }
    let h = o.history();
    assert_eq!(h.last().unwrap().content, "FINAL: ok");
}
