use jade::input::{classify_input, Input};

#[test]
fn quit_and_exit_end_the_session() {
    assert!(matches!(classify_input("quit"), Input::Quit));
    assert!(matches!(classify_input("  exit \n"), Input::Quit));
}

#[test]
fn blank_lines_ask_nothing() {
    assert!(matches!(classify_input(""), Input::Blank));
    assert!(matches!(classify_input("  \t"), Input::Blank));
}

#[test]
fn other_lines_are_requests() {
    match classify_input("  show me the last commit ") {
        Input::Request { text } => assert_eq!(text, "show me the last commit"),
        other => panic!("expected a request, got {:?}", other),
    }
    assert!(matches!(classify_input("Quit"), Input::Request { .. }));
}
