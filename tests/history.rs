use jade::history::ConversationHistory;
use jade::message::{Message, Role};

fn texts(h: &ConversationHistory) -> Vec<String> {
    h.snapshot().into_iter().map(|m| m.content).collect()
}

#[test]
fn append_keeps_order() {
    let mut h = ConversationHistory::new(4);
    h.append(Message::user("a".to_string()));
    h.append(Message::assistant("b".to_string()));
    assert_eq!(h.len(), 2);
    assert_eq!(texts(&h), vec!["a", "b"]);
    let snap = h.snapshot();
    assert_eq!(snap[0].role, Role::User);
    assert_eq!(snap[1].role, Role::Assistant);
}

#[test]
fn trimming_removes_the_two_oldest_together() {
    let mut h = ConversationHistory::new(4);
    for t in ["1", "2", "3", "4"] {
        h.append(Message::user(t.to_string()));
    }
    assert_eq!(h.len(), 4);
    h.append(Message::user("5".to_string()));
    assert_eq!(h.len(), 3);
    assert_eq!(texts(&h), vec!["3", "4", "5"]);
}

#[test]
fn length_never_exceeds_the_bound() {
    let mut h = ConversationHistory::new(5);
    for i in 0..40 {
        let before = h.len();
        h.append(Message::user(format!("m{}", i)));
        assert!(h.len() <= h.limit());
        assert!(h.len() == before + 1 || h.len() == before - 1);
        assert_eq!(h.snapshot().last().unwrap().content, format!("m{}", i));
    }
}

#[test]
fn smallest_bound_of_two() {
    let mut h = ConversationHistory::new(2);
    h.append(Message::user("a".to_string()));
    h.append(Message::user("b".to_string()));
    h.append(Message::user("c".to_string()));
    assert_eq!(texts(&h), vec!["c"]);
}
