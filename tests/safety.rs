use jade::safety::{check, Verdict};

#[test]
fn hard_reset_is_refused() {
    assert_eq!(check("git reset --hard HEAD~1"), Verdict::Refused);
}

#[test]
fn forced_delete_is_refused_anywhere_in_the_text() {
    assert_eq!(check("cd /tmp && rm -rf build"), Verdict::Refused);
    assert_eq!(check("echo 'rm -rf'"), Verdict::Refused);
}

#[test]
fn ordinary_commands_are_allowed() {
    assert_eq!(check("git status"), Verdict::Allowed);
    assert_eq!(check("git reset --soft HEAD~1"), Verdict::Allowed);
    assert_eq!(check("rm -r build"), Verdict::Allowed);
    assert_eq!(check(""), Verdict::Allowed);
}
