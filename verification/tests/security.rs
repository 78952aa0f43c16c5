use legion::json::JsonValue;
use legion::search::grep_request;
use legion::security::{blocked_command_patterns, blocked_command_reason};

fn regex_arguments(pattern: &str) -> JsonValue {
    JsonValue::Object(vec![
        ("pattern".to_owned(), JsonValue::String(pattern.to_owned())),
        ("is_regex".to_owned(), JsonValue::Bool(true)),
    ])
}

#[test]
fn rejects_dangerous_command_patterns() {
    for command in [
        "rm -rf /",
        "format C:",
        "dd if=/dev/zero of=/dev/sda",
        "mkfs.ext4 /dev/sdb",
        ":(){ :|:& };:",
        "git clean -fdx",
    ] {
        assert!(
            blocked_command_reason(command)
                .expect("patterns compile")
                .is_some(),
            "expected command to be blocked: {command}"
        );
    }
}

#[test]
fn permits_commands_outside_the_deny_list() {
    for command in ["cargo test", "git status", "rm -rf ./target"] {
        assert_eq!(
            blocked_command_reason(command).expect("patterns compile"),
            None,
            "expected command to remain approval-gated, not blocked: {command}"
        );
    }
    assert!(!blocked_command_patterns().is_empty());
}

#[test]
fn compiles_and_matches_search_expressions() {
    let expression = grep_request(&regex_arguments("need.*value"))
        .expect("pattern compiles")
        .expression;
    assert!(expression.is_match("needle value"));
    assert!(!expression.is_match("needle"));
    assert!(grep_request(&regex_arguments("(")).is_err());
}
