use legion::json::JsonValue;
use legion::persistence::{
    audit_record, auto_install_setting, bool_text, default_auto_install_ollama, default_num_ctx,
    default_ollama_endpoint, imports_legacy_data, nonempty_timestamp, pending_migrations,
    storage_error, validate_state, MessageCheck, SessionCheck, ToolAuditRecord,
};
use legion::tool_loop::ToolCallEvent;

fn session(id: &str, messages: Vec<(&str, &str)>) -> SessionCheck {
    SessionCheck {
        id: id.to_owned(),
        temperature_bits: 0.7f64.to_bits(),
        top_p_bits: 0.9f64.to_bits(),
        num_ctx: 4096,
        messages: messages
            .into_iter()
            .map(|(id, role)| MessageCheck {
                id: id.to_owned(),
                role: role.to_owned(),
            })
            .collect(),
    }
}

#[test]
fn accepts_a_consistent_session_state() {
    let sessions = vec![
        session("session-1", vec![("m1", "user"), ("m2", "assistant")]),
        session("session-2", vec![]),
    ];
    assert_eq!(validate_state(&sessions, &Some("session-2".to_owned())), Ok(()));
    assert_eq!(validate_state(&sessions, &None), Ok(()));
    assert_eq!(validate_state(&Vec::new(), &None), Ok(()));
}

#[test]
fn refuses_invalid_session_states_with_the_first_problem() {
    let duplicate = vec![session("s", vec![]), session("s", vec![])];
    assert_eq!(
        validate_state(&duplicate, &None),
        Err("Saved session data contains duplicate or empty session IDs.".to_owned())
    );
    let mut hot = session("hot", vec![]);
    hot.temperature_bits = 2.5f64.to_bits();
    assert_eq!(
        validate_state(&vec![hot], &None),
        Err("Saved settings for session 'hot' are invalid.".to_owned())
    );
    let bad_role = vec![session("s", vec![("m1", "system")])];
    assert_eq!(
        validate_state(&bad_role, &None),
        Err("Saved messages for session 's' are invalid.".to_owned())
    );
    let repeated = vec![session("s", vec![("m1", "user"), ("m1", "assistant")])];
    assert!(validate_state(&repeated, &None).is_err());
    assert_eq!(
        validate_state(&vec![session("s", vec![])], &Some("other".to_owned())),
        Err("Saved session data contains an invalid active session reference.".to_owned())
    );
}

#[test]
fn records_tool_calls_for_the_audit_log() {
    let event = ToolCallEvent {
        id: "req-0-0".to_owned(),
        request_id: "req".to_owned(),
        tool_name: "run_command".to_owned(),
        arguments: JsonValue::Null,
        arguments_summary: "{}".to_owned(),
        result: JsonValue::Object(vec![("error".to_owned(), JsonValue::String("x".to_owned()))]),
        status: "failed".to_owned(),
        approval_status: "approved".to_owned(),
        created_at: "7".to_owned(),
    };
    let record: ToolAuditRecord = audit_record(&event, "session-1");
    assert_eq!(record.session_id, "session-1");
    assert_eq!(record.execution_status, "failed");
    assert_eq!(record.created_at, "7");
}

#[test]
fn fills_missing_settings_with_defaults() {
    assert_eq!(default_ollama_endpoint(), "http://localhost:11434");
    assert!(default_auto_install_ollama());
    assert_eq!(default_num_ctx(), 4096);
    assert_eq!(auto_install_setting(None), Ok(true));
    assert_eq!(auto_install_setting(Some("false")), Ok(false));
    assert!(auto_install_setting(Some("yes")).is_err());
    assert_eq!(bool_text(true), "true");
    assert_eq!(nonempty_timestamp("12"), "12");
    assert!(!nonempty_timestamp("").is_empty());
    assert_eq!(storage_error("disk full"), "SQLite persistence error: disk full");
}

#[test]
fn applies_each_schema_version_once() {
    assert_eq!(pending_migrations(0), vec![1, 2]);
    assert_eq!(pending_migrations(1), vec![2]);
    assert!(pending_migrations(2).is_empty());
    assert!(imports_legacy_data(0, true));
    assert!(!imports_legacy_data(1, true));
    assert!(!imports_legacy_data(0, false));
}

#[test]
fn records_access_outside_the_workspace() {
    let record = legion::persistence::path_access_record(
        "req-0-0-path",
        "s",
        "read_file",
        "{\"requested_path\":\"/etc/hosts\"}",
        "allow_once",
        "5",
    );
    assert_eq!(record.id, "req-0-0-path-path-access");
    assert_eq!(record.execution_status, "authorized");
    assert_eq!(
        legion::ollama::http_error("404 Not Found", "missing"),
        "Ollama returned HTTP 404 Not Found: missing"
    );
}
