use legion::json::{JsonNumber, JsonValue};
use legion::tools::{
    append_limited, apply_edit, argument_bool, argument_string, captured_output_text,
    command_outcome, command_request, create_request, edit_request, emit_command_event,
    ensure_approved_snapshot, existing_file, BuiltinTool, CommandOutputEvent, OutputCapture,
    RiskLevel, ToolContext, ToolRegistry, ToolSchema, MAX_CAPTURED_OUTPUT_BYTES,
    OUTPUT_TRUNCATED_MARKER,
};
use std::cell::RefCell;

fn object(members: Vec<(&str, JsonValue)>) -> JsonValue {
    JsonValue::Object(
        members
            .into_iter()
            .map(|(k, v)| (k.to_owned(), v))
            .collect(),
    )
}

fn text(s: &str) -> JsonValue {
    JsonValue::String(s.to_owned())
}

fn custom_schema(name: &str) -> ToolSchema {
    ToolSchema {
        name: name.to_owned(),
        description: "test".to_owned(),
        parameters: object(vec![("type", text("object"))]),
        risk_level: RiskLevel::AutoApprove,
    }
}

#[test]
fn registers_tools_and_rejects_duplicate_names() {
    let mut registry = ToolRegistry::with_examples(Some);
    assert!(registry.register(custom_schema("custom"), None).is_ok());
    assert!(registry.register(custom_schema("custom"), None).is_err());
    assert_eq!(registry.schemas().len(), 7);
    let command = registry
        .schema("run_command")
        .expect("command tool registered");
    assert_eq!(command.risk_level, RiskLevel::RequiresConfirmation);
    assert_eq!(
        registry.get("run_command"),
        Some(&Some(BuiltinTool::RunCommand))
    );
}

#[test]
fn keeps_tools_ordered_by_name_and_refuses_blank_names() {
    let mut registry = ToolRegistry::with_examples(|tool| tool);
    let names: Vec<String> = registry.schemas().into_iter().map(|s| s.name).collect();
    assert_eq!(
        names,
        vec![
            "create_file",
            "edit_file",
            "get_current_time",
            "list_workspace_files",
            "read_file",
            "run_command"
        ]
    );
    assert_eq!(
        registry.register(custom_schema("  "), BuiltinTool::ReadFile),
        Err("Tool name cannot be empty".to_owned())
    );
    assert_eq!(
        registry.register(custom_schema("read_file"), BuiltinTool::ReadFile),
        Err("Tool 'read_file' is already registered".to_owned())
    );
    registry
        .register(custom_schema("aaa"), BuiltinTool::ReadFile)
        .expect("new name is accepted");
    assert_eq!(registry.schemas()[0].name, "aaa");
    let definitions = registry.definitions();
    assert_eq!(definitions[1].kind, "function");
    assert_eq!(definitions[1].function.name, "create_file");
    assert!(registry.get("missing").is_none());
}

#[test]
fn reads_string_and_boolean_arguments() {
    let arguments = object(vec![("path", text("a.txt")), ("flag", JsonValue::Bool(true))]);
    assert_eq!(argument_string(&arguments, "path"), Ok("a.txt"));
    assert_eq!(
        argument_string(&arguments, "flag"),
        Err("Tool argument 'flag' must be a string".to_owned())
    );
    assert_eq!(argument_bool(&arguments, "flag", false), Ok(true));
    assert_eq!(argument_bool(&arguments, "missing", true), Ok(true));
    assert_eq!(
        argument_bool(&arguments, "path", false),
        Err("Tool argument 'path' must be a boolean".to_owned())
    );
}

#[test]
fn edit_requires_one_non_empty_exact_match() {
    let before = "one target, then target";
    let missing = object(vec![
        ("path", text("example.txt")),
        ("old_str", text("missing")),
        ("new_str", text("new")),
    ]);
    let (_, old, new) = edit_request(&missing).expect("arguments are strings");
    assert!(apply_edit(before, old, new).unwrap_err().contains("not found"));

    let ambiguous = object(vec![
        ("path", text("example.txt")),
        ("old_str", text("target")),
        ("new_str", text("new")),
    ]);
    let (_, old, new) = edit_request(&ambiguous).expect("arguments are strings");
    assert!(apply_edit(before, old, new)
        .unwrap_err()
        .contains("multiple times"));

    let empty = object(vec![
        ("path", text("example.txt")),
        ("old_str", text("")),
        ("new_str", text("new")),
    ]);
    assert!(edit_request(&empty).unwrap_err().contains("cannot be empty"));

    let unique = object(vec![
        ("path", text("example.txt")),
        ("old_str", text("one target")),
        ("new_str", text("a target")),
    ]);
    let (path, old, new) = edit_request(&unique).expect("arguments are strings");
    assert_eq!(path, "example.txt");
    assert_eq!(
        apply_edit(before, old, new).expect("unique replacement succeeds"),
        "a target, then target"
    );

    assert!(apply_edit("aaa", "aa", "b")
        .unwrap_err()
        .contains("multiple times"));
}

#[test]
fn plans_file_creation() {
    let arguments = object(vec![("path", text("new.txt")), ("content", text("hello"))]);
    assert_eq!(create_request(&arguments), Ok(("new.txt", "hello", false)));
    assert_eq!(
        existing_file("new.txt", true, false),
        Err("File already exists: new.txt. Set overwrite to true to replace it.".to_owned())
    );
    assert_eq!(existing_file("new.txt", true, true), Ok(true));
    assert_eq!(existing_file("new.txt", false, false), Ok(false));
    let missing_content = object(vec![("path", text("new.txt"))]);
    assert_eq!(
        create_request(&missing_content),
        Err("Tool argument 'content' must be a string".to_owned())
    );
}

#[test]
fn checks_the_approved_snapshot() {
    let arguments = object(vec![("_approved_before", text("old"))]);
    assert_eq!(ensure_approved_snapshot(&arguments, "old"), Ok(()));
    assert_eq!(
        ensure_approved_snapshot(&arguments, "changed"),
        Err("File changed while awaiting approval; review the updated change and retry".to_owned())
    );
    assert_eq!(
        ensure_approved_snapshot(&object(vec![]), "old"),
        Err("Missing approved file preview; request approval again".to_owned())
    );
}

#[test]
fn reads_command_arguments() {
    let plain = object(vec![("command", text("ls"))]);
    assert_eq!(command_request(&plain), Ok(("ls".to_owned(), 60_000)));
    let timed = object(vec![
        ("command", text("ls")),
        ("timeout_ms", JsonValue::Number(JsonNumber::PosInt(600_000))),
    ]);
    assert_eq!(command_request(&timed), Ok(("ls".to_owned(), 600_000)));
    let too_long = object(vec![
        ("command", text("ls")),
        ("timeout_ms", JsonValue::Number(JsonNumber::PosInt(600_001))),
    ]);
    assert_eq!(
        command_request(&too_long),
        Err("timeout_ms must be between 1 and 600000".to_owned())
    );
    let blank = object(vec![("command", text("  \t"))]);
    assert_eq!(
        command_request(&blank),
        Err("A non-empty command is required".to_owned())
    );
}

#[test]
fn reports_how_a_command_ended() {
    assert_eq!(command_outcome(false, 100, true, Some(0)), Ok(0));
    assert_eq!(command_outcome(false, 100, false, Some(7)), Ok(7));
    assert_eq!(
        command_outcome(true, 100, false, None),
        Err("Command timed out after 100 ms and was terminated".to_owned())
    );
    assert_eq!(
        command_outcome(false, 100, false, None),
        Err("Command was terminated without an exit code".to_owned())
    );
    assert_eq!(command_outcome(false, 100, true, None), Ok(-1));
}

#[test]
fn truncates_captured_output_at_the_limit() {
    let mut output = Vec::new();
    let mut truncated = false;
    append_limited(
        &mut output,
        &mut truncated,
        &vec![b'x'; MAX_CAPTURED_OUTPUT_BYTES + 10],
    );
    assert_eq!(output.len(), MAX_CAPTURED_OUTPUT_BYTES);
    assert!(truncated);
}

#[test]
fn captures_and_marks_truncated_output() {
    let mut capture = OutputCapture::new();
    assert!(capture.forwards_output());
    capture.accept(&vec![b'x'; MAX_CAPTURED_OUTPUT_BYTES - 1], Some(Ok(())));
    capture.accept(b"yz", Some(Ok(())));
    let output = capture.finish().expect("no callback error");
    assert!(output.starts_with(&vec![b'x'; MAX_CAPTURED_OUTPUT_BYTES - 1]));
    assert!(output.ends_with(format!("y{OUTPUT_TRUNCATED_MARKER}").as_bytes()));

    let mut failing = OutputCapture::new();
    failing.accept(b"a", Some(Err("closed".to_owned())));
    assert!(!failing.forwards_output());
    failing.accept(b"b", None);
    assert_eq!(failing.finish(), Err("closed".to_owned()));
    assert_eq!(captured_output_text(b"ok\xff".to_vec()), "ok\u{fffd}");
}

#[test]
fn emits_command_events_through_the_context() {
    let seen = RefCell::new(Vec::new());
    let context = ToolContext {
        workspace: "/w".to_owned(),
        request_id: "r".to_owned(),
        command_id: "c".to_owned(),
        command_output: Some(|event: CommandOutputEvent| {
            seen.borrow_mut().push(event);
            Ok(())
        }),
    };
    let started = context.started_event("ls");
    assert_eq!(started.phase, "started");
    assert_eq!(started.status.as_deref(), Some("running"));
    emit_command_event(&context, started).expect("callback accepts");
    let done = context.completed_event("ls", &Err("Command timed out after 5 ms and was terminated".to_owned()));
    assert_eq!(done.status.as_deref(), Some("timed_out"));
    let failed = context.completed_event("ls", &Ok(2));
    assert_eq!(failed.status.as_deref(), Some("failed"));
    assert_eq!(failed.exit_code, Some(2));
    let output = context.output_event("ls", "stdout", "hi");
    assert_eq!(output.chunk.as_deref(), Some("hi"));
    assert_eq!(seen.borrow().len(), 1);
    assert_eq!(seen.borrow()[0].command_id, "c");
}

#[test]
fn describes_the_builtin_tools() {
    let schema = BuiltinTool::RunCommand.schema();
    assert_eq!(schema.name, "run_command");
    assert_eq!(schema.risk_level, RiskLevel::RequiresConfirmation);
    assert_eq!(
        schema.parameters.get("required"),
        Some(&JsonValue::Array(vec![text("command")]))
    );
    assert_eq!(BuiltinTool::ReadFile.schema().risk_level, RiskLevel::AutoApprove);
}

#[test]
fn output_within_the_limit_stays_within_it() {
    let mut output = vec![b'a'; MAX_CAPTURED_OUTPUT_BYTES - 3];
    let mut truncated = false;
    append_limited(&mut output, &mut truncated, b"bc");
    assert!(!truncated);
    append_limited(&mut output, &mut truncated, b"de");
    assert!(truncated);
    assert_eq!(output.len(), MAX_CAPTURED_OUTPUT_BYTES);
    assert!(output.ends_with(b"bcd"));
    append_limited(&mut output, &mut truncated, b"f");
    assert_eq!(output.len(), MAX_CAPTURED_OUTPUT_BYTES);
}
