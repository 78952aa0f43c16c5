use legion::json::{JsonNumber, JsonValue};
use legion::tool_loop::{
    approval_request_failed, path_access_status, settle_approval, ApprovalWait, ChatMessage,
    LoopAction, ToolLoop, MAX_TOOL_ITERATIONS,
};
use legion::tools::{ApprovalDecision, BuiltinTool, ToolCall, ToolFunctionCall, ToolRegistry};

fn object(members: Vec<(&str, JsonValue)>) -> JsonValue {
    JsonValue::Object(
        members
            .into_iter()
            .map(|(k, v)| (k.to_owned(), v))
            .collect(),
    )
}

fn text(s: &str) -> JsonValue {
    JsonValue::String(s.to_owned())
}

fn reply(calls: Vec<(&str, JsonValue)>) -> ChatMessage {
    ChatMessage {
        role: "assistant".to_owned(),
        content: String::new(),
        tool_calls: if calls.is_empty() {
            None
        } else {
            Some(
                calls
                    .into_iter()
                    .map(|(name, arguments)| ToolCall {
                        function: ToolFunctionCall {
                            name: name.to_owned(),
                            arguments,
                        },
                    })
                    .collect(),
            )
        },
        tool_name: None,
        thinking: String::new(),
    }
}

fn new_loop(strict: bool) -> ToolLoop {
    let registry = ToolRegistry::with_examples(|tool: BuiltinTool| tool);
    ToolLoop::new("req".to_owned(), strict, registry.schemas(), Vec::new())
}

fn error_of(result: &JsonValue) -> Option<&str> {
    result.get("error").and_then(|v| v.as_str())
}

fn reported_result(action: &LoopAction) -> &JsonValue {
    let LoopAction::Report(event) = action else {
        panic!("expected the call to be reported");
    };
    &event.result
}

fn finish_call(tool_loop: &mut ToolLoop, action: LoopAction) -> (LoopAction, String) {
    let LoopAction::Report(event) = action else {
        panic!("expected a report");
    };
    (tool_loop.on_delivered(Ok(())), event.status)
}

#[test]
fn reports_tool_failures_to_model_and_reaches_final_answer() {
    let mut tool_loop = new_loop(false);
    let action = tool_loop.on_reply(Ok(reply(vec![("get_current_time", object(vec![]))])));
    let LoopAction::Run { call_id, tool_name, .. } = action else {
        panic!("an auto-approved tool runs at once");
    };
    assert_eq!(call_id, "req-0-0");
    assert_eq!(tool_name, "get_current_time");
    let action = tool_loop.on_result(Err("clock broke".to_owned()));
    assert_eq!(error_of(reported_result(&action)), Some("clock broke"));
    let (next, status) = finish_call(&mut tool_loop, action);
    assert_eq!(status, "failed");
    assert!(matches!(next, LoopAction::Chat));
    let messages = tool_loop.conversation();
    assert_eq!(messages.len(), 2);
    assert_eq!(messages[1].role, "tool");
    assert_eq!(messages[1].tool_name.as_deref(), Some("get_current_time"));
    assert_eq!(messages[1].content, "{\"error\":\"clock broke\"}");

    let LoopAction::EmitChunk(chunk) = tool_loop.on_reply(Ok(reply(vec![]))) else {
        panic!("a reply without calls ends the response");
    };
    assert!(chunk.done);
    assert_eq!(chunk.content, "");
    assert!(matches!(tool_loop.on_delivered(Ok(())), LoopAction::Finish(Ok(()))));
    assert!(tool_loop.is_done());
}

#[test]
fn waits_for_confirmation_and_skips_a_denied_tool() {
    let mut tool_loop = new_loop(false);
    let arguments = object(vec![("path", text("a.txt")), ("content", text("x"))]);
    let action = tool_loop.on_reply(Ok(reply(vec![("create_file", arguments)])));
    assert!(matches!(action, LoopAction::Preview { .. }));
    let preview = object(vec![("before", text(""))]);
    let LoopAction::Approve(request) = tool_loop.on_preview(Ok(Some(preview))) else {
        panic!("the user is asked");
    };
    assert_eq!(request.approval_id, "req-0-0");
    assert_eq!(request.tool.name, "create_file");
    let action = tool_loop.on_decision(Ok(ApprovalDecision::Deny));
    assert_eq!(
        error_of(reported_result(&action)),
        Some("User denied permission to run this tool.")
    );
    let (_, status) = finish_call(&mut tool_loop, action);
    assert_eq!(status, "rejected");
}

#[test]
fn an_allowed_call_runs_with_the_previewed_content() {
    let mut tool_loop = new_loop(false);
    let arguments = object(vec![("path", text("a.txt")), ("content", text("x"))]);
    tool_loop.on_reply(Ok(reply(vec![("create_file", arguments)])));
    tool_loop.on_preview(Ok(Some(object(vec![("before", text("old"))]))));
    let LoopAction::Run { arguments, .. } = tool_loop.on_decision(Ok(ApprovalDecision::AllowOnce))
    else {
        panic!("an allowed call runs");
    };
    assert_eq!(arguments.get("_approved_before"), Some(&text("old")));
    assert_eq!(arguments.get("path"), Some(&text("a.txt")));
}

#[test]
fn blocklisted_commands_are_rejected_before_approval() {
    let mut tool_loop = new_loop(false);
    let action = tool_loop.on_reply(Ok(reply(vec![(
        "run_command",
        object(vec![("command", text("rm -rf /"))]),
    )])));
    assert!(error_of(reported_result(&action))
        .expect("error result")
        .starts_with("Command rejected by the dangerous-command blocklist: "));
    let (_, status) = finish_call(&mut tool_loop, action);
    assert_eq!(status, "rejected");
}

#[test]
fn strict_mode_requires_approval_for_auto_approved_tools() {
    let mut tool_loop = new_loop(true);
    let action = tool_loop.on_reply(Ok(reply(vec![("get_current_time", object(vec![]))])));
    assert!(matches!(action, LoopAction::Preview { .. }));
    let LoopAction::Approve(_) = tool_loop.on_preview(Ok(None)) else {
        panic!("strict mode asks the user");
    };
    assert!(matches!(
        tool_loop.on_decision(Ok(ApprovalDecision::AllowAlways)),
        LoopAction::Run { .. }
    ));
}

#[test]
fn rejects_tools_that_are_not_registered() {
    let mut tool_loop = new_loop(false);
    let action = tool_loop.on_reply(Ok(reply(vec![("launch_rocket", object(vec![]))])));
    assert_eq!(
        error_of(reported_result(&action)),
        Some("Tool 'launch_rocket' is not registered.")
    );
}

#[test]
fn stops_tool_execution_at_the_iteration_limit() {
    let mut tool_loop = new_loop(false);
    let mut chats = 1;
    let mut last = LoopAction::Chat;
    for _ in 0..=MAX_TOOL_ITERATIONS {
        let action = tool_loop.on_reply(Ok(reply(vec![("get_current_time", object(vec![]))])));
        if let LoopAction::EmitChunk(chunk) = action {
            last = LoopAction::EmitChunk(chunk);
            break;
        }
        let action = tool_loop.on_result(Ok(object(vec![(
            "unix_time_ms",
            JsonValue::Number(JsonNumber::PosInt(1)),
        )])));
        let (next, status) = finish_call(&mut tool_loop, action);
        assert_eq!(status, "succeeded");
        assert!(matches!(next, LoopAction::Chat));
        chats += 1;
    }
    let LoopAction::EmitChunk(chunk) = last else {
        panic!("the loop ends at the limit");
    };
    assert_eq!(chunk.content, "Stopped at the tool iteration limit of 8.");
    assert_eq!(chats, MAX_TOOL_ITERATIONS + 1);
}

#[test]
fn stops_on_encoding_and_callback_errors() {
    let bad_number = JsonValue::Number(JsonNumber::Float("not a number".to_owned()));
    let mut tool_loop = new_loop(false);
    let action = tool_loop.on_reply(Ok(reply(vec![(
        "get_current_time",
        object(vec![("x", bad_number.duplicate())]),
    )])));
    assert!(matches!(action, LoopAction::Run { .. }));
    assert!(matches!(
        tool_loop.on_result(Ok(JsonValue::Null)),
        LoopAction::Finish(Err(e)) if e.starts_with("Could not summarize tool arguments: ")
    ));

    let mut tool_loop = new_loop(false);
    tool_loop.on_reply(Ok(reply(vec![("get_current_time", object(vec![]))])));
    let action = tool_loop.on_result(Ok(object(vec![("x", bad_number)])));
    let LoopAction::Report(event) = action else {
        panic!("the call is reported before its result is encoded");
    };
    assert_eq!(event.arguments_summary, "{}");
    assert!(matches!(
        tool_loop.on_delivered(Ok(())),
        LoopAction::Finish(Err(e)) if e.starts_with("Could not encode tool result: ")
    ));

    let mut tool_loop = new_loop(false);
    tool_loop.on_reply(Ok(reply(vec![("get_current_time", object(vec![]))])));
    tool_loop.on_result(Ok(JsonValue::Null));
    assert!(matches!(
        tool_loop.on_delivered(Err("callback failed".to_owned())),
        LoopAction::Finish(Err(e)) if e == "callback failed"
    ));

    let mut tool_loop = new_loop(false);
    assert!(matches!(
        tool_loop.on_reply(Err("offline".to_owned())),
        LoopAction::Finish(Err(e)) if e == "offline"
    ));
    let mut tool_loop = new_loop(false);
    assert!(matches!(tool_loop.cancel(), LoopAction::Finish(Ok(()))));
}

#[test]
fn settles_approval_waits() {
    assert_eq!(settle_approval(ApprovalWait::Cancelled), Ok(ApprovalDecision::Deny));
    assert_eq!(
        settle_approval(ApprovalWait::Answered(ApprovalDecision::AllowOnce)),
        Ok(ApprovalDecision::AllowOnce)
    );
    assert_eq!(
        settle_approval(ApprovalWait::Dropped),
        Err("Tool approval response was dropped".to_owned())
    );
    assert_eq!(path_access_status(ApprovalDecision::AllowAlways), Some("allow_always"));
    assert_eq!(path_access_status(ApprovalDecision::Deny), None);
    assert_eq!(
        approval_request_failed("no window"),
        "Could not request tool approval: no window"
    );
}
