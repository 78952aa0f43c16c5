use legion::chat_stream::{chat_endpoint, retries_without_thinking, ChatStream};
use legion::json::JsonValue;
use legion::tool_loop::ChatMessage;
use legion::tools::{ToolCall, ToolFunctionCall};

fn part(content: &str, thinking: &str, calls: Option<Vec<ToolCall>>) -> ChatMessage {
    ChatMessage {
        role: "assistant".to_owned(),
        content: content.to_owned(),
        tool_calls: calls,
        tool_name: None,
        thinking: thinking.to_owned(),
    }
}

#[test]
fn streams_thinking_separately_from_chat_content() {
    let mut stream = ChatStream::new();
    assert_eq!(stream.accept(part("Hel", "", None)), (Some("Hel".to_owned()), None));
    assert_eq!(
        stream.accept(part("", "pondering", None)),
        (None, Some("pondering".to_owned()))
    );
    let call = ToolCall {
        function: ToolFunctionCall {
            name: "get_current_time".to_owned(),
            arguments: JsonValue::Object(Vec::new()),
        },
    };
    stream.accept(part("lo", "", Some(vec![call])));
    stream.accept(part("", "", None));
    let message = stream.finish(false).expect("a message was received");
    assert_eq!(message.content, "Hello");
    assert_eq!(message.thinking, "pondering");
    assert_eq!(
        message.tool_calls.expect("calls are kept")[0].function.name,
        "get_current_time"
    );
}

#[test]
fn a_stream_without_a_message_is_an_error_unless_cancelled() {
    assert_eq!(
        ChatStream::new().finish(false).map(|m| m.content),
        Err("Ollama returned a chat response without a message".to_owned())
    );
    assert!(ChatStream::new().finish(true).is_ok());
}

#[test]
fn retries_without_thinking_when_the_server_rejects_think() {
    assert!(retries_without_thinking(true, "Ollama returned HTTP 400: \"model\" does not support thinking"));
    assert!(!retries_without_thinking(false, "does not support thinking"));
    assert!(!retries_without_thinking(true, "Ollama returned HTTP 500"));
    assert_eq!(chat_endpoint("", "http://b"), "http://b");
    assert_eq!(chat_endpoint("http://a", "http://b"), "http://a");
}
