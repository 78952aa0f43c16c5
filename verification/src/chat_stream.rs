//! A streamed chat reply, put together piece by piece, and the choices
//! around the chat request that produces it.

use vstd::prelude::*;
use crate::ollama::is_thinking_unsupported_error;
use crate::text::{concat2, contains_seq, lower_seq};
use crate::tool_loop::ChatMessage;

verus! {

/// The assistant message a chat stream has given so far, and whether any
/// piece carried a message.
pub struct ChatStream {
    message: ChatMessage,
    received: bool,
}

impl ChatStream {
    /// The message so far.
    pub closed spec fn message(&self) -> ChatMessage {
        self.message
    }

    /// Whether any piece carried a message.
    pub closed spec fn received(&self) -> bool {
        self.received
    }

    /// A stream that has given nothing: an empty assistant message.
    pub fn new() -> (r: ChatStream)
        ensures
            r.message().role@ == "assistant"@,
            r.message().content@ == Seq::<char>::empty(),
            r.message().tool_calls is None,
            r.message().tool_name is None,
            r.message().thinking@ == Seq::<char>::empty(),
            !r.received(),
    {
        ChatStream {
            message: ChatMessage {
                role: String::from_str("assistant"),
                content: String::new(),
                tool_calls: None,
                tool_name: None,
                thinking: String::new(),
            },
            received: false,
        }
    }

    /// Takes a piece of the reply: its content and reasoning are added, its
    /// role is taken, and its tool calls and tool name when it has them.
    /// Hands back the content and the reasoning to stream, when not empty.
    pub fn accept(&mut self, part: ChatMessage) -> (r: (Option<String>, Option<String>))
        ensures
            final(self).received(),
            final(self).message().content@ == old(self).message().content@ + part.content@,
            final(self).message().thinking@ == old(self).message().thinking@ + part.thinking@,
            final(self).message().role == part.role,
            final(self).message().tool_calls == if part.tool_calls is Some {
                part.tool_calls
            } else {
                old(self).message().tool_calls
            },
            final(self).message().tool_name == if part.tool_name is Some {
                part.tool_name
            } else {
                old(self).message().tool_name
            },
            part.content@.len() > 0 ==> (r.0 matches Some(c) && c@ == part.content@),
            part.content@.len() == 0 ==> r.0 is None,
            part.thinking@.len() > 0 ==> (r.1 matches Some(t) && t@ == part.thinking@),
            part.thinking@.len() == 0 ==> r.1 is None,
    {
        self.received = true;
        let ChatMessage { role, content, tool_calls, tool_name, thinking } = part;
        let content_piece = if content.as_str().is_empty() {
            None
        } else {
            self.message.content = concat2(self.message.content.as_str(), content.as_str());
            Some(content)
        };
        let thinking_piece = if thinking.as_str().is_empty() {
            None
        } else {
            self.message.thinking = concat2(self.message.thinking.as_str(), thinking.as_str());
            Some(thinking)
        };
        self.message.role = role;
        if tool_calls.is_some() {
            self.message.tool_calls = tool_calls;
        }
        if tool_name.is_some() {
            self.message.tool_name = tool_name;
        }
        (content_piece, thinking_piece)
    }

    /// The reply, once the stream has ended: an error when no piece carried
    /// a message and the chat was not cancelled.
    pub fn finish(self, cancelled: bool) -> (r: Result<ChatMessage, String>)
        ensures
            !self.received() && !cancelled ==> (r matches Err(e) && e@
                == "Ollama returned a chat response without a message"@),
            self.received() || cancelled ==> r == Ok::<ChatMessage, String>(self.message()),
    {
        if !self.received && !cancelled {
            return Err(String::from_str("Ollama returned a chat response without a message"));
        }
        Ok(self.message)
    }
}

/// Whether a chat request that asked for reasoning is sent again without
/// it: when the server's error suggests the model cannot reason.
pub fn retries_without_thinking(asked_for_thinking: bool, error: &str) -> (r: bool)
    ensures
        r == (asked_for_thinking && contains_seq(lower_seq(error@), "think"@)),
{
    asked_for_thinking && is_thinking_unsupported_error(error)
}

/// The endpoint a chat request goes to: its own, else the backend's.
pub fn chat_endpoint<'a>(request_endpoint: &'a str, backend_endpoint: &'a str) -> (r: &'a str)
    ensures
        r@ == if request_endpoint@.len() == 0 {
            backend_endpoint@
        } else {
            request_endpoint@
        },
{
    if request_endpoint.is_empty() {
        backend_endpoint
    } else {
        request_endpoint
    }
}

} // verus!
