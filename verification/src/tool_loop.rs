//! The tool loop of a chat request, as a state machine. The application
//! performs each action (asks the model, shows a preview, asks the user,
//! runs a tool, calls a callback) and hands back what came of
//! it; the loop decides what happens next.

use vstd::prelude::*;
use crate::json::{error_object, is_error_object, json_insert, json_view, JsonSpec, JsonValue};
use crate::tools::{ApprovalDecision, RiskLevel, ToolCall, ToolSchema, same_schema};
use crate::ollama::{
    ChatChunk, execution_status, spec_execution_status, spec_summary, text_result,
    truncate_summary, unix_timestamp,
};
use crate::encoding::{encode_json, json_depth, json_text, members_depth, MAX_JSON_DEPTH};
use crate::security::{blocked_command_reason, blocked_from};
use crate::text::{concat2, concat3, decimal, decimal_string, str_eq};

verus! {

/// The most rounds of tool calls in one chat request; the model is asked
/// at most one time more than this.
pub const MAX_TOOL_ITERATIONS: usize = 8;

/// A message of the conversation.
#[derive(Debug)]
pub struct ChatMessage {
    pub role: String,
    pub content: String,
    pub tool_calls: Option<Vec<ToolCall>>,
    pub tool_name: Option<String>,
    pub thinking: String,
}

/// A request for the user to approve a tool call.
#[derive(Debug)]
pub struct ToolApprovalRequest {
    pub request_id: String,
    pub approval_id: String,
    pub tool: ToolSchema,
    pub arguments: JsonValue,
    pub preview: Option<JsonValue>,
    pub approval_type: Option<String>,
    pub requested_path: Option<String>,
}

/// The record of a finished tool call, for the user interface and the audit log.
#[derive(Debug)]
pub struct ToolCallEvent {
    pub id: String,
    pub request_id: String,
    pub tool_name: String,
    pub arguments: JsonValue,
    pub arguments_summary: String,
    pub result: JsonValue,
    pub status: String,
    pub approval_status: String,
    pub created_at: String,
}

/// What the loop waits for.
pub enum LoopStage {
    /// The model's reply.
    AwaitingReply,
    /// The preview of the current call.
    AwaitingPreview,
    /// The user's decision on the current call, shown with `preview`.
    AwaitingDecision { preview: Option<JsonValue> },
    /// The result of running the current call.
    AwaitingResult,
    /// The outcome of reporting the current call; `result_text` is its encoded result.
    AwaitingReport { result_text: Result<String, String> },
    /// The outcome of sending the last chunk.
    AwaitingFinalChunk,
    /// Nothing: the loop is over.
    Done,
}

/// What the application is asked to do next.
pub enum LoopAction {
    /// Ask the model, with the conversation so far and the tool definitions.
    Chat,
    /// Compute the preview of a tool call.
    Preview { call_id: String, tool_name: String, arguments: JsonValue },
    /// Ask the user to approve a tool call.
    Approve(ToolApprovalRequest),
    /// Run a tool.
    Run { call_id: String, tool_name: String, arguments: JsonValue },
    /// Hand a tool-call record to the tool-call callback.
    Report(ToolCallEvent),
    /// Hand the last chunk of the response to the chat callback.
    EmitChunk(ChatChunk),
    /// Stop, with the outcome of the chat request.
    Finish(Result<(), String>),
}

/// The state of one chat request's tool loop.
pub struct ToolLoop {
    request_id: String,
    strict_mode: bool,
    schemas: Vec<ToolSchema>,
    messages: Vec<ChatMessage>,
    iteration: usize,
    reply_index: usize,
    call_index: usize,
    stage: LoopStage,
    approved: Ghost<bool>,
}

/// The id of the `index`-th call of round `iteration`: `<request>-<round>-<index>`.
pub open spec fn call_id_text(request_id: Seq<char>, iteration: nat, index: nat) -> Seq<char> {
    request_id + "-"@ + decimal(iteration) + "-"@ + decimal(index)
}

/// The index of the first schema named `name`, or the number of schemas.
pub open spec fn schema_index(schemas: Seq<ToolSchema>, name: Seq<char>) -> nat
    decreases schemas.len(),
{
    if schemas.len() == 0 {
        0
    } else if schemas[0].name@ == name {
        0
    } else {
        1 + schema_index(schemas.drop_first(), name)
    }
}

proof fn lemma_schema_index(schemas: Seq<ToolSchema>, name: Seq<char>)
    ensures
        schema_index(schemas, name) <= schemas.len(),
        schema_index(schemas, name) < schemas.len() ==> schemas[schema_index(
            schemas,
            name,
        ) as int].name@ == name,
        forall|i: int| 0 <= i < schema_index(schemas, name) ==> schemas[i].name@ != name,
    decreases schemas.len(),
{
    if schemas.len() > 0 && schemas[0].name@ != name {
        lemma_schema_index(schemas.drop_first(), name);
        assert forall|i: int| 0 <= i < schema_index(schemas, name) implies schemas[i].name@
            != name by {
            if i > 0 {
                assert(schemas[i] == schemas.drop_first()[i - 1]);
            }
        }
    }
}

/// Whether a call of a tool with this schema waits for the user: always in
/// strict mode, otherwise when the tool asks for confirmation.
pub open spec fn needs_confirmation(strict_mode: bool, schema: ToolSchema) -> bool {
    strict_mode || schema.risk_level == RiskLevel::RequiresConfirmation
}

/// What the dangerous-command deny list says of a call: only `run_command`
/// calls with a string `command` are checked.
pub open spec fn blocklist_verdict(name: Seq<char>, arguments: JsonValue) -> Result<
    Option<Seq<char>>,
    Seq<char>,
> {
    if name == "run_command"@ {
        match arguments.spec_get("command"@) {
            Some(v) => match v.spec_as_str() {
                Some(command) => blocked_from(0, command),
                None => Ok(None),
            },
            None => Ok(None),
        }
    } else {
        Ok(None)
    }
}

/// The arguments a tool runs with once approved: the call's arguments, with
/// the preview's `before` member added as `_approved_before` when there is one.
pub open spec fn approved_arguments(arguments: JsonValue, preview: Option<JsonValue>) -> JsonSpec {
    match preview {
        Some(p) => match p.spec_get("before"@) {
            Some(before) => json_insert(json_view(arguments), "_approved_before"@, json_view(before)),
            None => json_view(arguments),
        },
        None => json_view(arguments),
    }
}

/// The mathematical form of an optional JSON value.
pub open spec fn opt_json_view(o: Option<JsonValue>) -> Option<JsonSpec> {
    match o {
        Some(v) => Some(json_view(v)),
        None => None,
    }
}

/// Whether `m` is the message that carries a tool's encoded result.
pub open spec fn is_tool_message(m: ChatMessage, tool_name: Seq<char>, content: Seq<char>) -> bool {
    &&& m.role@ == "tool"@
    &&& m.content@ == content
    &&& m.tool_calls is None
    &&& m.tool_name matches Some(n) && n@ == tool_name
    &&& m.thinking@ == Seq::<char>::empty()
}

/// Whether `r` is the action to stop with the error `message`.
pub open spec fn finishes_with_error(r: LoopAction, message: Seq<char>) -> bool {
    r matches LoopAction::Finish(Err(e)) && e@ == message
}

/// Whether `r` is the last chunk of the response, with `content`.
pub open spec fn emits_final_chunk(r: LoopAction, request_id: Seq<char>, content: Seq<char>) -> bool {
    &&& r matches LoopAction::EmitChunk(c)
    &&& c.request_id@ == request_id
    &&& c.content@ == content
    &&& c.done
}

/// The calls of a reply: none when it carries no list.
pub open spec fn reply_calls(m: ChatMessage) -> Seq<ToolCall> {
    match m.tool_calls {
        Some(calls) => calls@,
        None => Seq::empty(),
    }
}

/// The result `{"error": message}`.
pub open spec fn error_spec(message: Seq<char>) -> JsonSpec {
    JsonSpec::Object(seq![("error"@, JsonSpec::Str(message))])
}

/// Whether the arguments of every call of a reply nest within the depth
/// that JSON encoding handles.
pub open spec fn calls_bounded(m: ChatMessage) -> bool {
    forall|i: int|
        0 <= i < reply_calls(m).len() ==> json_depth(
            json_view(#[trigger] reply_calls(m)[i].function.arguments),
        ) <= MAX_JSON_DEPTH
}

/// An error result nests one level deep.
proof fn lemma_error_depth(v: JsonSpec)
    requires
        exists|m: Seq<char>| is_error_object(v, m),
    ensures
        json_depth(v) <= MAX_JSON_DEPTH,
        json_depth(v) == 1,
{
    let m = choose|m: Seq<char>| is_error_object(v, m);
    let members = seq![("error"@, JsonSpec::Str(m))];
    assert(members.drop_last() =~= Seq::<(Seq<char>, JsonSpec)>::empty());
    assert(members_depth(members.drop_last()) == 0);
    assert(members.last() == ("error"@, JsonSpec::Str(m)));
    assert(json_depth(JsonSpec::Str(m)) == 0);
    assert(members_depth(members) == 0);
    assert(v == JsonSpec::Object(members));
}

/// The copy of a duplicated optional value.
fn duplicate_json_option(o: &Option<JsonValue>) -> (r: Option<JsonValue>)
    ensures
        opt_json_view(r) == opt_json_view(*o),
{
    match o {
        Some(v) => Some(v.duplicate()),
        None => None,
    }
}

impl ToolLoop {
    /// The id of the chat request.
    pub closed spec fn request_id(&self) -> Seq<char> {
        self.request_id@
    }

    /// Whether every tool call waits for the user.
    pub closed spec fn strict_mode(&self) -> bool {
        self.strict_mode
    }

    /// The schemas of the registered tools.
    pub closed spec fn schemas(&self) -> Seq<ToolSchema> {
        self.schemas@
    }

    /// The conversation so far.
    pub closed spec fn messages(&self) -> Seq<ChatMessage> {
        self.messages@
    }

    /// The round of tool calls, counted from 0.
    pub closed spec fn iteration(&self) -> nat {
        self.iteration as nat
    }

    /// The position of the reply whose calls are being handled.
    pub closed spec fn reply_index(&self) -> nat {
        self.reply_index as nat
    }

    /// The position of the current call in that reply.
    pub closed spec fn call_index(&self) -> nat {
        self.call_index as nat
    }

    /// What the loop waits for.
    pub closed spec fn stage(&self) -> LoopStage {
        self.stage
    }

    /// Whether the user allowed the current call.
    pub closed spec fn approved(&self) -> bool {
        self.approved@
    }

    /// How many times the model has been asked so far.
    pub open spec fn chat_requests(&self) -> nat {
        self.iteration() + 1
    }

    /// The tool calls of the reply being handled.
    pub open spec fn current_calls(&self) -> Seq<ToolCall> {
        reply_calls(self.messages()[self.reply_index() as int])
    }

    /// The tool call being handled.
    pub open spec fn current_call(&self) -> ToolCall {
        self.current_calls()[self.call_index() as int]
    }

    /// The name of the tool call being handled.
    pub open spec fn current_name(&self) -> Seq<char> {
        self.current_call().function.name@
    }

    /// The id of the tool call being handled.
    pub open spec fn current_call_id(&self) -> Seq<char> {
        call_id_text(self.request_id(), self.iteration(), self.call_index())
    }

    /// The schema of the tool call being handled, when its tool is registered.
    pub open spec fn current_schema_index(&self) -> nat {
        schema_index(self.schemas(), self.current_name())
    }

    /// Whether the loop is handling a tool call.
    pub open spec fn in_call(&self) -> bool {
        match self.stage() {
            LoopStage::AwaitingPreview => true,
            LoopStage::AwaitingDecision { .. } => true,
            LoopStage::AwaitingResult => true,
            LoopStage::AwaitingReport { .. } => true,
            _ => false,
        }
    }

    /// Whether the current call may run: its tool is registered, the deny
    /// list does not reject it, and, when it needs confirmation, the user
    /// allowed it.
    pub open spec fn may_run(&self) -> bool {
        &&& self.current_schema_index() < self.schemas().len()
        &&& blocklist_verdict(self.current_name(), self.current_call().function.arguments) == Ok::<
            Option<Seq<char>>,
            Seq<char>,
        >(None)
        &&& needs_confirmation(self.strict_mode(), self.schemas()[self.current_schema_index() as int])
            ==> self.approved()
    }

    /// The loop's invariant: at most the allowed rounds, a current call
    /// while one is handled, and a tool runs only when it may.
    pub open spec fn wf(&self) -> bool {
        &&& self.iteration() <= MAX_TOOL_ITERATIONS
        &&& self.in_call() ==> {
            &&& self.reply_index() < self.messages().len()
            &&& self.call_index() < self.current_calls().len()
            &&& self.iteration() < MAX_TOOL_ITERATIONS
            &&& calls_bounded(self.messages()[self.reply_index() as int])
        }
        &&& self.stage() is AwaitingResult ==> self.may_run()
        &&& (self.stage() is AwaitingPreview || self.stage() is AwaitingDecision) ==> {
            &&& self.current_schema_index() < self.schemas().len()
            &&& blocklist_verdict(self.current_name(), self.current_call().function.arguments)
                == Ok::<Option<Seq<char>>, Seq<char>>(None)
            &&& needs_confirmation(
                self.strict_mode(),
                self.schemas()[self.current_schema_index() as int],
            )
        }
    }

    /// Whether `self` and `other` belong to the same request.
    pub open spec fn same_request(&self, other: &ToolLoop) -> bool {
        &&& self.request_id() == other.request_id()
        &&& self.strict_mode() == other.strict_mode()
        &&& self.schemas() == other.schemas()
    }

    /// Whether the loop settled the current call with `result` and action
    /// `r`: when the call's arguments encode as JSON text, it reports the
    /// call, its arguments summarized from that text, and holds the encoded
    /// result for the conversation; otherwise the request stops.
    pub open spec fn settled(&self, r: LoopAction, result: JsonSpec, rejected: bool) -> bool {
        match json_text(json_view(self.current_call().function.arguments)) {
            Err(e) => self.stage() is Done && finishes_with_error(
                r,
                "Could not summarize tool arguments: "@ + e,
            ),
            Ok(t) => {
                &&& self.stage() matches LoopStage::AwaitingReport { result_text }
                &&& text_result(result_text) == json_text(result)
                &&& r matches LoopAction::Report(ev)
                &&& self.reports(ev, t, result, rejected)
            },
        }
    }

    /// Whether the loop settled the current call as rejected with the result
    /// `{"error": message}`, with action `r`.
    pub open spec fn rejected_with(&self, r: LoopAction, message: Seq<char>) -> bool {
        self.settled(r, error_spec(message), true)
    }

    /// Whether the loop started on the current call with action `r`: an
    /// unregistered tool and a call on the deny list are rejected, a
    /// deny-list error stops the request, a call that needs confirmation
    /// asks for its preview, and any other runs.
    pub open spec fn started_call(&self, r: LoopAction) -> bool {
        let name = self.current_name();
        let arguments = self.current_call().function.arguments;
        if self.current_schema_index() >= self.schemas().len() {
            self.rejected_with(r, "Tool '"@ + name + "' is not registered."@)
        } else {
            match blocklist_verdict(name, arguments) {
                Err(e) => self.stage() is Done && finishes_with_error(r, e),
                Ok(Some(reason)) => self.rejected_with(
                    r,
                    "Command rejected by the dangerous-command blocklist: "@ + reason,
                ),
                Ok(None) => if needs_confirmation(
                    self.strict_mode(),
                    self.schemas()[self.current_schema_index() as int],
                ) {
                    &&& self.stage() is AwaitingPreview
                    &&& r matches LoopAction::Preview { call_id, tool_name, arguments: sent }
                    &&& call_id@ == self.current_call_id()
                    &&& tool_name@ == name
                    &&& json_view(sent) == json_view(arguments)
                } else {
                    &&& self.stage() is AwaitingResult
                    &&& !self.approved()
                    &&& r matches LoopAction::Run { call_id, tool_name, arguments: sent }
                    &&& call_id@ == self.current_call_id()
                    &&& tool_name@ == name
                    &&& json_view(sent) == json_view(arguments)
                },
            }
        }
    }

    /// A loop that waits for the model's first reply to `messages`.
    pub fn new(
        request_id: String,
        strict_mode: bool,
        schemas: Vec<ToolSchema>,
        messages: Vec<ChatMessage>,
    ) -> (r: ToolLoop)
        ensures
            r.wf(),
            r.request_id() == request_id@,
            r.strict_mode() == strict_mode,
            r.schemas() == schemas@,
            r.messages() == messages@,
            r.iteration() == 0,
            r.stage() is AwaitingReply,
    {
        ToolLoop {
            request_id,
            strict_mode,
            schemas,
            messages,
            iteration: 0,
            reply_index: 0,
            call_index: 0,
            stage: LoopStage::AwaitingReply,
            approved: Ghost(false),
        }
    }

    /// The conversation to send to the model.
    pub fn conversation(&self) -> (r: &Vec<ChatMessage>)
        ensures
            r@ == self.messages(),
    {
        &self.messages
    }

    /// Whether the loop is over.
    pub fn is_done(&self) -> (r: bool)
        ensures
            r == (self.stage() is Done),
    {
        matches!(self.stage, LoopStage::Done)
    }

    /// Cancellation: the request ends quietly.
    pub fn cancel(&mut self) -> (r: LoopAction)
        requires
            old(self).wf(),
        ensures
            final(self).wf(),
            final(self).stage() is Done,
            r matches LoopAction::Finish(Ok(_)),
            final(self).same_request(old(self)),
            final(self).messages() == old(self).messages(),
            final(self).iteration() == old(self).iteration(),
    {
        self.stage = LoopStage::Done;
        LoopAction::Finish(Ok(()))
    }

    fn current_call_ref(&self) -> (r: &ToolCall)
        requires
            self.reply_index() < self.messages().len(),
            self.call_index() < self.current_calls().len(),
        ensures
            *r == self.current_call(),
    {
        match &self.messages[self.reply_index].tool_calls {
            Some(calls) => &calls[self.call_index],
            None => vstd::pervasive::unreached(),
        }
    }

    fn call_id(&self) -> (r: String)
        ensures
            r@ == self.current_call_id(),
    {
        let round = decimal_string(self.iteration as u128);
        let index = decimal_string(self.call_index as u128);
        let head = concat3(self.request_id.as_str(), "-", round.as_str());
        concat3(head.as_str(), "-", index.as_str())
    }

    fn find_schema(&self, name: &str) -> (r: usize)
        ensures
            r == schema_index(self.schemas(), name@),
    {
        let n = self.schemas.len();
        let mut i: usize = 0;
        proof {
            lemma_schema_index(self.schemas@, name@);
        }
        while i < n && !str_eq(self.schemas[i].name.as_str(), name)
            invariant
                n == self.schemas@.len(),
                i <= n,
                schema_index(self.schemas@, name@) <= n,
                forall|k: int| 0 <= k < i ==> self.schemas@[k].name@ != name@,
                schema_index(self.schemas@, name@) < n ==> self.schemas@[schema_index(
                    self.schemas@,
                    name@,
                ) as int].name@ == name@,
                forall|k: int|
                    0 <= k < schema_index(self.schemas@, name@) ==> self.schemas@[k].name@
                        != name@,
            decreases n - i,
        {
            i = i + 1;
        }
        i
    }

    fn reject(&mut self, message: String) -> (r: LoopAction)
        requires
            old(self).reply_index() < old(self).messages().len(),
            old(self).call_index() < old(self).current_calls().len(),
            calls_bounded(old(self).messages()[old(self).reply_index() as int]),
        ensures
            final(self).rejected_with(r, message@),
            final(self).same_request(old(self)),
            final(self).messages() == old(self).messages(),
            final(self).iteration() == old(self).iteration(),
            final(self).reply_index() == old(self).reply_index(),
            final(self).call_index() == old(self).call_index(),
    {
        let result = error_object(message);
        proof {
            lemma_error_depth(json_view(result));
        }
        self.settle(result, true)
    }

    fn start_call(&mut self) -> (r: LoopAction)
        requires
            old(self).reply_index() < old(self).messages().len(),
            old(self).call_index() < old(self).current_calls().len(),
            calls_bounded(old(self).messages()[old(self).reply_index() as int]),
        ensures
            final(self).started_call(r),
            final(self).same_request(old(self)),
            final(self).messages() == old(self).messages(),
            final(self).iteration() == old(self).iteration(),
            final(self).reply_index() == old(self).reply_index(),
            final(self).call_index() == old(self).call_index(),
    {
        let call = self.current_call_ref();
        let name = call.function.name.clone();
        let index = self.find_schema(name.as_str());
        if index >= self.schemas.len() {
            let message = concat3("Tool '", name.as_str(), "' is not registered.");
            return self.reject(message);
        }
        let mut verdict: Result<Option<&'static str>, String> = Ok(None);
        if str_eq(name.as_str(), "run_command") {
            let command = match self.current_call_ref().function.arguments.get("command") {
                Some(v) => v.as_str(),
                None => None,
            };
            if let Some(command) = command {
                verdict = blocked_command_reason(command);
            }
        }
        match verdict {
            Err(e) => {
                self.stage = LoopStage::Done;
                LoopAction::Finish(Err(e))
            },
            Ok(Some(reason)) => {
                let message = concat2("Command rejected by the dangerous-command blocklist: ", reason);
                self.reject(message)
            },
            Ok(None) => {
                let call_id = self.call_id();
                let arguments = self.current_call_ref().function.arguments.duplicate();
                let confirm = self.strict_mode || match self.schemas[index].risk_level {
                    RiskLevel::RequiresConfirmation => true,
                    RiskLevel::AutoApprove => false,
                };
                if confirm {
                    self.stage = LoopStage::AwaitingPreview;
                    LoopAction::Preview { call_id, tool_name: name, arguments }
                } else {
                    self.stage = LoopStage::AwaitingResult;
                    self.approved = Ghost(false);
                    LoopAction::Run { call_id, tool_name: name, arguments }
                }
            },
        }
    }
}

/// The preview a stage waiting for a decision holds.
pub open spec fn held_preview(stage: LoopStage) -> Option<JsonValue> {
    match stage {
        LoopStage::AwaitingDecision { preview } => preview,
        _ => None,
    }
}

/// The creation time of a record: `0`, or milliseconds in decimal.
pub open spec fn is_timestamp(t: Seq<char>) -> bool {
    t == "0"@ || exists|m: nat| t == decimal(m)
}

impl ToolLoop {
    /// Whether `ev` reports the current call with `result`, its arguments
    /// summarized from their JSON text `encoded`.
    pub open spec fn reports(&self, ev: ToolCallEvent, encoded: Seq<char>, result: JsonSpec, rejected: bool) -> bool {
        &&& ev.id@ == self.current_call_id()
        &&& ev.request_id@ == self.request_id()
        &&& ev.tool_name@ == self.current_name()
        &&& json_view(ev.arguments) == json_view(self.current_call().function.arguments)
        &&& ev.arguments_summary@ == spec_summary(encoded)
        &&& json_view(ev.result) == result
        &&& ev.status@ == if rejected {
            "rejected"@
        } else {
            spec_execution_status(ev.result, "approved"@)
        }
        &&& ev.approval_status@ == if rejected {
            "rejected"@
        } else {
            "approved"@
        }
        &&& is_timestamp(ev.created_at@)
    }

    /// Settles the current call with `result`: encodes its arguments and
    /// the result as JSON text and reports the call.
    fn settle(&mut self, result: JsonValue, rejected: bool) -> (r: LoopAction)
        requires
            old(self).reply_index() < old(self).messages().len(),
            old(self).call_index() < old(self).current_calls().len(),
            calls_bounded(old(self).messages()[old(self).reply_index() as int]),
            json_depth(json_view(result)) <= MAX_JSON_DEPTH,
        ensures
            final(self).settled(r, json_view(result), rejected),
            final(self).same_request(old(self)),
            final(self).messages() == old(self).messages(),
            final(self).iteration() == old(self).iteration(),
            final(self).reply_index() == old(self).reply_index(),
            final(self).call_index() == old(self).call_index(),
    {
        proof {
            assert(json_depth(json_view(self.current_call().function.arguments)) <= MAX_JSON_DEPTH);
        }
        let text = match encode_json(&self.current_call_ref().function.arguments) {
            Err(e) => {
                self.stage = LoopStage::Done;
                return LoopAction::Finish(Err(concat2("Could not summarize tool arguments: ", e.as_str())));
            },
            Ok(t) => t,
        };
        let result_text = encode_json(&result);
        let status = if rejected {
            String::from_str("rejected")
        } else {
            String::from_str(execution_status(&result, "approved"))
        };
        let approval_status = String::from_str(
            if rejected {
                "rejected"
            } else {
                "approved"
            },
        );
        let id = self.call_id();
        let tool_name = self.current_call_ref().function.name.clone();
        let arguments = self.current_call_ref().function.arguments.duplicate();
        let summary = truncate_summary(text.as_str());
        let created_at = unix_timestamp();
        self.stage = LoopStage::AwaitingReport { result_text };
        LoopAction::Report(
            ToolCallEvent {
                id,
                request_id: self.request_id.clone(),
                tool_name,
                arguments,
                arguments_summary: summary,
                result,
                status,
                approval_status,
                created_at,
            },
        )
    }

    /// Takes the model's reply. An error stops the request. A reply without
    /// tool calls ends the response; so does one in the last allowed round,
    /// with a note; otherwise its first call is started.
    pub fn on_reply(&mut self, reply: Result<ChatMessage, String>) -> (r: LoopAction)
        requires
            old(self).wf(),
            old(self).stage() is AwaitingReply,
            reply matches Ok(m) ==> calls_bounded(m),
        ensures
            final(self).wf(),
            final(self).same_request(old(self)),
            final(self).iteration() == old(self).iteration(),
            match reply {
                Err(e) => {
                    &&& final(self).stage() is Done
                    &&& finishes_with_error(r, e@)
                    &&& final(self).messages() == old(self).messages()
                },
                Ok(m) => {
                    &&& final(self).messages() == old(self).messages().push(m)
                    &&& if reply_calls(m).len() == 0 {
                        &&& final(self).stage() is AwaitingFinalChunk
                        &&& emits_final_chunk(r, old(self).request_id(), Seq::empty())
                    } else if old(self).iteration() == MAX_TOOL_ITERATIONS {
                        &&& final(self).stage() is AwaitingFinalChunk
                        &&& emits_final_chunk(
                            r,
                            old(self).request_id(),
                            "Stopped at the tool iteration limit of 8."@,
                        )
                    } else {
                        &&& final(self).reply_index() == old(self).messages().len()
                        &&& final(self).call_index() == 0
                        &&& final(self).started_call(r)
                    }
                },
            },
    {
        match reply {
            Err(e) => {
                self.stage = LoopStage::Done;
                LoopAction::Finish(Err(e))
            },
            Ok(m) => {
                let count = match &m.tool_calls {
                    Some(calls) => calls.len(),
                    None => 0,
                };
                let index = self.messages.len();
                self.messages.push(m);
                if count == 0 {
                    self.stage = LoopStage::AwaitingFinalChunk;
                    LoopAction::EmitChunk(
                        ChatChunk { request_id: self.request_id.clone(), content: String::new(), done: true },
                    )
                } else if self.iteration == MAX_TOOL_ITERATIONS {
                    self.stage = LoopStage::AwaitingFinalChunk;
                    LoopAction::EmitChunk(
                        ChatChunk {
                            request_id: self.request_id.clone(),
                            content: String::from_str("Stopped at the tool iteration limit of 8."),
                            done: true,
                        },
                    )
                } else {
                    self.reply_index = index;
                    self.call_index = 0;
                    self.start_call()
                }
            },
        }
    }

    /// Takes the preview of the current call: an error rejects the call;
    /// otherwise the user is asked, with the preview.
    pub fn on_preview(&mut self, preview: Result<Option<JsonValue>, String>) -> (r: LoopAction)
        requires
            old(self).wf(),
            old(self).stage() is AwaitingPreview,
        ensures
            final(self).wf(),
            final(self).same_request(old(self)),
            final(self).messages() == old(self).messages(),
            final(self).iteration() == old(self).iteration(),
            final(self).reply_index() == old(self).reply_index(),
            final(self).call_index() == old(self).call_index(),
            match preview {
                Err(e) => final(self).rejected_with(r, e@),
                Ok(p) => {
                    &&& final(self).stage() == LoopStage::AwaitingDecision { preview: p }
                    &&& r matches LoopAction::Approve(request)
                    &&& request.request_id@ == old(self).request_id()
                    &&& request.approval_id@ == old(self).current_call_id()
                    &&& same_schema(
                        request.tool,
                        old(self).schemas()[old(self).current_schema_index() as int],
                    )
                    &&& json_view(request.arguments) == json_view(
                        old(self).current_call().function.arguments,
                    )
                    &&& opt_json_view(request.preview) == opt_json_view(p)
                    &&& request.approval_type is None
                    &&& request.requested_path is None
                },
            },
    {
        match preview {
            Err(e) => self.reject(e),
            Ok(p) => {
                let call_id = self.call_id();
                let name = self.current_call_ref().function.name.clone();
                let index = self.find_schema(name.as_str());
                let tool = self.schemas[index].duplicate();
                let arguments = self.current_call_ref().function.arguments.duplicate();
                let shown = duplicate_json_option(&p);
                self.stage = LoopStage::AwaitingDecision { preview: p };
                LoopAction::Approve(
                    ToolApprovalRequest {
                        request_id: self.request_id.clone(),
                        approval_id: call_id,
                        tool,
                        arguments,
                        preview: shown,
                        approval_type: None,
                        requested_path: None,
                    },
                )
            },
        }
    }

    /// Takes the user's decision on the current call: an error or a denial
    /// rejects it; an allowance runs it, with the previewed content attached.
    pub fn on_decision(&mut self, decision: Result<ApprovalDecision, String>) -> (r: LoopAction)
        requires
            old(self).wf(),
            old(self).stage() is AwaitingDecision,
        ensures
            final(self).wf(),
            final(self).same_request(old(self)),
            final(self).messages() == old(self).messages(),
            final(self).iteration() == old(self).iteration(),
            final(self).reply_index() == old(self).reply_index(),
            final(self).call_index() == old(self).call_index(),
            match decision {
                Err(e) => final(self).rejected_with(r, e@),
                Ok(ApprovalDecision::Deny) => final(self).rejected_with(
                    r,
                    "User denied permission to run this tool."@,
                ),
                Ok(_) => {
                    &&& final(self).stage() is AwaitingResult
                    &&& final(self).approved()
                    &&& r matches LoopAction::Run { call_id, tool_name, arguments }
                    &&& call_id@ == old(self).current_call_id()
                    &&& tool_name@ == old(self).current_name()
                    &&& json_view(arguments) == approved_arguments(
                        old(self).current_call().function.arguments,
                        held_preview(old(self).stage()),
                    )
                },
            },
    {
        match decision {
            Err(e) => self.reject(e),
            Ok(ApprovalDecision::Deny) => self.reject(
                String::from_str("User denied permission to run this tool."),
            ),
            Ok(_) => {
                let call_id = self.call_id();
                let name = self.current_call_ref().function.name.clone();
                let mut arguments = self.current_call_ref().function.arguments.duplicate();
                if let LoopStage::AwaitingDecision { preview: Some(p) } = &self.stage {
                    if let Some(before) = p.get("before") {
                        arguments.insert_member("_approved_before", before.duplicate());
                    }
                }
                self.stage = LoopStage::AwaitingResult;
                self.approved = Ghost(true);
                LoopAction::Run { call_id, tool_name: name, arguments }
            },
        }
    }

    /// Takes the outcome of running the current call; an error becomes the
    /// result `{"error": ...}`. The call is then settled.
    pub fn on_result(&mut self, outcome: Result<JsonValue, String>) -> (r: LoopAction)
        requires
            old(self).wf(),
            old(self).stage() is AwaitingResult,
            outcome matches Ok(v) ==> json_depth(json_view(v)) <= MAX_JSON_DEPTH,
        ensures
            final(self).wf(),
            final(self).same_request(old(self)),
            final(self).messages() == old(self).messages(),
            final(self).iteration() == old(self).iteration(),
            final(self).reply_index() == old(self).reply_index(),
            final(self).call_index() == old(self).call_index(),
            final(self).settled(
                r,
                match outcome {
                    Ok(v) => json_view(v),
                    Err(e) => error_spec(e@),
                },
                false,
            ),
    {
        let result = match outcome {
            Ok(v) => v,
            Err(e) => {
                let v = error_object(e);
                proof {
                    lemma_error_depth(json_view(v));
                }
                v
            },
        };
        self.settle(result, false)
    }
}

impl ToolLoop {
    /// Takes the outcome of a callback. After the last chunk the request
    /// ends with it. After a tool-call report, an error stops the request,
    /// as does a result that could not be encoded; otherwise the result joins
    /// the conversation as a `tool` message and the next call starts, or,
    /// after the last call of the reply, the model is asked again.
    pub fn on_delivered(&mut self, outcome: Result<(), String>) -> (r: LoopAction)
        requires
            old(self).wf(),
            old(self).stage() is AwaitingFinalChunk || old(self).stage() is AwaitingReport,
        ensures
            final(self).wf(),
            final(self).same_request(old(self)),
            r is Chat ==> final(self).chat_requests() == old(self).chat_requests() + 1,
            !(r is Chat) ==> final(self).iteration() == old(self).iteration(),
            old(self).stage() is AwaitingFinalChunk ==> {
                &&& final(self).stage() is Done
                &&& final(self).messages() == old(self).messages()
                &&& match outcome {
                    Ok(_) => r matches LoopAction::Finish(Ok(_)),
                    Err(e) => finishes_with_error(r, e@),
                }
            },
            old(self).stage() matches LoopStage::AwaitingReport { result_text } ==> match outcome {
                Err(e) => {
                    &&& final(self).stage() is Done
                    &&& finishes_with_error(r, e@)
                    &&& final(self).messages() == old(self).messages()
                },
                Ok(_) => match result_text {
                    Err(e) => {
                        &&& final(self).stage() is Done
                        &&& finishes_with_error(r, "Could not encode tool result: "@ + e@)
                        &&& final(self).messages() == old(self).messages()
                    },
                    Ok(text) => {
                        &&& final(self).messages().len() == old(self).messages().len() + 1
                        &&& final(self).messages().drop_last() == old(self).messages()
                        &&& is_tool_message(
                            final(self).messages().last(),
                            old(self).current_name(),
                            text@,
                        )
                        &&& final(self).reply_index() == old(self).reply_index()
                        &&& if old(self).call_index() + 1 < old(self).current_calls().len() {
                            &&& final(self).iteration() == old(self).iteration()
                            &&& final(self).call_index() == old(self).call_index() + 1
                            &&& final(self).started_call(r)
                        } else {
                            &&& final(self).stage() is AwaitingReply
                            &&& r is Chat
                            &&& final(self).iteration() == old(self).iteration() + 1
                        }
                    },
                },
            },
    {
        let mut stage = LoopStage::Done;
        std::mem::swap(&mut stage, &mut self.stage);
        let result_text = match stage {
            LoopStage::AwaitingReport { result_text } => result_text,
            _ => {
                return match outcome {
                    Ok(_) => LoopAction::Finish(Ok(())),
                    Err(e) => LoopAction::Finish(Err(e)),
                };
            },
        };
        if let Err(e) = outcome {
            return LoopAction::Finish(Err(e));
        }
        let content = match result_text {
            Err(e) => {
                return LoopAction::Finish(Err(concat2("Could not encode tool result: ", e.as_str())));
            },
            Ok(text) => text,
        };
        let tool_name = self.current_call_ref().function.name.clone();
        let count = match &self.messages[self.reply_index].tool_calls {
            Some(calls) => calls.len(),
            None => 0,
        };
        let ghost before = self.messages@;
        self.messages.push(
            ChatMessage {
                role: String::from_str("tool"),
                content,
                tool_calls: None,
                tool_name: Some(tool_name),
                thinking: String::new(),
            },
        );
        proof {
            assert(self.messages@.drop_last() =~= before);
            assert(self.messages@[self.reply_index as int] == before[self.reply_index as int]);
        }
        if self.call_index + 1 < count {
            self.call_index = self.call_index + 1;
            self.start_call()
        } else {
            self.iteration = self.iteration + 1;
            self.stage = LoopStage::AwaitingReply;
            LoopAction::Chat
        }
    }
}

/// The model is asked at most one time more than the allowed rounds of
/// tool calls, whatever the replies, decisions and results.
pub proof fn law_chat_requests_bounded(tool_loop: ToolLoop)
    requires
        tool_loop.wf(),
    ensures
        tool_loop.chat_requests() <= MAX_TOOL_ITERATIONS + 1,
{
}

/// A tool runs only when its tool is registered, the dangerous-command deny
/// list does not reject the call, and, when the call needs confirmation,
/// the user allowed it.
pub proof fn law_runs_only_when_allowed(tool_loop: ToolLoop)
    requires
        tool_loop.wf(),
        tool_loop.stage() is AwaitingResult,
    ensures
        tool_loop.current_schema_index() < tool_loop.schemas().len(),
        tool_loop.schemas()[tool_loop.current_schema_index() as int].name@ == tool_loop.current_name(),
        blocklist_verdict(tool_loop.current_name(), tool_loop.current_call().function.arguments)
            == Ok::<Option<Seq<char>>, Seq<char>>(None),
        needs_confirmation(
            tool_loop.strict_mode(),
            tool_loop.schemas()[tool_loop.current_schema_index() as int],
        ) ==> tool_loop.approved(),
{
    lemma_schema_index(tool_loop.schemas(), tool_loop.current_name());
}

/// How waiting for the user's decision ended.
pub enum ApprovalWait {
    /// The chat request was cancelled first.
    Cancelled,
    /// The user answered.
    Answered(ApprovalDecision),
    /// The answer channel was dropped.
    Dropped,
}

/// The decision an approval request yields: a cancelled wait counts as a
/// denial; a dropped channel is an error.
pub fn settle_approval(wait: ApprovalWait) -> (r: Result<ApprovalDecision, String>)
    ensures
        match wait {
            ApprovalWait::Cancelled => r == Ok::<ApprovalDecision, String>(ApprovalDecision::Deny),
            ApprovalWait::Answered(d) => r == Ok::<ApprovalDecision, String>(d),
            ApprovalWait::Dropped => r matches Err(e) && e@ == "Tool approval response was dropped"@,
        },
{
    match wait {
        ApprovalWait::Cancelled => Ok(ApprovalDecision::Deny),
        ApprovalWait::Answered(d) => Ok(d),
        ApprovalWait::Dropped => Err(String::from_str("Tool approval response was dropped")),
    }
}

/// What a decision on access outside the workspace is recorded as in the
/// audit log; a denial is not recorded.
pub fn path_access_status(decision: ApprovalDecision) -> (r: Option<&'static str>)
    ensures
        match decision {
            ApprovalDecision::AllowOnce => r matches Some(s) && s@ == "allow_once"@,
            ApprovalDecision::AllowAlways => r matches Some(s) && s@ == "allow_always"@,
            ApprovalDecision::Deny => r is None,
        },
{
    match decision {
        ApprovalDecision::AllowOnce => Some("allow_once"),
        ApprovalDecision::AllowAlways => Some("allow_always"),
        ApprovalDecision::Deny => None,
    }
}

/// The error when an approval request could not be shown.
pub fn approval_request_failed(error: &str) -> (r: String)
    ensures
        r@ == "Could not request tool approval: "@ + error@,
{
    concat2("Could not request tool approval: ", error)
}

} // verus!
