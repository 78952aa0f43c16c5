//! Workspace tools: their schemas and registry, the checks on the arguments
//! the model sends, the edit and create plans, and command output capture.

use vstd::prelude::*;
use vstd::string::StringSliceAdditionalSpecFns;
use crate::json::{
    json_view, object_schema, object_schema_spec, param, param_spec, JsonMembers, JsonSpec, JsonValue,
};
use crate::text::{
    concat2, concat3, decimal, decimal_string, matches_at, occurs_at, starts_with_seq,
    starts_with_str, str_eq, str_less, substring, text_less, trim, trim_ws,
    lemma_text_less_total, lemma_text_less_transitive,
};
use crate::ollama::{lossy_utf8, utf8_lossy};

verus! {

/// The command timeout used when the model gives none, in milliseconds.
pub const DEFAULT_COMMAND_TIMEOUT_MS: u64 = 60_000;

/// The longest command timeout accepted, in milliseconds.
pub const MAX_COMMAND_TIMEOUT_MS: u64 = 600_000;

/// The most output bytes kept from each stream of a command.
pub const MAX_CAPTURED_OUTPUT_BYTES: usize = 65536;

/// The event that carries command output to the user interface.
pub const COMMAND_OUTPUT_EVENT: &'static str = "tools://command-output";

/// Whether a tool may run without asking the user.
#[derive(Clone, Copy, Debug, PartialEq, Eq, Structural)]
pub enum RiskLevel {
    AutoApprove,
    RequiresConfirmation,
}

/// The user's answer to an approval request.
#[derive(Clone, Copy, Debug, PartialEq, Eq, Structural)]
pub enum ApprovalDecision {
    AllowOnce,
    AllowAlways,
    Deny,
}

/// What the model is told about a tool.
#[derive(Debug)]
pub struct ToolSchema {
    pub name: String,
    pub description: String,
    pub parameters: JsonValue,
    pub risk_level: RiskLevel,
}

/// A tool as Ollama's chat API describes it.
#[derive(Debug)]
pub struct ToolDefinition {
    pub kind: String,
    pub function: FunctionDefinition,
}

/// The function part of a tool definition.
#[derive(Debug)]
pub struct FunctionDefinition {
    pub name: String,
    pub description: String,
    pub parameters: JsonValue,
}

/// A tool call the model asked for.
#[derive(Debug)]
pub struct ToolCall {
    pub function: ToolFunctionCall,
}

/// The name and arguments of a requested tool call.
#[derive(Debug)]
pub struct ToolFunctionCall {
    pub name: String,
    pub arguments: JsonValue,
}

impl ToolSchema {
    /// A copy of this schema.
    pub fn duplicate(&self) -> (r: ToolSchema)
        ensures
            r.name@ == self.name@,
            r.description@ == self.description@,
            json_view(r.parameters) == json_view(self.parameters),
            r.risk_level == self.risk_level,
    {
        ToolSchema {
            name: self.name.clone(),
            description: self.description.clone(),
            parameters: self.parameters.duplicate(),
            risk_level: self.risk_level,
        }
    }

    /// The definition of this tool in Ollama's format: a `function` with the
    /// schema's name, description and parameters.
    pub fn ollama_definition(&self) -> (r: ToolDefinition)
        ensures
            r.kind@ == "function"@,
            r.function.name@ == self.name@,
            r.function.description@ == self.description@,
            json_view(r.function.parameters) == json_view(self.parameters),
    {
        ToolDefinition {
            kind: String::from_str("function"),
            function: FunctionDefinition {
                name: self.name.clone(),
                description: self.description.clone(),
                parameters: self.parameters.duplicate(),
            },
        }
    }
}

impl ToolCall {
    /// A copy of this call.
    pub fn duplicate(&self) -> (r: ToolCall)
        ensures
            r.function.name@ == self.function.name@,
            json_view(r.function.arguments) == json_view(self.function.arguments),
    {
        ToolCall {
            function: ToolFunctionCall {
                name: self.function.name.clone(),
                arguments: self.function.arguments.duplicate(),
            },
        }
    }
}

/// The text of a borrowed-or-owned result, as a sequence of characters.
pub open spec fn str_result(r: Result<&str, String>) -> Result<Seq<char>, Seq<char>> {
    match r {
        Ok(s) => Ok(s@),
        Err(e) => Err(e@),
    }
}

/// The text of an owned result.
pub open spec fn string_result(r: Result<String, String>) -> Result<Seq<char>, Seq<char>> {
    match r {
        Ok(s) => Ok(s@),
        Err(e) => Err(e@),
    }
}

/// The string argument named `key`, or the error that names it.
pub open spec fn spec_argument_string(arguments: JsonValue, key: Seq<char>) -> Result<
    Seq<char>,
    Seq<char>,
> {
    match arguments.spec_get(key) {
        Some(v) => match v.spec_as_str() {
            Some(s) => Ok(s),
            None => Err("Tool argument '"@ + key + "' must be a string"@),
        },
        None => Err("Tool argument '"@ + key + "' must be a string"@),
    }
}

/// The string argument named `key` of a tool call.
pub fn argument_string<'a>(arguments: &'a JsonValue, key: &str) -> (r: Result<&'a str, String>)
    ensures
        str_result(r) == spec_argument_string(*arguments, key@),
{
    match arguments.get(key) {
        Some(v) => match v.as_str() {
            Some(s) => Ok(s),
            None => Err(concat3("Tool argument '", key, "' must be a string")),
        },
        None => Err(concat3("Tool argument '", key, "' must be a string")),
    }
}

/// The boolean argument named `key`, `default` when it is missing, or the
/// error that names it.
pub open spec fn spec_argument_bool(arguments: JsonValue, key: Seq<char>, default: bool) -> Result<
    bool,
    Seq<char>,
> {
    match arguments.spec_get(key) {
        None => Ok(default),
        Some(JsonValue::Bool(b)) => Ok(b),
        Some(_) => Err("Tool argument '"@ + key + "' must be a boolean"@),
    }
}

/// The boolean argument named `key` of a tool call, or `default` when it is missing.
pub fn argument_bool(arguments: &JsonValue, key: &str, default: bool) -> (r: Result<bool, String>)
    ensures
        match r {
            Ok(b) => spec_argument_bool(*arguments, key@, default) == Ok::<bool, Seq<char>>(b),
            Err(e) => spec_argument_bool(*arguments, key@, default) == Err::<bool, Seq<char>>(e@),
        },
{
    match arguments.get(key) {
        None => Ok(default),
        Some(JsonValue::Bool(b)) => Ok(*b),
        Some(_) => Err(concat3("Tool argument '", key, "' must be a boolean")),
    }
}

/// Whether the file content the user approved is still the content on disk:
/// the arguments must carry `_approved_before` as a string equal to it.
pub open spec fn spec_approved_snapshot(arguments: JsonValue, current_before: Seq<char>) -> Result<
    (),
    Seq<char>,
> {
    match arguments.spec_get("_approved_before"@) {
        Some(v) => match v.spec_as_str() {
            Some(expected) => if expected == current_before {
                Ok(())
            } else {
                Err(
                    "File changed while awaiting approval; review the updated change and retry"@,
                )
            },
            None => Err("Missing approved file preview; request approval again"@),
        },
        None => Err("Missing approved file preview; request approval again"@),
    }
}

/// The outcome of a check, with its error text as characters.
pub open spec fn unit_result(r: Result<(), String>) -> Result<(), Seq<char>> {
    match r {
        Ok(_) => Ok(()),
        Err(e) => Err(e@),
    }
}

/// Checks that a file still holds the content the user approved.
pub fn ensure_approved_snapshot(arguments: &JsonValue, current_before: &str) -> (r: Result<
    (),
    String,
>)
    ensures
        unit_result(r) == spec_approved_snapshot(*arguments, current_before@),
{
    let expected = match arguments.get("_approved_before") {
        Some(v) => v.as_str(),
        None => None,
    };
    match expected {
        None => Err(String::from_str("Missing approved file preview; request approval again")),
        Some(expected) => if str_eq(expected, current_before) {
            Ok(())
        } else {
            Err(
                String::from_str(
                    "File changed while awaiting approval; review the updated change and retry",
                ),
            )
        },
    }
}

/// Whether `old` occurs at two different places in `before`.
pub open spec fn occurs_twice(before: Seq<char>, old: Seq<char>) -> bool {
    exists|i: int, j: int| i != j && occurs_at(before, old, i) && occurs_at(before, old, j)
}

/// The file content after replacing the one occurrence of `old` by `new`,
/// or why the replacement is refused.
pub open spec fn spec_apply_edit(before: Seq<char>, old: Seq<char>, new: Seq<char>) -> Result<
    Seq<char>,
    Seq<char>,
> {
    if !(exists|i: int| occurs_at(before, old, i)) {
        Err("old_str was not found in the file"@)
    } else if occurs_twice(before, old) {
        Err("old_str occurs multiple times; provide more context to identify one match"@)
    } else {
        let i = choose|i: int| occurs_at(before, old, i);
        Ok(before.take(i) + new + before.skip(i + old.len()))
    }
}

/// Replaces the single occurrence of `old_str` in `before` by `new_str`.
/// Occurrences may overlap: `aa` occurs twice in `aaa`.
pub fn apply_edit(before: &str, old_str: &str, new_str: &str) -> (r: Result<String, String>)
    requires
        old_str@.len() > 0,
    ensures
        string_result(r) == spec_apply_edit(before@, old_str@, new_str@),
{
    let n = before.unicode_len();
    let m = old_str.unicode_len();
    if m > n {
        assert(!(exists|i: int| occurs_at(before@, old_str@, i)));
        return Err(String::from_str("old_str was not found in the file"));
    }
    let mut first: Option<usize> = None;
    let mut i: usize = 0;
    while i <= n - m
        invariant
            n == before@.len(),
            m == old_str@.len(),
            0 < m <= n,
            i <= n - m + 1,
            match first {
                Some(f) => f < i && occurs_at(before@, old_str@, f as int) && forall|j: int|
                    0 <= j < i && j != f ==> !occurs_at(before@, old_str@, j),
                None => forall|j: int| 0 <= j < i ==> !occurs_at(before@, old_str@, j),
            },
        decreases n - m + 1 - i,
    {
        if matches_at(before, old_str, i) {
            if let Some(f) = first {
                assert(occurs_twice(before@, old_str@)) by {
                    assert(occurs_at(before@, old_str@, f as int));
                    assert(occurs_at(before@, old_str@, i as int));
                }
                assert(exists|k: int| occurs_at(before@, old_str@, k)) by {
                    assert(occurs_at(before@, old_str@, i as int));
                }
                return Err(
                    String::from_str(
                        "old_str occurs multiple times; provide more context to identify one match",
                    ),
                );
            }
            first = Some(i);
        }
        i = i + 1;
    }
    match first {
        None => {
            assert(!(exists|k: int| occurs_at(before@, old_str@, k))) by {
                assert forall|k: int| !occurs_at(before@, old_str@, k) by {
                    if 0 <= k < i {
                    }
                }
            }
            Err(String::from_str("old_str was not found in the file"))
        },
        Some(f) => {
            assert(forall|k: int| #[trigger] occurs_at(before@, old_str@, k) ==> k == f) by {
                assert forall|k: int| #[trigger] occurs_at(before@, old_str@, k) implies k == f by {
                    if 0 <= k < i && k != f {
                    }
                }
            }
            assert(occurs_at(before@, old_str@, f as int));
            assert(!occurs_twice(before@, old_str@));
            let head = substring(before, 0, f);
            let tail = substring(before, f + m, n);
            let out = concat3(head.as_str(), new_str, tail.as_str());
            proof {
                let c = choose|k: int| occurs_at(before@, old_str@, k);
                assert(c == f);
                assert(before@.subrange(0, f as int) =~= before@.take(f as int));
                assert(before@.subrange(f + m, n as int) =~= before@.skip(f + m));
            }
            Ok(out)
        },
    }
}

/// An edit of a text in which `old` occurs once, at `i`, succeeds and
/// changes nothing but that occurrence: the text before `i` is kept as it
/// was, `new` stands where `old` stood, and the text after the occurrence
/// follows unchanged.
pub proof fn law_edit_replaces_only_the_occurrence(
    before: Seq<char>,
    old: Seq<char>,
    new: Seq<char>,
    i: int,
)
    requires
        old.len() > 0,
        occurs_at(before, old, i),
        forall|j: int| j != i ==> !occurs_at(before, old, j),
    ensures
        spec_apply_edit(before, old, new) matches Ok(out) && {
            &&& out.len() == before.len() - old.len() + new.len()
            &&& out.subrange(0, i) == before.subrange(0, i)
            &&& out.subrange(i, i + new.len()) == new
            &&& out.subrange(i + new.len(), out.len() as int) == before.subrange(
                i + old.len(),
                before.len() as int,
            )
        },
{
    assert(exists|k: int| occurs_at(before, old, k));
    assert(!occurs_twice(before, old));
    let c = choose|k: int| occurs_at(before, old, k);
    assert(c == i);
    let out = before.take(i) + new + before.skip(i + old.len());
    assert(spec_apply_edit(before, old, new) == Ok::<Seq<char>, Seq<char>>(out));
    assert(out.subrange(0, i) =~= before.subrange(0, i));
    assert(out.subrange(i, i + new.len()) =~= new);
    assert(out.subrange(i + new.len(), out.len() as int) =~= before.subrange(
        i + old.len(),
        before.len() as int,
    ));
}

/// An edit is refused when `old` does not occur in the text, and when it
/// occurs at two different places.
pub proof fn law_edit_refusals(before: Seq<char>, old: Seq<char>, new: Seq<char>, i: int, j: int)
    ensures
        (forall|k: int| !occurs_at(before, old, k)) ==> spec_apply_edit(before, old, new) == Err::<
            Seq<char>,
            Seq<char>,
        >("old_str was not found in the file"@),
        (i != j && occurs_at(before, old, i) && occurs_at(before, old, j)) ==> spec_apply_edit(
            before,
            old,
            new,
        ) == Err::<Seq<char>, Seq<char>>(
            "old_str occurs multiple times; provide more context to identify one match"@,
        ),
{
}

/// The path, old text and new text of an edit request, checked in that order;
/// the old text must not be empty.
pub open spec fn spec_edit_request(arguments: JsonValue) -> Result<
    (Seq<char>, Seq<char>, Seq<char>),
    Seq<char>,
> {
    match spec_argument_string(arguments, "path"@) {
        Err(e) => Err(e),
        Ok(path) => match spec_argument_string(arguments, "old_str"@) {
            Err(e) => Err(e),
            Ok(old) => match spec_argument_string(arguments, "new_str"@) {
                Err(e) => Err(e),
                Ok(new) => if old.len() == 0 {
                    Err("old_str cannot be empty; provide specific context to replace"@)
                } else {
                    Ok((path, old, new))
                },
            },
        },
    }
}

/// Reads the arguments of an `edit_file` call.
pub fn edit_request(arguments: &JsonValue) -> (r: Result<(&str, &str, &str), String>)
    ensures
        match r {
            Ok((p, o, n)) => spec_edit_request(*arguments) == Ok::<
                (Seq<char>, Seq<char>, Seq<char>),
                Seq<char>,
            >((p@, o@, n@)),
            Err(e) => spec_edit_request(*arguments) == Err::<
                (Seq<char>, Seq<char>, Seq<char>),
                Seq<char>,
            >(e@),
        },
{
    let path = argument_string(arguments, "path")?;
    let old_str = argument_string(arguments, "old_str")?;
    let new_str = argument_string(arguments, "new_str")?;
    if old_str.is_empty() {
        return Err(String::from_str("old_str cannot be empty; provide specific context to replace"));
    }
    Ok((path, old_str, new_str))
}

/// The path, content and overwrite flag of a create request, checked in that order.
pub open spec fn spec_create_request(arguments: JsonValue) -> Result<
    (Seq<char>, Seq<char>, bool),
    Seq<char>,
> {
    match spec_argument_string(arguments, "path"@) {
        Err(e) => Err(e),
        Ok(path) => match spec_argument_string(arguments, "content"@) {
            Err(e) => Err(e),
            Ok(content) => match spec_argument_bool(arguments, "overwrite"@, false) {
                Err(e) => Err(e),
                Ok(overwrite) => Ok((path, content, overwrite)),
            },
        },
    }
}

/// Reads the arguments of a `create_file` call.
pub fn create_request(arguments: &JsonValue) -> (r: Result<(&str, &str, bool), String>)
    ensures
        match r {
            Ok((p, c, o)) => spec_create_request(*arguments) == Ok::<
                (Seq<char>, Seq<char>, bool),
                Seq<char>,
            >((p@, c@, o)),
            Err(e) => spec_create_request(*arguments) == Err::<
                (Seq<char>, Seq<char>, bool),
                Seq<char>,
            >(e@),
        },
{
    let path = argument_string(arguments, "path")?;
    let content = argument_string(arguments, "content")?;
    let overwrite = argument_bool(arguments, "overwrite", false)?;
    Ok((path, content, overwrite))
}

/// Whether a file may be created at a path: an existing file only with
/// `overwrite`. `Ok(true)` asks for the existing content to be read.
pub open spec fn spec_existing_file(path: Seq<char>, exists: bool, overwrite: bool) -> Result<
    bool,
    Seq<char>,
> {
    if exists && !overwrite {
        Err("File already exists: "@ + path + ". Set overwrite to true to replace it."@)
    } else {
        Ok(exists)
    }
}

/// Decides what creating a file at `path` does about an existing file.
pub fn existing_file(path: &str, exists: bool, overwrite: bool) -> (r: Result<bool, String>)
    ensures
        match r {
            Ok(b) => spec_existing_file(path@, exists, overwrite) == Ok::<bool, Seq<char>>(b),
            Err(e) => spec_existing_file(path@, exists, overwrite) == Err::<bool, Seq<char>>(e@),
        },
{
    if exists && !overwrite {
        Err(concat3("File already exists: ", path, ". Set overwrite to true to replace it."))
    } else {
        Ok(exists)
    }
}

/// The command and timeout of a `run_command` call: a command that is not
/// blank, and a timeout between 1 and 600000 ms, 60000 when none is given.
pub open spec fn spec_command_request(arguments: JsonValue) -> Result<(Seq<char>, u64), Seq<char>> {
    match arguments.spec_get("command"@) {
        Some(v) => match v.spec_as_str() {
            Some(command) => if trim_ws(command).len() == 0 {
                Err("A non-empty command is required"@)
            } else {
                match arguments.spec_get("timeout_ms"@) {
                    None => Ok((command, DEFAULT_COMMAND_TIMEOUT_MS)),
                    Some(t) => match t.spec_as_u64() {
                        Some(ms) => if 1 <= ms <= MAX_COMMAND_TIMEOUT_MS {
                            Ok((command, ms))
                        } else {
                            Err("timeout_ms must be between 1 and 600000"@)
                        },
                        None => Err("timeout_ms must be between 1 and 600000"@),
                    },
                }
            },
            None => Err("A non-empty command is required"@),
        },
        None => Err("A non-empty command is required"@),
    }
}

/// Reads the arguments of a `run_command` call.
pub fn command_request(arguments: &JsonValue) -> (r: Result<(String, u64), String>)
    ensures
        match r {
            Ok((c, t)) => spec_command_request(*arguments) == Ok::<(Seq<char>, u64), Seq<char>>(
                (c@, t),
            ),
            Err(e) => spec_command_request(*arguments) == Err::<(Seq<char>, u64), Seq<char>>(e@),
        },
{
    let command = match arguments.get("command") {
        Some(v) => v.as_str(),
        None => None,
    };
    let command = match command {
        Some(c) => c,
        None => {
            return Err(String::from_str("A non-empty command is required"));
        },
    };
    let trimmed = trim(command);
    if trimmed.as_str().is_empty() {
        return Err(String::from_str("A non-empty command is required"));
    }
    let timeout_ms = match arguments.get("timeout_ms") {
        None => DEFAULT_COMMAND_TIMEOUT_MS,
        Some(t) => match t.as_u64() {
            Some(ms) => if 1 <= ms && ms <= MAX_COMMAND_TIMEOUT_MS {
                ms
            } else {
                return Err(String::from_str("timeout_ms must be between 1 and 600000"));
            },
            None => {
                return Err(String::from_str("timeout_ms must be between 1 and 600000"));
            },
        },
    };
    Ok((command.to_owned(), timeout_ms))
}

/// For a `run_command` call with a command that is not blank, the command is
/// kept as it was given, and the timeout is the one asked for when it is a
/// whole number of milliseconds from 1 to 600000, 60000 when none is asked
/// for, and refused otherwise.
pub proof fn law_command_keeps_the_requested_timeout(arguments: JsonValue, command: Seq<char>)
    requires
        arguments.spec_get("command"@) matches Some(v) && v.spec_as_str() == Some(command),
        trim_ws(command).len() > 0,
    ensures
        arguments.spec_get("timeout_ms"@) is None ==> spec_command_request(arguments) == Ok::<
            (Seq<char>, u64),
            Seq<char>,
        >((command, 60000)),
        arguments.spec_get("timeout_ms"@) matches Some(t) ==> (t.spec_as_u64() matches Some(ms) ==> (
        1 <= ms <= 600000 ==> spec_command_request(arguments) == Ok::<(Seq<char>, u64), Seq<char>>(
            (command, ms),
        ))),
        arguments.spec_get("timeout_ms"@) matches Some(t) && !(t.spec_as_u64() matches Some(
            ms,
        ) && 1 <= ms <= 600000) ==> spec_command_request(arguments) == Err::<
            (Seq<char>, u64),
            Seq<char>,
        >("timeout_ms must be between 1 and 600000"@),
{
}

/// A message about a running command, sent to the user interface.
#[derive(Clone, Debug)]
pub struct CommandOutputEvent {
    pub request_id: String,
    pub command_id: String,
    pub command: String,
    pub phase: String,
    pub stream: Option<String>,
    pub chunk: Option<String>,
    pub status: Option<String>,
    pub exit_code: Option<i32>,
    pub error: Option<String>,
}

/// What a tool call runs in: the workspace folder, the ids of the chat
/// request and of the call, and where command output goes.
pub struct ToolContext<C> {
    pub workspace: String,
    pub request_id: String,
    pub command_id: String,
    pub command_output: Option<C>,
}

/// The text of an optional string.
pub open spec fn opt_text(o: Option<String>) -> Option<Seq<char>> {
    match o {
        Some(s) => Some(s@),
        None => None,
    }
}

/// Whether `e` is the event for `command` of the context's call in `phase`,
/// with the given optional parts.
pub open spec fn is_command_event<C>(
    e: CommandOutputEvent,
    context: ToolContext<C>,
    command: Seq<char>,
    phase: Seq<char>,
    stream: Option<Seq<char>>,
    chunk: Option<Seq<char>>,
    status: Option<Seq<char>>,
    exit_code: Option<i32>,
    error: Option<Seq<char>>,
) -> bool {
    &&& e.request_id@ == context.request_id@
    &&& e.command_id@ == context.command_id@
    &&& e.command@ == command
    &&& e.phase@ == phase
    &&& opt_text(e.stream) == stream
    &&& opt_text(e.chunk) == chunk
    &&& opt_text(e.status) == status
    &&& e.exit_code == exit_code
    &&& opt_text(e.error) == error
}

impl<C> ToolContext<C> {
    /// The event that a command has started and is running.
    pub fn started_event(&self, command: &str) -> (r: CommandOutputEvent)
        ensures
            is_command_event(
                r,
                *self,
                command@,
                "started"@,
                None,
                None,
                Some("running"@),
                None,
                None,
            ),
    {
        CommandOutputEvent {
            request_id: self.request_id.clone(),
            command_id: self.command_id.clone(),
            command: command.to_owned(),
            phase: String::from_str("started"),
            stream: None,
            chunk: None,
            status: Some(String::from_str("running")),
            exit_code: None,
            error: None,
        }
    }

    /// The event that carries a piece of a command's output on `stream`.
    pub fn output_event(&self, command: &str, stream: &str, chunk: &str) -> (r: CommandOutputEvent)
        ensures
            is_command_event(
                r,
                *self,
                command@,
                "output"@,
                Some(stream@),
                Some(chunk@),
                None,
                None,
                None,
            ),
    {
        CommandOutputEvent {
            request_id: self.request_id.clone(),
            command_id: self.command_id.clone(),
            command: command.to_owned(),
            phase: String::from_str("output"),
            stream: Some(stream.to_owned()),
            chunk: Some(chunk.to_owned()),
            status: None,
            exit_code: None,
            error: None,
        }
    }

    /// The event that a command has ended: with its exit code, `succeeded`
    /// for 0 and `failed` otherwise; or with an error, `timed_out` when the
    /// error says the command timed out and `failed` otherwise.
    pub fn completed_event(&self, command: &str, outcome: &Result<i32, String>) -> (r:
        CommandOutputEvent)
        ensures
            match outcome {
                Ok(code) => is_command_event(
                    r,
                    *self,
                    command@,
                    "completed"@,
                    None,
                    None,
                    Some(if *code == 0 { "succeeded"@ } else { "failed"@ }),
                    Some(*code),
                    None,
                ),
                Err(error) => is_command_event(
                    r,
                    *self,
                    command@,
                    "completed"@,
                    None,
                    None,
                    Some(
                        if starts_with_seq(error@, "Command timed out"@) {
                            "timed_out"@
                        } else {
                            "failed"@
                        },
                    ),
                    None,
                    Some(error@),
                ),
            },
    {
        match outcome {
            Ok(code) => CommandOutputEvent {
                request_id: self.request_id.clone(),
                command_id: self.command_id.clone(),
                command: command.to_owned(),
                phase: String::from_str("completed"),
                stream: None,
                chunk: None,
                status: Some(
                    String::from_str(
                        if *code == 0 {
                            "succeeded"
                        } else {
                            "failed"
                        },
                    ),
                ),
                exit_code: Some(*code),
                error: None,
            },
            Err(error) => {
                let timed_out = starts_with_str(error.as_str(), "Command timed out");
                CommandOutputEvent {
                    request_id: self.request_id.clone(),
                    command_id: self.command_id.clone(),
                    command: command.to_owned(),
                    phase: String::from_str("completed"),
                    stream: None,
                    chunk: None,
                    status: Some(
                        String::from_str(
                            if timed_out {
                                "timed_out"
                            } else {
                                "failed"
                            },
                        ),
                    ),
                    exit_code: None,
                    error: Some(error.clone()),
                }
            },
        }
    }
}

/// Hands `event` to the context's command-output callback, if it has one.
pub fn emit_command_event<C>(context: &ToolContext<C>, event: CommandOutputEvent) -> (r: Result<
    (),
    String,
>) where C: Fn(CommandOutputEvent) -> Result<(), String>
    requires
        match context.command_output {
            Some(callback) => call_requires(callback, (event,)),
            None => true,
        },
    ensures
        match context.command_output {
            Some(callback) => call_ensures(callback, (event,), r),
            None => r is Ok,
        },
{
    match &context.command_output {
        Some(callback) => callback(event),
        None => Ok(()),
    }
}

/// How a finished command is reported: a timeout, a command killed without
/// an exit code, or its exit code (`-1` when the system gave none).
pub open spec fn spec_command_outcome(
    timed_out: bool,
    timeout_ms: u64,
    success: bool,
    code: Option<i32>,
) -> Result<i32, Seq<char>> {
    if timed_out {
        Err("Command timed out after "@ + decimal(timeout_ms as nat) + " ms and was terminated"@)
    } else if !success && code is None {
        Err("Command was terminated without an exit code"@)
    } else {
        Ok(
            match code {
                Some(c) => c,
                None => -1i32,
            },
        )
    }
}

/// Decides how a finished command is reported.
pub fn command_outcome(timed_out: bool, timeout_ms: u64, success: bool, code: Option<i32>) -> (r:
    Result<i32, String>)
    ensures
        match r {
            Ok(c) => spec_command_outcome(timed_out, timeout_ms, success, code) == Ok::<
                i32,
                Seq<char>,
            >(c),
            Err(e) => spec_command_outcome(timed_out, timeout_ms, success, code) == Err::<
                i32,
                Seq<char>,
            >(e@),
        },
{
    if timed_out {
        let ms = decimal_string(timeout_ms as u128);
        return Err(concat3("Command timed out after ", ms.as_str(), " ms and was terminated"));
    }
    if !success && code.is_none() {
        return Err(String::from_str("Command was terminated without an exit code"));
    }
    match code {
        Some(c) => Ok(c),
        None => Ok(-1),
    }
}

/// The error when a timed-out command could not be killed.
pub fn timeout_kill_error(timeout_ms: u64, error: &str) -> (r: String)
    ensures
        r@ == "Command timed out after "@ + decimal(timeout_ms as nat) + " ms; "@ + error@,
{
    let ms = decimal_string(timeout_ms as u128);
    let head = concat3("Command timed out after ", ms.as_str(), " ms; ");
    concat2(head.as_str(), error)
}

/// How many bytes of a chunk fit when `have` bytes are already captured.
pub open spec fn captured_len(have: nat, chunk: nat) -> nat {
    let available: nat = if have >= MAX_CAPTURED_OUTPUT_BYTES {
        0
    } else {
        (MAX_CAPTURED_OUTPUT_BYTES - have) as nat
    };
    if available < chunk {
        available
    } else {
        chunk
    }
}

/// Appends as much of `chunk` as the capture limit allows, and notes when
/// some of it did not fit.
pub fn append_limited(output: &mut Vec<u8>, truncated: &mut bool, chunk: &[u8])
    ensures
        final(output)@ == old(output)@ + chunk@.take(
            captured_len(old(output)@.len(), chunk@.len()) as int,
        ),
        *final(truncated) == (*old(truncated) || captured_len(old(output)@.len(), chunk@.len())
            < chunk@.len()),
{
    let available: usize = if output.len() >= MAX_CAPTURED_OUTPUT_BYTES {
        0
    } else {
        MAX_CAPTURED_OUTPUT_BYTES - output.len()
    };
    let captured: usize = if available < chunk.len() {
        available
    } else {
        chunk.len()
    };
    let ghost start = output@;
    let mut i: usize = 0;
    while i < captured
        invariant
            i <= captured <= chunk@.len(),
            output@ == start + chunk@.take(i as int),
        decreases captured - i,
    {
        output.push(chunk[i]);
        proof {
            assert(chunk@.take(i + 1) =~= chunk@.take(i as int).push(chunk@[i as int]));
        }
        i = i + 1;
    }
    *truncated = *truncated || captured < chunk.len();
}

/// The marker put after output that was cut at the capture limit.
pub const OUTPUT_TRUNCATED_MARKER: &'static str = "\n...[output truncated]";

/// The output of one stream of a command, as it is read: what was kept,
/// whether some was cut, and the first error of the output callback.
pub struct OutputCapture {
    captured: Vec<u8>,
    truncated: bool,
    callback_error: Option<String>,
}

impl OutputCapture {
    /// The bytes kept so far.
    pub closed spec fn kept(&self) -> Seq<u8> {
        self.captured@
    }

    /// Whether some output did not fit.
    pub closed spec fn was_truncated(&self) -> bool {
        self.truncated
    }

    /// The first error the output callback reported.
    pub closed spec fn first_error(&self) -> Option<Seq<char>> {
        opt_text(self.callback_error)
    }

    /// A capture that has read nothing.
    pub fn new() -> (r: OutputCapture)
        ensures
            r.kept() == Seq::<u8>::empty(),
            !r.was_truncated(),
            r.first_error() is None,
    {
        OutputCapture { captured: Vec::new(), truncated: false, callback_error: None }
    }

    /// Whether new output is still handed to the callback: only until it
    /// has failed once.
    pub fn forwards_output(&self) -> (r: bool)
        ensures
            r == (self.first_error() is None),
    {
        self.callback_error.is_none()
    }

    /// Takes a chunk that was read, with what the callback answered when it
    /// was handed the chunk (`None` when it was not).
    pub fn accept(&mut self, chunk: &[u8], callback: Option<Result<(), String>>)
        ensures
            final(self).kept() == old(self).kept() + chunk@.take(
                captured_len(old(self).kept().len(), chunk@.len()) as int,
            ),
            final(self).was_truncated() == (old(self).was_truncated() || captured_len(
                old(self).kept().len(),
                chunk@.len(),
            ) < chunk@.len()),
            final(self).first_error() == match old(self).first_error() {
                Some(e) => Some(e),
                None => match callback {
                    Some(Err(e)) => Some(e@),
                    _ => None,
                },
            },
    {
        if self.callback_error.is_none() {
            if let Some(Err(e)) = callback {
                self.callback_error = Some(e);
            }
        }
        append_limited(&mut self.captured, &mut self.truncated, chunk);
    }

    /// The captured bytes, with the truncation marker when output was cut,
    /// or the callback's first error.
    pub fn finish(self) -> (r: Result<Vec<u8>, String>)
        ensures
            match self.first_error() {
                Some(e) => r matches Err(f) && f@ == e,
                None => r matches Ok(bytes) && bytes@ == if self.was_truncated() {
                    self.kept() + OUTPUT_TRUNCATED_MARKER.spec_bytes()
                } else {
                    self.kept()
                },
            },
    {
        if let Some(e) = self.callback_error {
            return Err(e);
        }
        let mut captured = self.captured;
        if self.truncated {
            let marker = OUTPUT_TRUNCATED_MARKER.as_bytes();
            let ghost start = captured@;
            let mut i: usize = 0;
            while i < marker.len()
                invariant
                    i <= marker@.len(),
                    captured@ == start + marker@.take(i as int),
                decreases marker@.len() - i,
            {
                captured.push(marker[i]);
                proof {
                    assert(marker@.take(i + 1) =~= marker@.take(i as int).push(marker@[i as int]));
                }
                i = i + 1;
            }
            proof {
                assert(marker@.take(marker@.len() as int) =~= marker@);
            }
        }
        Ok(captured)
    }
}

/// The text of captured command output, decoded as `String::from_utf8_lossy` does.
pub fn captured_output_text(output: Vec<u8>) -> (r: String)
    ensures
        r@ == lossy_utf8(output@),
{
    utf8_lossy(output.as_slice())
}

/// The registered tools with their schemas, ordered by name. No name is
/// registered twice.
pub struct ToolRegistry<T> {
    entries: Vec<(ToolSchema, T)>,
}

/// Whether the schema of each entry matches the schema `s` field by field.
pub open spec fn same_schema(a: ToolSchema, b: ToolSchema) -> bool {
    &&& a.name@ == b.name@
    &&& a.description@ == b.description@
    &&& json_view(a.parameters) == json_view(b.parameters)
    &&& a.risk_level == b.risk_level
}

impl<T> ToolRegistry<T> {
    /// The registered schemas and tools, in order.
    pub closed spec fn entries(&self) -> Seq<(ToolSchema, T)> {
        self.entries@
    }

    /// Whether a tool named `name` is registered.
    pub open spec fn has(&self, name: Seq<char>) -> bool {
        exists|i: int| 0 <= i < self.entries().len() && #[trigger] self.entries()[i].0.name@ == name
    }

    /// The entries are ordered by name, strictly, so no name occurs twice.
    pub open spec fn wf(&self) -> bool {
        forall|i: int, j: int|
            0 <= i < j < self.entries().len() ==> text_less(
                #[trigger] self.entries()[i].0.name@,
                #[trigger] self.entries()[j].0.name@,
            )
    }

    /// A registry with no tools.
    pub fn new() -> (r: ToolRegistry<T>)
        ensures
            r.wf(),
            r.entries() == Seq::<(ToolSchema, T)>::empty(),
    {
        ToolRegistry { entries: Vec::new() }
    }

    /// The number of registered tools.
    pub fn len(&self) -> (r: usize)
        ensures
            r == self.entries().len(),
    {
        self.entries.len()
    }

    fn contains_name(&self, name: &str) -> (r: bool)
        ensures
            r == self.has(name@),
    {
        let n = self.entries.len();
        let mut i: usize = 0;
        while i < n
            invariant
                n == self.entries@.len(),
                i <= n,
                forall|k: int| 0 <= k < i ==> self.entries@[k].0.name@ != name@,
            decreases n - i,
        {
            if str_eq(self.entries[i].0.name.as_str(), name) {
                return true;
            }
            i = i + 1;
        }
        false
    }

    /// Adds a tool under its schema's name. A blank name and a name that is
    /// already registered are refused, and the registry is left as it was.
    pub fn register(&mut self, schema: ToolSchema, tool: T) -> (r: Result<(), String>)
        requires
            old(self).wf(),
        ensures
            final(self).wf(),
            trim_ws(schema.name@).len() == 0 ==> (r matches Err(e) && e@
                == "Tool name cannot be empty"@ && final(self).entries() == old(self).entries()),
            trim_ws(schema.name@).len() != 0 && old(self).has(schema.name@) ==> (r matches Err(e)
                && e@ == "Tool '"@ + schema.name@ + "' is already registered"@
                && final(self).entries() == old(self).entries()),
            trim_ws(schema.name@).len() != 0 && !old(self).has(schema.name@) ==> r is Ok
                && exists|p: int|
                0 <= p <= old(self).entries().len()
                    && final(self).entries() == old(self).entries().insert(p, (schema, tool)),
    {
        let trimmed = trim(schema.name.as_str());
        if trimmed.as_str().is_empty() {
            return Err(String::from_str("Tool name cannot be empty"));
        }
        if self.contains_name(schema.name.as_str()) {
            return Err(concat3("Tool '", schema.name.as_str(), "' is already registered"));
        }
        let n = self.entries.len();
        let mut p: usize = 0;
        while p < n && !str_less(schema.name.as_str(), self.entries[p].0.name.as_str())
            invariant
                n == self.entries@.len(),
                p <= n,
                !self.has(schema.name@),
                forall|k: int| 0 <= k < p ==> text_less(#[trigger] self.entries@[k].0.name@, schema.name@),
            decreases n - p,
        {
            proof {
                lemma_text_less_total(self.entries@[p as int].0.name@, schema.name@);
                assert(self.entries@[p as int].0.name@ != schema.name@);
            }
            p = p + 1;
        }
        let ghost old_entries = self.entries@;
        let ghost name = schema.name@;
        self.entries.insert(p, (schema, tool));
        proof {
            let s = self.entries@;
            assert forall|i: int, j: int| 0 <= i < j < s.len() implies text_less(
                #[trigger] s[i].0.name@,
                #[trigger] s[j].0.name@,
            ) by {
                if j < p {
                    assert(s[i] == old_entries[i] && s[j] == old_entries[j]);
                } else if j == p {
                    assert(s[i] == old_entries[i]);
                } else if i < p {
                    assert(s[i] == old_entries[i] && s[j] == old_entries[j - 1]);
                } else if i == p {
                    assert(s[j] == old_entries[j - 1]);
                    assert(text_less(name, old_entries[p as int].0.name@));
                    if j - 1 > p {
                        lemma_text_less_transitive(
                            name,
                            old_entries[p as int].0.name@,
                            old_entries[j - 1].0.name@,
                        );
                    }
                } else {
                    assert(s[i] == old_entries[i - 1] && s[j] == old_entries[j - 1]);
                }
            }
        }
        Ok(())
    }

    /// The tool registered under `name`.
    pub fn get(&self, name: &str) -> (r: Option<&T>)
        ensures
            match r {
                Some(t) => exists|i: int|
                    0 <= i < self.entries().len() && #[trigger] self.entries()[i].0.name@ == name@
                        && self.entries()[i].1 == *t,
                None => !self.has(name@),
            },
    {
        let n = self.entries.len();
        let mut i: usize = 0;
        while i < n
            invariant
                n == self.entries@.len(),
                i <= n,
                forall|k: int| 0 <= k < i ==> self.entries@[k].0.name@ != name@,
            decreases n - i,
        {
            if str_eq(self.entries[i].0.name.as_str(), name) {
                assert(self.entries()[i as int].0.name@ == name@);
                return Some(&self.entries[i].1);
            }
            i = i + 1;
        }
        None
    }

    /// The schema of the tool registered under `name`.
    pub fn schema(&self, name: &str) -> (r: Option<&ToolSchema>)
        ensures
            match r {
                Some(s) => exists|i: int|
                    0 <= i < self.entries().len() && #[trigger] self.entries()[i].0.name@ == name@
                        && self.entries()[i].0 == *s,
                None => !self.has(name@),
            },
    {
        let n = self.entries.len();
        let mut i: usize = 0;
        while i < n
            invariant
                n == self.entries@.len(),
                i <= n,
                forall|k: int| 0 <= k < i ==> self.entries@[k].0.name@ != name@,
            decreases n - i,
        {
            if str_eq(self.entries[i].0.name.as_str(), name) {
                assert(self.entries()[i as int].0.name@ == name@);
                return Some(&self.entries[i].0);
            }
            i = i + 1;
        }
        None
    }

    /// Copies of the registered schemas, ordered by name.
    pub fn schemas(&self) -> (r: Vec<ToolSchema>)
        ensures
            r@.len() == self.entries().len(),
            forall|i: int| 0 <= i < r@.len() ==> same_schema(#[trigger] r@[i], self.entries()[i].0),
    {
        let n = self.entries.len();
        let mut out: Vec<ToolSchema> = Vec::new();
        let mut i: usize = 0;
        while i < n
            invariant
                n == self.entries@.len(),
                i <= n,
                out@.len() == i,
                forall|k: int| 0 <= k < i ==> same_schema(#[trigger] out@[k], self.entries@[k].0),
            decreases n - i,
        {
            out.push(self.entries[i].0.duplicate());
            i = i + 1;
        }
        out
    }

    /// The Ollama definitions of the registered tools, ordered by name.
    pub fn definitions(&self) -> (r: Vec<ToolDefinition>)
        ensures
            r@.len() == self.entries().len(),
            forall|i: int|
                0 <= i < r@.len() ==> {
                    &&& (#[trigger] r@[i]).kind@ == "function"@
                    &&& r@[i].function.name@ == self.entries()[i].0.name@
                    &&& r@[i].function.description@ == self.entries()[i].0.description@
                    &&& json_view(r@[i].function.parameters) == json_view(
                        self.entries()[i].0.parameters,
                    )
                },
    {
        let n = self.entries.len();
        let mut out: Vec<ToolDefinition> = Vec::new();
        let mut i: usize = 0;
        while i < n
            invariant
                n == self.entries@.len(),
                i <= n,
                out@.len() == i,
                forall|k: int|
                    0 <= k < i ==> {
                        &&& (#[trigger] out@[k]).kind@ == "function"@
                        &&& out@[k].function.name@ == self.entries@[k].0.name@
                        &&& out@[k].function.description@ == self.entries@[k].0.description@
                        &&& json_view(out@[k].function.parameters) == json_view(
                            self.entries@[k].0.parameters,
                        )
                    },
            decreases n - i,
        {
            out.push(self.entries[i].0.ollama_definition());
            i = i + 1;
        }
        out
    }
}

/// Whether `s` is the schema with this name, description, parameters and risk level.
pub open spec fn is_schema(
    s: ToolSchema,
    name: Seq<char>,
    description: Seq<char>,
    parameters: JsonSpec,
    risk_level: RiskLevel,
) -> bool {
    &&& s.name@ == name
    &&& s.description@ == description
    &&& json_view(s.parameters) == parameters
    &&& s.risk_level == risk_level
}

/// The tools every registry starts with.
#[derive(Clone, Copy, Debug, PartialEq, Eq, Structural)]
pub enum BuiltinTool {
    GetCurrentTime,
    ListWorkspaceFiles,
    ReadFile,
    CreateFile,
    EditFile,
    RunCommand,
}

/// The name of a built-in tool.
pub open spec fn builtin_name(t: BuiltinTool) -> Seq<char> {
    match t {
        BuiltinTool::GetCurrentTime => "get_current_time"@,
        BuiltinTool::ListWorkspaceFiles => "list_workspace_files"@,
        BuiltinTool::ReadFile => "read_file"@,
        BuiltinTool::CreateFile => "create_file"@,
        BuiltinTool::EditFile => "edit_file"@,
        BuiltinTool::RunCommand => "run_command"@,
    }
}

/// The description of a built-in tool.
pub open spec fn builtin_description(t: BuiltinTool) -> Seq<char> {
    match t {
        BuiltinTool::GetCurrentTime => "Get the current UTC time as milliseconds since the Unix epoch."@,
        BuiltinTool::ListWorkspaceFiles => "List the names and entry types in the workspace root directory."@,
        BuiltinTool::ReadFile => "Read a text file using a path relative to the active workspace."@,
        BuiltinTool::CreateFile => "Propose creating a workspace file with the supplied content. Existing files are only replaced when overwrite is true."@,
        BuiltinTool::EditFile => "Propose an exact, unique old_str to new_str replacement in a workspace file."@,
        BuiltinTool::RunCommand => "Run a shell command in the active workspace directory. Commands are not sandboxed; broader sandboxing is tracked separately in issue #12."@,
    }
}

/// The parameters of a built-in tool.
pub open spec fn builtin_parameters(t: BuiltinTool) -> JsonSpec {
    match t {
        BuiltinTool::GetCurrentTime => object_schema_spec(Seq::empty(), Seq::empty()),
        BuiltinTool::ListWorkspaceFiles => object_schema_spec(Seq::empty(), Seq::empty()),
        BuiltinTool::ReadFile => object_schema_spec(
            seq![("path"@, param_spec("string"@, "Workspace-relative file path."@))],
            seq!["path"@],
        ),
        BuiltinTool::CreateFile => object_schema_spec(
            seq![
                ("path"@, param_spec("string"@, "Workspace-relative file path."@)),
                ("content"@, param_spec("string"@, "Complete file content."@)),
                ("overwrite"@, param_spec("boolean"@, "Replace an existing file; defaults to false."@)),
            ],
            seq!["path"@, "content"@],
        ),
        BuiltinTool::EditFile => object_schema_spec(
            seq![
                ("path"@, param_spec("string"@, "Workspace-relative file path."@)),
                ("old_str"@, param_spec("string"@, "Exact text to replace; it must occur exactly once."@)),
                ("new_str"@, param_spec("string"@, "Replacement text."@)),
            ],
            seq!["path"@, "old_str"@, "new_str"@],
        ),
        BuiltinTool::RunCommand => object_schema_spec(
            seq![
                ("command"@, param_spec("string"@, "The exact shell command to execute."@)),
                ("timeout_ms"@, param_spec("integer"@, "Optional timeout in milliseconds (default 60000, maximum 600000)."@)),
            ],
            seq!["command"@],
        ),
    }
}

/// The risk level of a built-in tool: the file-changing tools and
/// `run_command` ask for confirmation.
pub open spec fn builtin_risk(t: BuiltinTool) -> RiskLevel {
    match t {
        BuiltinTool::GetCurrentTime | BuiltinTool::ListWorkspaceFiles | BuiltinTool::ReadFile => RiskLevel::AutoApprove,
        _ => RiskLevel::RequiresConfirmation,
    }
}

impl BuiltinTool {
    /// The schema of this tool.
    pub fn schema(&self) -> (r: ToolSchema)
        ensures
            is_schema(r, builtin_name(*self), builtin_description(*self), builtin_parameters(*self), builtin_risk(*self)),
    {
        match self {
            BuiltinTool::GetCurrentTime => {
                let required: [&str; 0] = [];
                let parameters = object_schema(JsonMembers::new(), &required);
                proof {
                    assert(Seq::new(0, |i: int| required@[i]@) =~= Seq::<Seq<char>>::empty());
                }
                ToolSchema {
                    name: String::from_str("get_current_time"),
                    description: String::from_str("Get the current UTC time as milliseconds since the Unix epoch."),
                    parameters,
                    risk_level: RiskLevel::AutoApprove,
                }
            },
            BuiltinTool::ListWorkspaceFiles => {
                let required: [&str; 0] = [];
                let parameters = object_schema(JsonMembers::new(), &required);
                proof {
                    assert(Seq::new(0, |i: int| required@[i]@) =~= Seq::<Seq<char>>::empty());
                }
                ToolSchema {
                    name: String::from_str("list_workspace_files"),
                    description: String::from_str("List the names and entry types in the workspace root directory."),
                    parameters,
                    risk_level: RiskLevel::AutoApprove,
                }
            },
            BuiltinTool::ReadFile => {
                let props = JsonMembers::new().with("path", param("string", "Workspace-relative file path."));
                let required: [&str; 1] = ["path"];
                let parameters = object_schema(props, &required);
                proof {
                    assert(Seq::<(Seq<char>, JsonSpec)>::empty().push(("path"@, param_spec("string"@, "Workspace-relative file path."@))) =~= seq![("path"@, param_spec("string"@, "Workspace-relative file path."@))]);
                    assert(Seq::new(1, |i: int| required@[i]@) =~= seq!["path"@]);
                }
                ToolSchema {
                    name: String::from_str("read_file"),
                    description: String::from_str("Read a text file using a path relative to the active workspace."),
                    parameters,
                    risk_level: RiskLevel::AutoApprove,
                }
            },
            BuiltinTool::CreateFile => {
                let props = JsonMembers::new().with("path", param("string", "Workspace-relative file path.")).with(
                    "content",
                    param("string", "Complete file content."),
                ).with("overwrite", param("boolean", "Replace an existing file; defaults to false."));
                let required: [&str; 2] = ["path", "content"];
                let parameters = object_schema(props, &required);
                proof {
                    assert(Seq::<(Seq<char>, JsonSpec)>::empty().push(("path"@, param_spec("string"@, "Workspace-relative file path."@))).push(("content"@, param_spec("string"@, "Complete file content."@))).push(("overwrite"@, param_spec("boolean"@, "Replace an existing file; defaults to false."@))) =~= seq![
                        ("path"@, param_spec("string"@, "Workspace-relative file path."@)),
                        ("content"@, param_spec("string"@, "Complete file content."@)),
                        ("overwrite"@, param_spec("boolean"@, "Replace an existing file; defaults to false."@)),
                    ]);
                    assert(Seq::new(2, |i: int| required@[i]@) =~= seq!["path"@, "content"@]);
                }
                ToolSchema {
                    name: String::from_str("create_file"),
                    description: String::from_str("Propose creating a workspace file with the supplied content. Existing files are only replaced when overwrite is true."),
                    parameters,
                    risk_level: RiskLevel::RequiresConfirmation,
                }
            },
            BuiltinTool::EditFile => {
                let props = JsonMembers::new().with("path", param("string", "Workspace-relative file path.")).with(
                    "old_str",
                    param("string", "Exact text to replace; it must occur exactly once."),
                ).with("new_str", param("string", "Replacement text."));
                let required: [&str; 3] = ["path", "old_str", "new_str"];
                let parameters = object_schema(props, &required);
                proof {
                    assert(Seq::<(Seq<char>, JsonSpec)>::empty().push(("path"@, param_spec("string"@, "Workspace-relative file path."@))).push(("old_str"@, param_spec("string"@, "Exact text to replace; it must occur exactly once."@))).push(("new_str"@, param_spec("string"@, "Replacement text."@))) =~= seq![
                        ("path"@, param_spec("string"@, "Workspace-relative file path."@)),
                        ("old_str"@, param_spec("string"@, "Exact text to replace; it must occur exactly once."@)),
                        ("new_str"@, param_spec("string"@, "Replacement text."@)),
                    ]);
                    assert(Seq::new(3, |i: int| required@[i]@) =~= seq!["path"@, "old_str"@, "new_str"@]);
                }
                ToolSchema {
                    name: String::from_str("edit_file"),
                    description: String::from_str("Propose an exact, unique old_str to new_str replacement in a workspace file."),
                    parameters,
                    risk_level: RiskLevel::RequiresConfirmation,
                }
            },
            BuiltinTool::RunCommand => {
                let props = JsonMembers::new().with("command", param("string", "The exact shell command to execute.")).with(
                    "timeout_ms",
                    param("integer", "Optional timeout in milliseconds (default 60000, maximum 600000)."),
                );
                let required: [&str; 1] = ["command"];
                let parameters = object_schema(props, &required);
                proof {
                    assert(Seq::<(Seq<char>, JsonSpec)>::empty().push(("command"@, param_spec("string"@, "The exact shell command to execute."@))).push(("timeout_ms"@, param_spec("integer"@, "Optional timeout in milliseconds (default 60000, maximum 600000)."@))) =~= seq![
                        ("command"@, param_spec("string"@, "The exact shell command to execute."@)),
                        ("timeout_ms"@, param_spec("integer"@, "Optional timeout in milliseconds (default 60000, maximum 600000)."@)),
                    ]);
                    assert(Seq::new(1, |i: int| required@[i]@) =~= seq!["command"@]);
                }
                ToolSchema {
                    name: String::from_str("run_command"),
                    description: String::from_str("Run a shell command in the active workspace directory. Commands are not sandboxed; broader sandboxing is tracked separately in issue #12."),
                    parameters,
                    risk_level: RiskLevel::RequiresConfirmation,
                }
            },
        }
    }
}

/// The built-in tools in the order of their names.
pub open spec fn builtin_in_order(i: int) -> BuiltinTool {
    if i == 0 {
        BuiltinTool::CreateFile
    } else if i == 1 {
        BuiltinTool::EditFile
    } else if i == 2 {
        BuiltinTool::GetCurrentTime
    } else if i == 3 {
        BuiltinTool::ListWorkspaceFiles
    } else if i == 4 {
        BuiltinTool::ReadFile
    } else {
        BuiltinTool::RunCommand
    }
}

proof fn lemma_ordered_chain(names: Seq<Seq<char>>, i: int, j: int)
    requires
        forall|k: int| 0 <= k < names.len() - 1 ==> text_less(#[trigger] names[k], names[k + 1]),
        0 <= i < j < names.len(),
    ensures
        text_less(names[i], names[j]),
    decreases j - i,
{
    if j > i + 1 {
        lemma_ordered_chain(names, i, j - 1);
        assert(text_less(names[j - 1], names[j]));
        lemma_text_less_transitive(names[i], names[j - 1], names[j]);
    }
}

impl<T> ToolRegistry<T> {
    /// The registry of the built-in tools; `make` gives the value kept for each.
    pub fn with_examples<F: Fn(BuiltinTool) -> T>(make: F) -> (r: ToolRegistry<T>)
        requires
            forall|t: BuiltinTool| call_requires(make, (t,)),
        ensures
            r.wf(),
            r.entries().len() == 6,
            forall|i: int|
                0 <= i < 6 ==> is_schema(
                    #[trigger] r.entries()[i].0,
                    builtin_name(builtin_in_order(i)),
                    builtin_description(builtin_in_order(i)),
                    builtin_parameters(builtin_in_order(i)),
                    builtin_risk(builtin_in_order(i)),
                ) && call_ensures(make, (builtin_in_order(i),), r.entries()[i].1),
    {
        let mut entries: Vec<(ToolSchema, T)> = Vec::new();
        let order: [BuiltinTool; 6] = [
            BuiltinTool::CreateFile,
            BuiltinTool::EditFile,
            BuiltinTool::GetCurrentTime,
            BuiltinTool::ListWorkspaceFiles,
            BuiltinTool::ReadFile,
            BuiltinTool::RunCommand,
        ];
        let mut i: usize = 0;
        while i < 6
            invariant
                i <= 6,
                forall|t: BuiltinTool| call_requires(make, (t,)),
                forall|k: int| 0 <= k < 6 ==> order@[k] == builtin_in_order(k),
                entries@.len() == i,
                forall|k: int|
                    0 <= k < i ==> is_schema(
                        #[trigger] entries@[k].0,
                        builtin_name(builtin_in_order(k)),
                        builtin_description(builtin_in_order(k)),
                        builtin_parameters(builtin_in_order(k)),
                        builtin_risk(builtin_in_order(k)),
                    ) && call_ensures(make, (builtin_in_order(k),), entries@[k].1),
            decreases 6 - i,
        {
            let tool = order[i];
            let schema = tool.schema();
            let value = make(tool);
            entries.push((schema, value));
            i = i + 1;
        }
        let r = ToolRegistry { entries };
        proof {
            reveal_strlit("create_file");
            reveal_strlit("edit_file");
            reveal_strlit("get_current_time");
            reveal_strlit("list_workspace_files");
            reveal_strlit("read_file");
            reveal_strlit("run_command");
            reveal_with_fuel(text_less, 2);
            let names = Seq::new(6, |k: int| r.entries@[k].0.name@);
            assert(text_less(names[0], names[1]));
            assert(text_less(names[1], names[2]));
            assert(text_less(names[2], names[3]));
            assert(text_less(names[3], names[4]));
            assert(text_less(names[4], names[5]));
            assert forall|a: int, b: int| 0 <= a < b < r.entries().len() implies text_less(
                #[trigger] r.entries()[a].0.name@,
                #[trigger] r.entries()[b].0.name@,
            ) by {
                lemma_ordered_chain(names, a, b);
            }
        }
        r
    }
}

/// Captured output never grows past the capture limit: what a chunk adds
/// to output within the limit keeps it within the limit.
pub proof fn law_capture_stays_within_limit(have: nat, chunk: nat)
    requires
        have <= MAX_CAPTURED_OUTPUT_BYTES,
    ensures
        have + captured_len(have, chunk) <= MAX_CAPTURED_OUTPUT_BYTES,
        captured_len(have, chunk) < chunk ==> have + captured_len(have, chunk)
            == MAX_CAPTURED_OUTPUT_BYTES,
{
}

} // verus!
