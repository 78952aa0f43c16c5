//! Saved sessions: the checks a session state must pass before it is
//! stored, the defaults of missing settings, the audit record of a tool
//! call, and the schema versions still to apply.

use vstd::prelude::*;
use crate::json::JsonValue;
use crate::ollama::{
    float_bits_in_range, spec_execution_status, unix_timestamp, execution_status, ONE_BITS,
    TWO_BITS, NEGATIVE_ZERO_BITS,
};
use crate::tool_loop::{is_timestamp, ToolCallEvent};
use crate::text::{concat2, concat3, str_eq};
use crate::tools::opt_text;

verus! {

/// The audit record of a tool call.
#[derive(Clone, Debug)]
pub struct ToolAuditRecord {
    pub id: String,
    pub session_id: String,
    pub tool_name: String,
    pub arguments_summary: String,
    pub approval_status: String,
    pub execution_status: String,
    pub created_at: String,
}

/// The audit record of a reported tool call in session `session_id`; its
/// execution status is read from the call's result and approval status.
pub fn audit_record(event: &ToolCallEvent, session_id: &str) -> (r: ToolAuditRecord)
    ensures
        r.id@ == event.id@,
        r.session_id@ == session_id@,
        r.tool_name@ == event.tool_name@,
        r.arguments_summary@ == event.arguments_summary@,
        r.approval_status@ == event.approval_status@,
        r.execution_status@ == spec_execution_status(event.result, event.approval_status@),
        r.created_at@ == event.created_at@,
{
    ToolAuditRecord {
        id: event.id.clone(),
        session_id: session_id.to_owned(),
        tool_name: event.tool_name.clone(),
        arguments_summary: event.arguments_summary.clone(),
        approval_status: event.approval_status.clone(),
        execution_status: String::from_str(execution_status(&event.result, event.approval_status.as_str())),
        created_at: event.created_at.clone(),
    }
}

/// A saved message as the checks read it: its id and role.
pub struct MessageCheck {
    pub id: String,
    pub role: String,
}

/// A saved session as the checks read it: its id, its sampling settings
/// (the floats by their bit patterns) and its messages.
pub struct SessionCheck {
    pub id: String,
    pub temperature_bits: u64,
    pub top_p_bits: u64,
    pub num_ctx: i64,
    pub messages: Vec<MessageCheck>,
}

/// Whether a message's id is empty, repeats an earlier one, or its role is
/// neither `user` nor `assistant`.
pub open spec fn message_invalid(messages: Seq<MessageCheck>, i: int) -> bool {
    ||| messages[i].id@.len() == 0
    ||| exists|j: int| 0 <= j < i && messages[j].id@ == messages[i].id@
    ||| (messages[i].role@ != "user"@ && messages[i].role@ != "assistant"@)
}

/// Whether a session's id is empty or repeats an earlier session's.
pub open spec fn session_id_invalid(sessions: Seq<SessionCheck>, i: int) -> bool {
    ||| sessions[i].id@.len() == 0
    ||| exists|j: int| 0 <= j < i && sessions[j].id@ == sessions[i].id@
}

/// Whether a session's settings are out of range.
pub open spec fn settings_invalid(s: SessionCheck) -> bool {
    ||| !float_bits_in_range(s.temperature_bits, TWO_BITS)
    ||| !float_bits_in_range(s.top_p_bits, ONE_BITS)
    ||| !(256 <= s.num_ctx && s.num_ctx <= 131072)
}

/// Whether some message of a session is invalid.
pub open spec fn messages_invalid(s: SessionCheck) -> bool {
    exists|i: int| 0 <= i < s.messages@.len() && message_invalid(s.messages@, i)
}

/// Whether a session fails a check.
pub open spec fn session_invalid(sessions: Seq<SessionCheck>, i: int) -> bool {
    session_id_invalid(sessions, i) || settings_invalid(sessions[i]) || messages_invalid(sessions[i])
}

/// The error for the first session that fails a check, in the order of the checks.
pub open spec fn session_error(sessions: Seq<SessionCheck>, i: int) -> Seq<char> {
    if session_id_invalid(sessions, i) {
        "Saved session data contains duplicate or empty session IDs."@
    } else if settings_invalid(sessions[i]) {
        "Saved settings for session '"@ + sessions[i].id@ + "' are invalid."@
    } else {
        "Saved messages for session '"@ + sessions[i].id@ + "' are invalid."@
    }
}

/// What checking a session state gives: the error of the first invalid
/// session; else an error when the active session is not among them.
pub open spec fn spec_validate_state(sessions: Seq<SessionCheck>, active_session_id: Option<
    Seq<char>,
>) -> Result<(), Seq<char>> {
    if exists|i: int| 0 <= i < sessions.len() && session_invalid(sessions, i) {
        let i = choose|i: int|
            0 <= i < sessions.len() && session_invalid(sessions, i) && forall|j: int|
                0 <= j < i ==> !session_invalid(sessions, j);
        Err(session_error(sessions, i))
    } else {
        match active_session_id {
            Some(id) => if exists|i: int| 0 <= i < sessions.len() && sessions[i].id@ == id {
                Ok(())
            } else {
                Err("Saved session data contains an invalid active session reference."@)
            },
            None => Ok(()),
        }
    }
}

/// A state whose sessions all pass the checks is accepted with no active
/// session, and with any one of its sessions active, wherever that session
/// stands among them.
pub proof fn law_any_saved_session_may_be_active(sessions: Seq<SessionCheck>, k: int)
    requires
        forall|i: int| 0 <= i < sessions.len() ==> !session_invalid(sessions, i),
        0 <= k < sessions.len(),
    ensures
        spec_validate_state(sessions, None) == Ok::<(), Seq<char>>(()),
        spec_validate_state(sessions, Some(sessions[k].id@)) == Ok::<(), Seq<char>>(()),
{
}

/// A state whose sessions all pass the checks is refused when its active
/// session is none of them.
pub proof fn law_active_session_must_be_saved(sessions: Seq<SessionCheck>, id: Seq<char>)
    requires
        forall|i: int| 0 <= i < sessions.len() ==> !session_invalid(sessions, i),
        forall|i: int| 0 <= i < sessions.len() ==> sessions[i].id@ != id,
    ensures
        spec_validate_state(sessions, Some(id)) == Err::<(), Seq<char>>(
            "Saved session data contains an invalid active session reference."@,
        ),
{
}

fn repeats_earlier_session(sessions: &Vec<SessionCheck>, i: usize) -> (r: bool)
    requires
        i < sessions@.len(),
    ensures
        r == exists|j: int| 0 <= j < i && sessions@[j].id@ == sessions@[i as int].id@,
{
    let mut j: usize = 0;
    while j < i
        invariant
            i < sessions@.len(),
            j <= i,
            forall|k: int| 0 <= k < j ==> sessions@[k].id@ != sessions@[i as int].id@,
        decreases i - j,
    {
        if str_eq(sessions[j].id.as_str(), sessions[i].id.as_str()) {
            return true;
        }
        j = j + 1;
    }
    false
}

fn repeats_earlier_message(messages: &Vec<MessageCheck>, i: usize) -> (r: bool)
    requires
        i < messages@.len(),
    ensures
        r == exists|j: int| 0 <= j < i && messages@[j].id@ == messages@[i as int].id@,
{
    let mut j: usize = 0;
    while j < i
        invariant
            i < messages@.len(),
            j <= i,
            forall|k: int| 0 <= k < j ==> messages@[k].id@ != messages@[i as int].id@,
        decreases i - j,
    {
        if str_eq(messages[j].id.as_str(), messages[i].id.as_str()) {
            return true;
        }
        j = j + 1;
    }
    false
}

fn messages_ok(messages: &Vec<MessageCheck>) -> (r: bool)
    ensures
        r == !exists|i: int| 0 <= i < messages@.len() && message_invalid(messages@, i),
{
    let n = messages.len();
    let mut i: usize = 0;
    while i < n
        invariant
            n == messages@.len(),
            i <= n,
            forall|k: int| 0 <= k < i ==> !message_invalid(messages@, k),
        decreases n - i,
    {
        let repeated = repeats_earlier_message(messages, i);
        let bad_role = !str_eq(messages[i].role.as_str(), "user") && !str_eq(
            messages[i].role.as_str(),
            "assistant",
        );
        if messages[i].id.as_str().is_empty() || repeated || bad_role {
            assert(message_invalid(messages@, i as int));
            return false;
        }
        i = i + 1;
    }
    true
}

fn check_session(sessions: &Vec<SessionCheck>, i: usize) -> (r: Option<String>)
    requires
        i < sessions@.len(),
    ensures
        match r {
            Some(e) => session_invalid(sessions@, i as int) && e@ == session_error(sessions@, i as int),
            None => !session_invalid(sessions@, i as int),
        },
{
    let s = &sessions[i];
    let repeated = repeats_earlier_session(sessions, i);
    if s.id.as_str().is_empty() || repeated {
        return Some(String::from_str("Saved session data contains duplicate or empty session IDs."));
    }
    if !(s.temperature_bits == NEGATIVE_ZERO_BITS || s.temperature_bits <= TWO_BITS) || !(
    s.top_p_bits == NEGATIVE_ZERO_BITS || s.top_p_bits <= ONE_BITS) || !(256 <= s.num_ctx
        && s.num_ctx <= 131072) {
        return Some(concat3("Saved settings for session '", s.id.as_str(), "' are invalid."));
    }
    if !messages_ok(&s.messages) {
        return Some(concat3("Saved messages for session '", s.id.as_str(), "' are invalid."));
    }
    None
}

/// Checks a session state before it is stored: unique non-empty session
/// ids, settings in range, unique non-empty message ids with a `user` or
/// `assistant` role, and an active session that exists.
pub fn validate_state(sessions: &Vec<SessionCheck>, active_session_id: &Option<String>) -> (r: Result<
    (),
    String,
>)
    ensures
        match r {
            Ok(_) => spec_validate_state(sessions@, opt_text(*active_session_id)) is Ok,
            Err(e) => spec_validate_state(sessions@, opt_text(*active_session_id)) == Err::<(), Seq<char>>(e@),
        },
{
    let n = sessions.len();
    let mut i: usize = 0;
    while i < n
        invariant
            n == sessions@.len(),
            i <= n,
            forall|k: int| 0 <= k < i ==> !session_invalid(sessions@, k),
        decreases n - i,
    {
        if let Some(e) = check_session(sessions, i) {
            proof {
                let c = choose|c: int|
                    0 <= c < sessions@.len() && session_invalid(sessions@, c) && forall|j: int|
                        0 <= j < c ==> !session_invalid(sessions@, j);
                assert(0 <= i < sessions@.len() && session_invalid(sessions@, i as int) && forall|
                    j: int,
                | 0 <= j < i ==> !session_invalid(sessions@, j));
                if c > i {
                    assert(!session_invalid(sessions@, i as int));
                }
                assert(c == i);
            }
            return Err(e);
        }
        i = i + 1;
    }
    match active_session_id {
        Some(id) => {
            let mut k: usize = 0;
            while k < n
                invariant
                    n == sessions@.len(),
                    k <= n,
                    forall|j: int| 0 <= j < k ==> sessions@[j].id@ != id@,
                    forall|j: int| 0 <= j < n ==> !session_invalid(sessions@, j),
                    opt_text(*active_session_id) == Some(id@),
                decreases n - k,
            {
                if str_eq(sessions[k].id.as_str(), id.as_str()) {
                    assert(sessions@[k as int].id@ == id@);
                    assert(!exists|c: int| 0 <= c < sessions@.len() && session_invalid(sessions@, c));
                    assert(exists|c: int| 0 <= c < sessions@.len() && sessions@[c].id@ == id@);
                    return Ok(());
                }
                k = k + 1;
            }
            Err(String::from_str("Saved session data contains an invalid active session reference."))
        },
        None => Ok(()),
    }
}

/// A message's timestamp, or the current time when it has none.
pub fn nonempty_timestamp(timestamp: &str) -> (r: String)
    ensures
        timestamp@.len() > 0 ==> r@ == timestamp@,
        timestamp@.len() == 0 ==> is_timestamp(r@),
{
    if timestamp.is_empty() {
        unix_timestamp()
    } else {
        timestamp.to_owned()
    }
}

/// The text of a storage error.
pub fn storage_error(error: &str) -> (r: String)
    ensures
        r@ == "SQLite persistence error: "@ + error@,
{
    concat2("SQLite persistence error: ", error)
}

/// The Ollama endpoint of a state that names none.
pub fn default_ollama_endpoint() -> (r: String)
    ensures
        r@ == "http://localhost:11434"@,
{
    String::from_str("http://localhost:11434")
}

/// Whether Ollama is installed automatically when a state does not say.
pub fn default_auto_install_ollama() -> (r: bool)
    ensures
        r,
{
    true
}

/// The context length of saved settings that name none.
pub fn default_num_ctx() -> (r: i64)
    ensures
        r == 4096,
{
    4096
}

/// The stored text of a boolean setting.
pub fn bool_text(b: bool) -> (r: &'static str)
    ensures
        r@ == if b {
            "true"@
        } else {
            "false"@
        },
{
    if b {
        "true"
    } else {
        "false"
    }
}

/// What the stored auto-install setting says: `true` when there is none,
/// and an error for text that is neither `true` nor `false` (as
/// `str::parse::<bool>` reads it).
pub open spec fn spec_auto_install(value: Option<Seq<char>>) -> Result<bool, Seq<char>> {
    match value {
        None => Ok(true),
        Some(v) => if v == "true"@ {
            Ok(true)
        } else if v == "false"@ {
            Ok(false)
        } else {
            Err(
                "SQLite persistence error: invalid auto-install setting: provided string was not `true` or `false`"@,
            )
        },
    }
}

/// Reads the stored auto-install setting.
pub fn auto_install_setting(value: Option<&str>) -> (r: Result<bool, String>)
    ensures
        match r {
            Ok(b) => spec_auto_install(
                match value {
                    Some(v) => Some(v@),
                    None => None,
                },
            ) == Ok::<bool, Seq<char>>(b),
            Err(e) => spec_auto_install(
                match value {
                    Some(v) => Some(v@),
                    None => None,
                },
            ) == Err::<bool, Seq<char>>(e@),
        },
{
    match value {
        None => Ok(true),
        Some(v) => if str_eq(v, "true") {
            Ok(true)
        } else if str_eq(v, "false") {
            Ok(false)
        } else {
            Err(
                String::from_str(
                    "SQLite persistence error: invalid auto-install setting: provided string was not `true` or `false`",
                ),
            )
        },
    }
}

/// The schema versions the migrations bring, in order.
pub const SCHEMA_VERSIONS: [i64; 2] = [1, 2];

/// The schema versions still to apply to a database at `current_version`, in order.
pub fn pending_migrations(current_version: i64) -> (r: Vec<i64>)
    ensures
        r@ == seq![1i64, 2i64].filter(|v: i64| v > current_version),
{
    let mut out: Vec<i64> = Vec::new();
    if 1 > current_version {
        out.push(1);
    }
    if 2 > current_version {
        out.push(2);
    }
    proof {
        reveal_with_fuel(Seq::filter, 3);
        assert(seq![1i64, 2i64].drop_last() =~= seq![1i64]);
        assert(seq![1i64].drop_last() =~= Seq::<i64>::empty());
    }
    out
}

/// Whether saved data from before the database should be imported: only
/// into a database without sessions, and only when there is such data.
pub fn imports_legacy_data(session_count: i64, has_legacy_data: bool) -> (r: bool)
    ensures
        r == (session_count == 0 && has_legacy_data),
{
    session_count == 0 && has_legacy_data
}

/// The audit record of access to a path outside the workspace, granted by
/// the approval `approval_id` with `approval_status`.
pub fn path_access_record(
    approval_id: &str,
    session_id: &str,
    tool_name: &str,
    arguments_summary: &str,
    approval_status: &str,
    created_at: &str,
) -> (r: ToolAuditRecord)
    ensures
        r.id@ == approval_id@ + "-path-access"@,
        r.session_id@ == session_id@,
        r.tool_name@ == tool_name@,
        r.arguments_summary@ == arguments_summary@,
        r.approval_status@ == approval_status@,
        r.execution_status@ == "authorized"@,
        r.created_at@ == created_at@,
{
    ToolAuditRecord {
        id: concat2(approval_id, "-path-access"),
        session_id: session_id.to_owned(),
        tool_name: tool_name.to_owned(),
        arguments_summary: arguments_summary.to_owned(),
        approval_status: approval_status.to_owned(),
        execution_status: String::from_str("authorized"),
        created_at: created_at.to_owned(),
    }
}

} // verus!
