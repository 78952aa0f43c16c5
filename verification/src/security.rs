//! A first-layer deny-list of destructive shell commands. The patterns are
//! deliberately conservative; they are no substitute for an OS sandbox.

use vstd::prelude::*;
use crate::text::{concat2, concat3};

verus! {

/// The number of deny-list patterns.
pub const BLOCKED_PATTERN_COUNT: usize = 11;

/// The deny-list entry at `i`: a regular expression and the reason it gives.
pub open spec fn blocked_pattern(i: int) -> (Seq<char>, Seq<char>) {
    if i == 0 {
        (
            "(?i)\\brm\\s+-(?:[^\\s]*r[^\\s]*f|[^\\s]*f[^\\s]*r)\\s+(?:/|/\\*|--no-preserve-root)"@,
            "recursive deletion of a filesystem root"@,
        )
    } else if i == 1 {
        ("(?i)\\bformat(?:\\.com)?\\s+[a-z]:"@, "formatting a drive"@)
    } else if i == 2 {
        (
            "(?i)\\b(?:diskpart|diskutil)\\b.*\\b(?:clean|eraseDisk|eraseVolume)\\b"@,
            "erasing a disk or volume"@,
        )
    } else if i == 3 {
        (
            "(?i)\\bdd\\s+.*\\bof\\s*=\\s*/dev/(?:sd[a-z]|nvme|vd[a-z]|hd[a-z])"@,
            "writing directly to a disk device"@,
        )
    } else if i == 4 {
        ("(?i)\\bmkfs(?:\\.\\w+)?\\b"@, "creating a filesystem"@)
    } else if i == 5 {
        ("(?i)\\b(?:shred|wipefs|sdelete(?:64)?)\\b"@, "securely erasing files or disks"@)
    } else if i == 6 {
        ("(?i):\\s*\\(\\s*\\)\\s*\\{\\s*:\\s*\\|\\s*:\\s*&\\s*\\}\\s*;\\s*:"@, "a shell fork bomb"@)
    } else if i == 7 {
        ("(?i)\\b(?:shutdown|reboot|poweroff)\\b"@, "shutting down or restarting the system"@)
    } else if i == 8 {
        (
            "(?i)\\bgit\\s+clean\\s+-[^\\s]*f[^\\s]*d"@,
            "forcibly deleting untracked repository files"@,
        )
    } else if i == 9 {
        (
            "(?i)\\bremove-item\\b.*-(?:recurse|r)\\b.*-(?:force|f)\\b.*[a-z]:\\\\"@,
            "recursive forced deletion from a Windows drive"@,
        )
    } else {
        (
            "(?i)\\b(?:del|erase|rd|rmdir)\\s+/[sq][^\\r\\n]*[a-z]:\\\\"@,
            "recursive deletion from a Windows drive"@,
        )
    }
}

/// The deny-list entry at `i`: a regular expression and the reason it gives.
pub fn blocked_pattern_at(i: usize) -> (r: (&'static str, &'static str))
    requires
        i < BLOCKED_PATTERN_COUNT,
    ensures
        (r.0@, r.1@) == blocked_pattern(i as int),
{
    if i == 0 {
        (
            "(?i)\\brm\\s+-(?:[^\\s]*r[^\\s]*f|[^\\s]*f[^\\s]*r)\\s+(?:/|/\\*|--no-preserve-root)",
            "recursive deletion of a filesystem root",
        )
    } else if i == 1 {
        ("(?i)\\bformat(?:\\.com)?\\s+[a-z]:", "formatting a drive")
    } else if i == 2 {
        (
            "(?i)\\b(?:diskpart|diskutil)\\b.*\\b(?:clean|eraseDisk|eraseVolume)\\b",
            "erasing a disk or volume",
        )
    } else if i == 3 {
        (
            "(?i)\\bdd\\s+.*\\bof\\s*=\\s*/dev/(?:sd[a-z]|nvme|vd[a-z]|hd[a-z])",
            "writing directly to a disk device",
        )
    } else if i == 4 {
        ("(?i)\\bmkfs(?:\\.\\w+)?\\b", "creating a filesystem")
    } else if i == 5 {
        ("(?i)\\b(?:shred|wipefs|sdelete(?:64)?)\\b", "securely erasing files or disks")
    } else if i == 6 {
        ("(?i):\\s*\\(\\s*\\)\\s*\\{\\s*:\\s*\\|\\s*:\\s*&\\s*\\}\\s*;\\s*:", "a shell fork bomb")
    } else if i == 7 {
        ("(?i)\\b(?:shutdown|reboot|poweroff)\\b", "shutting down or restarting the system")
    } else if i == 8 {
        ("(?i)\\bgit\\s+clean\\s+-[^\\s]*f[^\\s]*d", "forcibly deleting untracked repository files")
    } else if i == 9 {
        (
            "(?i)\\bremove-item\\b.*-(?:recurse|r)\\b.*-(?:force|f)\\b.*[a-z]:\\\\",
            "recursive forced deletion from a Windows drive",
        )
    } else {
        (
            "(?i)\\b(?:del|erase|rd|rmdir)\\s+/[sq][^\\r\\n]*[a-z]:\\\\",
            "recursive deletion from a Windows drive",
        )
    }
}

/// The deny-list as a vector of (pattern, reason) pairs, in checking order.
pub fn blocked_command_patterns() -> (r: Vec<(&'static str, &'static str)>)
    ensures
        r@.len() == BLOCKED_PATTERN_COUNT,
        forall|i: int| 0 <= i < BLOCKED_PATTERN_COUNT ==> (#[trigger] r@[i].0@, r@[i].1@) == blocked_pattern(i),
{
    let mut v: Vec<(&'static str, &'static str)> = Vec::new();
    let mut i: usize = 0;
    while i < BLOCKED_PATTERN_COUNT
        invariant
            i <= BLOCKED_PATTERN_COUNT,
            v@.len() == i,
            forall|k: int| 0 <= k < i ==> (#[trigger] v@[k].0@, v@[k].1@) == blocked_pattern(k),
        decreases BLOCKED_PATTERN_COUNT - i,
    {
        v.push(blocked_pattern_at(i));
        i = i + 1;
    }
    v
}

/// Whether `regex::Regex::new` accepts a pattern, or the text of its error.
pub uninterp spec fn regex_compile(pattern: Seq<char>) -> Result<(), Seq<char>>;

/// What `regex::Regex::is_match` answers for a pattern and a text.
pub uninterp spec fn regex_is_match(pattern: Seq<char>, text: Seq<char>) -> bool;

/// `regex::Regex`, carried by a compiled search expression.
#[verifier::external_type_specification]
#[verifier::external_body]
pub struct ExRegex(regex::Regex);

/// A regular expression compiled from its source text.
pub struct SearchExpression {
    source: String,
    compiled: regex::Regex,
}

impl SearchExpression {
    /// The text the expression was compiled from.
    pub closed spec fn source(&self) -> Seq<char> {
        self.source@
    }

    /// `regex::Regex::new`: compiles `pattern`. The contract claims that the
    /// outcome is the one named `regex_compile` for the pattern (its error
    /// text when it does not compile), and that the expression keeps the pattern.
    #[verifier::external_body]
    pub(crate) fn compile(pattern: &str) -> (r: Result<SearchExpression, String>)
        ensures
            match r {
                Ok(e) => regex_compile(pattern@) == Ok::<(), Seq<char>>(()) && e.source() == pattern@,
                Err(msg) => regex_compile(pattern@) == Err::<(), Seq<char>>(msg@),
            },
    {
        match regex::Regex::new(pattern) {
            Ok(compiled) => Ok(SearchExpression { source: pattern.to_owned(), compiled }),
            Err(error) => Err(error.to_string()),
        }
    }

    /// `regex::Regex::is_match`: whether the expression matches somewhere in
    /// `text`. The contract claims the answer named `regex_is_match` for the
    /// expression's source and the text.
    #[verifier::external_body]
    pub fn is_match(&self, text: &str) -> (r: bool)
        ensures
            r == regex_is_match(self.source(), text@),
    {
        self.compiled.is_match(text)
    }
}

/// Whether a character has a meaning in a regular expression
/// (`regex_syntax::is_meta_character`).
pub open spec fn is_meta_character(c: char) -> bool {
    c == '\\' || c == '.' || c == '+' || c == '*' || c == '?' || c == '(' || c == ')' || c == '|'
        || c == '[' || c == ']' || c == '{' || c == '}' || c == '^' || c == '$' || c == '#'
        || c == '&' || c == '-' || c == '~'
}

/// What `regex::escape` gives for a text: each character, with a backslash
/// before each meta character.
pub open spec fn regex_escaped(text: Seq<char>) -> Seq<char>
    decreases text.len(),
{
    if text.len() == 0 {
        Seq::empty()
    } else {
        let c = text.last();
        regex_escaped(text.drop_last()) + if is_meta_character(c) {
            seq!['\\', c]
        } else {
            seq![c]
        }
    }
}

/// `regex::escape`: the pattern that matches `text` literally, each meta
/// character preceded by a backslash (`regex_syntax::escape_into`). That it
/// always compiles, which the crate documents, is not claimed.
#[verifier::external_body]
pub(crate) fn escape_literal(text: &str) -> (r: String)
    ensures
        r@ == regex_escaped(text@),
{
    regex::escape(text)
}

/// The outcome of checking `command` against the deny-list from entry `i` on:
/// the reason of the first entry that matches, nothing when none does, or the
/// error of the first entry whose pattern does not compile.
pub open spec fn blocked_from(i: nat, command: Seq<char>) -> Result<Option<Seq<char>>, Seq<char>>
    decreases BLOCKED_PATTERN_COUNT - i,
{
    if i >= BLOCKED_PATTERN_COUNT {
        Ok(None)
    } else {
        let (pattern, reason) = blocked_pattern(i as int);
        match regex_compile(pattern) {
            Err(e) => Err("Invalid dangerous-command pattern '"@ + pattern + "': "@ + e),
            Ok(_) => if regex_is_match(pattern, command) {
                Ok(Some(reason))
            } else {
                blocked_from(i + 1, command)
            },
        }
    }
}

/// The view of a deny-list verdict.
pub open spec fn verdict_view(r: Result<Option<&'static str>, String>) -> Result<
    Option<Seq<char>>,
    Seq<char>,
> {
    match r {
        Ok(Some(reason)) => Ok(Some(reason@)),
        Ok(None) => Ok(None),
        Err(e) => Err(e@),
    }
}

/// The reason the first matching deny-list entry gives for `command`, or
/// `None` when no entry matches.
pub fn blocked_command_reason(command: &str) -> (r: Result<Option<&'static str>, String>)
    ensures
        verdict_view(r) == blocked_from(0, command@),
{
    let mut i: usize = 0;
    while i < BLOCKED_PATTERN_COUNT
        invariant
            i <= BLOCKED_PATTERN_COUNT,
            blocked_from(0, command@) == blocked_from(i as nat, command@),
        decreases BLOCKED_PATTERN_COUNT - i,
    {
        let (pattern, reason) = blocked_pattern_at(i);
        match SearchExpression::compile(pattern) {
            Err(error) => {
                let head = concat3("Invalid dangerous-command pattern '", pattern, "': ");
                return Err(concat2(head.as_str(), error.as_str()));
            },
            Ok(expression) => {
                if expression.is_match(command) {
                    return Ok(Some(reason));
                }
            },
        }
        i = i + 1;
    }
    Ok(None)
}

} // verus!
