//! Workspace search: the search tools' schemas, the checks on their
//! arguments, which folders are skipped, how lines are cut and files are
//! split into chunks, and how matching lines are collected with context.

use vstd::prelude::*;
use crate::json::{
    json_view, object_schema, object_schema_spec, param, param_spec, JsonMembers, JsonSpec, JsonValue,
};
use crate::security::{escape_literal, regex_compile, regex_escaped, regex_is_match, SearchExpression};
use crate::text::{
    concat2, concat3, join_strings, join_with, lines_of, push_char, starts_with_seq, str_eq,
    string_texts, strip_trailing, take_chars, text_lines, trim, trim_end_char, trim_ws,
};
use crate::tools::{
    is_schema, RiskLevel, ToolSchema, argument_bool, argument_string, spec_argument_bool, spec_argument_string, str_result,
};
use crate::workspace::{joined, strip_workspace_root, texts, within};

verus! {

/// The embedding model used when none is configured.
pub const DEFAULT_EMBEDDING_MODEL: &'static str = "nomic-embed-text";

/// The folder of the semantic index, inside the workspace.
pub const INDEX_DIRECTORY: &'static str = ".legion";

/// The file of the semantic index.
pub const INDEX_FILE: &'static str = "semantic-index.json";

/// The most files a search looks at.
pub const MAX_FILES_SCANNED: usize = 20000;

/// The most files indexing looks at.
pub const MAX_INDEX_FILES: usize = 5000;

/// Larger files are skipped, in bytes.
pub const MAX_FILE_BYTES: u64 = 1000000;

/// The most results a search returns.
pub const MAX_RESULTS: usize = 100;

/// The most bytes of encoded grep results.
pub const MAX_GREP_OUTPUT_BYTES: usize = 32768;

/// The most context lines around a match.
pub const MAX_CONTEXT_LINES: usize = 5;

/// Longer lines are cut, in characters.
pub const MAX_LINE_CHARACTERS: usize = 1000;

/// The most bytes of encoded glob results.
pub const MAX_GLOB_OUTPUT_BYTES: usize = 32768;

/// The most lines in a chunk.
pub const CHUNK_LINE_LIMIT: usize = 80;

/// The most characters in a chunk.
pub const CHUNK_CHARACTER_LIMIT: usize = 6000;

/// How many chunks are embedded in one request.
pub const EMBEDDING_BATCH_SIZE: usize = 32;

/// `globset::GlobSet`, carried by a compiled file glob.
#[verifier::external_type_specification]
#[verifier::external_body]
pub struct ExGlobSet(globset::GlobSet);

/// Whether `globset::Glob::new` accepts a pattern, or the text of its error.
/// Like the two names below, it describes globset as compiled for the
/// build's target: globset's one platform dependence, whether `\` is a path
/// separator, is fixed when the crate is compiled, not when it runs.
pub uninterp spec fn glob_parse(pattern: Seq<char>) -> Result<(), Seq<char>>;

/// Whether `globset::GlobSetBuilder::build` builds the set of the one glob
/// parsed from a pattern, or the text of its error (a regular expression
/// over the size or nesting limits).
pub uninterp spec fn glob_set_build(pattern: Seq<char>) -> Result<(), Seq<char>>;

/// What `globset::GlobSet::is_match` answers, for the set of the one glob
/// parsed from a pattern, on a path.
pub uninterp spec fn glob_is_match(pattern: Seq<char>, path: Seq<char>) -> bool;

/// Whether a pattern compiles to a file glob, or the text of the error:
/// first the parse, then the build of its matcher.
pub open spec fn glob_outcome(pattern: Seq<char>) -> Result<(), Seq<char>> {
    match glob_parse(pattern) {
        Err(e) => Err(e),
        Ok(_) => glob_set_build(pattern),
    }
}

/// The most characters of a glob pattern.
pub const MAX_GLOB_CHARS: usize = 0x1000_0000;

/// The deepest nesting of `{…}` groups a glob pattern may have.
pub const MAX_GLOB_NESTING: usize = 1000;

/// A scan of a glob pattern: how many `{` it holds, how many `{` are open
/// at its end and the most ever open (a `}` closes one, when one is open),
/// and whether it holds a `[` or a `\`, which globset reads specially (a
/// class, an escape), so that braces there may not open or close groups.
pub open spec fn glob_scan(p: Seq<char>) -> (nat, nat, nat, bool)
    decreases p.len(),
{
    if p.len() == 0 {
        (0, 0, 0, false)
    } else {
        let (count, open, deepest, special) = glob_scan(p.drop_last());
        let ch = p.last();
        if ch == '{' {
            (count + 1, open + 1, if open + 1 > deepest { (open + 1) as nat } else { deepest }, special)
        } else if ch == '}' {
            (count, if open > 0 { (open - 1) as nat } else { 0 }, deepest, special)
        } else {
            (count, open, deepest, special || ch == '[' || ch == '\\')
        }
    }
}

/// A bound on how deep the `{…}` groups of a pattern nest: the most `{`
/// ever open when the pattern has no `[` or `\`, otherwise the number of
/// `{`.
pub open spec fn glob_nesting_bound(p: Seq<char>) -> nat {
    let (count, open, deepest, special) = glob_scan(p);
    if special {
        count
    } else {
        deepest
    }
}

/// Whether a glob pattern is within the limits under which globset returns:
/// it parses, turns into a regular expression and drops nested alternates
/// recursively, one level per nested group, and builds a literal matcher
/// whose states must stay under 2^31.
pub open spec fn glob_pattern_fits(p: Seq<char>) -> bool {
    p.len() < MAX_GLOB_CHARS && glob_nesting_bound(p) <= MAX_GLOB_NESTING
}

/// Whether the string argument `key`, when there is one, is a glob pattern
/// within the limits.
pub open spec fn glob_argument_fits(arguments: JsonValue, key: Seq<char>) -> bool {
    match arguments.spec_get(key) {
        Some(v) => match v.spec_as_str() {
            Some(p) => glob_pattern_fits(p),
            None => true,
        },
        None => true,
    }
}

/// Whether a glob pattern is within the limits.
pub fn glob_within_limits(p: &str) -> (r: bool)
    ensures
        r == glob_pattern_fits(p@),
{
    let n = p.unicode_len();
    if n >= MAX_GLOB_CHARS {
        return false;
    }
    let mut count: usize = 0;
    let mut open: usize = 0;
    let mut deepest: usize = 0;
    let mut special = false;
    let mut i: usize = 0;
    while i < n
        invariant
            n == p@.len(),
            n < MAX_GLOB_CHARS,
            i <= n,
            glob_scan(p@.take(i as int)) == (count as nat, open as nat, deepest as nat, special),
            count <= i,
            open <= i,
            deepest <= i,
        decreases n - i,
    {
        proof {
            assert(p@.take(i + 1).drop_last() =~= p@.take(i as int));
        }
        let ch = p.get_char(i);
        if ch == '{' {
            count = count + 1;
            open = open + 1;
            if open > deepest {
                deepest = open;
            }
        } else if ch == '}' {
            if open > 0 {
                open = open - 1;
            }
        } else if ch == '[' || ch == '\\' {
            special = true;
        }
        i = i + 1;
    }
    proof {
        assert(p@.take(n as int) =~= p@);
    }
    if special {
        count <= MAX_GLOB_NESTING
    } else {
        deepest <= MAX_GLOB_NESTING
    }
}

/// Whether the string argument `key`, when there is one, is a glob pattern
/// within the limits.
pub fn glob_argument_within_limits(arguments: &JsonValue, key: &str) -> (r: bool)
    ensures
        r == glob_argument_fits(*arguments, key@),
{
    match arguments.get(key) {
        Some(v) => match v.as_str() {
            Some(p) => glob_within_limits(p),
            None => true,
        },
        None => true,
    }
}

/// A file glob compiled from its pattern.
pub struct FileGlob {
    pattern: String,
    matcher: globset::GlobSet,
}

impl FileGlob {
    /// The pattern the glob was compiled from.
    pub closed spec fn pattern(&self) -> Seq<char> {
        self.pattern@
    }

    /// `globset::Glob::new`, then `GlobSetBuilder::new().add(glob).build()`.
    /// The contract claims the outcomes named `glob_parse` and
    /// `glob_set_build` for the pattern, and that the glob keeps it. Beyond
    /// the limits of `glob_pattern_fits` globset recurses without bound or
    /// unwraps a failed literal matcher, so those patterns are left out.
    #[verifier::external_body]
    pub(crate) fn new(pattern: &str) -> (r: Result<FileGlob, String>)
        requires
            glob_pattern_fits(pattern@),
        ensures
            match r {
                Ok(g) => {
                    &&& glob_parse(pattern@) == Ok::<(), Seq<char>>(())
                    &&& glob_set_build(pattern@) == Ok::<(), Seq<char>>(())
                    &&& g.pattern() == pattern@
                },
                Err(e) => match glob_parse(pattern@) {
                    Err(m) => m == e@,
                    Ok(_) => glob_set_build(pattern@) == Err::<(), Seq<char>>(e@),
                },
            },
    {
        match globset::Glob::new(pattern) {
            Ok(glob) => match globset::GlobSetBuilder::new().add(glob).build() {
                Ok(set) => Ok(FileGlob { pattern: pattern.to_owned(), matcher: set }),
                Err(error) => Err(error.to_string()),
            },
            Err(error) => Err(error.to_string()),
        }
    }

    /// `globset::GlobSet::is_match`: whether a relative path matches.
    /// The contract claims the answer named `glob_is_match` for the pattern and path.
    #[verifier::external_body]
    pub fn is_match(&self, path: &str) -> (r: bool)
        ensures
            r == glob_is_match(self.pattern(), path@),
    {
        self.matcher.is_match(path)
    }
}

/// The string argument named `key` of a search call.
pub fn required_string<'a>(arguments: &'a JsonValue, key: &str) -> (r: Result<&'a str, String>)
    ensures
        str_result(r) == spec_argument_string(*arguments, key@),
{
    argument_string(arguments, key)
}

/// The boolean argument named `key` of a search call, or `default`.
pub fn optional_bool(arguments: &JsonValue, key: &str, default: bool) -> (r: Result<bool, String>)
    ensures
        match r {
            Ok(b) => spec_argument_bool(*arguments, key@, default) == Ok::<bool, Seq<char>>(b),
            Err(e) => spec_argument_bool(*arguments, key@, default) == Err::<bool, Seq<char>>(e@),
        },
{
    argument_bool(arguments, key, default)
}

/// The count argument named `key`, `default` when it is missing, or the
/// error that names it.
pub open spec fn spec_optional_usize(arguments: JsonValue, key: Seq<char>, default: usize) -> Result<
    usize,
    Seq<char>,
> {
    match arguments.spec_get(key) {
        None => Ok(default),
        Some(v) => match v.spec_as_u64() {
            Some(n) => if n <= usize::MAX {
                Ok(n as usize)
            } else {
                Err("Tool argument '"@ + key + "' must be a non-negative integer"@)
            },
            None => Err("Tool argument '"@ + key + "' must be a non-negative integer"@),
        },
    }
}

/// The count argument named `key` of a search call.
pub fn optional_usize(arguments: &JsonValue, key: &str, default: usize) -> (r: Result<
    usize,
    String,
>)
    ensures
        match r {
            Ok(n) => spec_optional_usize(*arguments, key@, default) == Ok::<usize, Seq<char>>(n),
            Err(e) => spec_optional_usize(*arguments, key@, default) == Err::<usize, Seq<char>>(e@),
        },
{
    match arguments.get(key) {
        None => Ok(default),
        Some(v) => match v.as_u64() {
            Some(n) => if n <= usize::MAX as u64 {
                Ok(n as usize)
            } else {
                Err(concat3("Tool argument '", key, "' must be a non-negative integer"))
            },
            None => Err(concat3("Tool argument '", key, "' must be a non-negative integer")),
        },
    }
}

/// What the optional `glob` argument gives: nothing, a glob, or an error.
pub open spec fn spec_optional_glob(arguments: JsonValue) -> Result<Option<Seq<char>>, Seq<char>> {
    match arguments.spec_get("glob"@) {
        None => Ok(None),
        Some(v) => match v.spec_as_str() {
            None => Err("Tool argument 'glob' must be a string"@),
            Some(p) => match glob_outcome(p) {
                Ok(_) => Ok(Some(p)),
                Err(e) => Err("Invalid file glob: "@ + e),
            },
        },
    }
}

/// Compiles the optional `glob` argument of a search call.
pub fn optional_glob(arguments: &JsonValue) -> (r: Result<Option<FileGlob>, String>)
    requires
        glob_argument_fits(*arguments, "glob"@),
    ensures
        match r {
            Ok(Some(g)) => spec_optional_glob(*arguments) == Ok::<Option<Seq<char>>, Seq<char>>(
                Some(g.pattern()),
            ),
            Ok(None) => spec_optional_glob(*arguments) == Ok::<Option<Seq<char>>, Seq<char>>(None),
            Err(e) => spec_optional_glob(*arguments) == Err::<Option<Seq<char>>, Seq<char>>(e@),
        },
{
    match arguments.get("glob") {
        None => Ok(None),
        Some(v) => match v.as_str() {
            None => Err(String::from_str("Tool argument 'glob' must be a string")),
            Some(p) => match FileGlob::new(p) {
                Ok(g) => Ok(Some(g)),
                Err(e) => Err(concat2("Invalid file glob: ", e.as_str())),
            },
        },
    }
}

/// Whether a folder is left out of searches: hidden folders and the usual
/// dependency and build folders.
pub open spec fn spec_is_ignored_directory(name: Seq<char>) -> bool {
    ||| (name.len() > 0 && name[0] == '.')
    ||| name == "node_modules"@
    ||| name == "target"@
    ||| name == "dist"@
    ||| name == "build"@
    ||| name == "vendor"@
}

/// Whether a folder is left out of searches.
pub fn is_ignored_directory(name: &str) -> (r: bool)
    ensures
        r == spec_is_ignored_directory(name@),
{
    (name.unicode_len() > 0 && name.get_char(0) == '.') || str_eq(name, "node_modules") || str_eq(
        name,
        "target",
    ) || str_eq(name, "dist") || str_eq(name, "build") || str_eq(name, "vendor")
}

/// `s` with every backslash turned into a slash.
pub open spec fn with_slashes(s: Seq<char>) -> Seq<char> {
    Seq::new(s.len(), |i: int| if s[i] == '\\' { '/' } else { s[i] })
}

/// Turns the backslashes of a path text into slashes.
pub fn to_slashes(s: &str) -> (r: String)
    ensures
        r@ == with_slashes(s@),
{
    let n = s.unicode_len();
    let mut out = String::new();
    let mut i: usize = 0;
    while i < n
        invariant
            n == s@.len(),
            i <= n,
            out@ =~= with_slashes(s@).take(i as int),
        decreases n - i,
    {
        let c = s.get_char(i);
        push_char(&mut out, if c == '\\' { '/' } else { c });
        i = i + 1;
    }
    proof {
        assert(with_slashes(s@).take(n as int) =~= with_slashes(s@));
    }
    out
}

/// The text of a workspace file's path relative to the workspace folder,
/// with `/` between components; both paths are given by their components.
pub fn relative_path(root: &Vec<String>, path: &Vec<String>) -> (r: Result<String, String>)
    ensures
        within(root@, path@) ==> (r matches Ok(t) && t@ == with_slashes(
            joined(texts(path@.skip(root@.len() as int))),
        )),
        !within(root@, path@) ==> (r matches Err(e) && e@ == "Path escapes the workspace folder"@),
{
    let relative = strip_workspace_root(root, path)?;
    let text = crate::workspace::join_components(&relative);
    Ok(to_slashes(text.as_str()))
}

/// A line cut to 1000 characters, marked when it was longer.
pub open spec fn spec_bounded_line(line: Seq<char>) -> Seq<char> {
    if line.len() > MAX_LINE_CHARACTERS {
        line.take(MAX_LINE_CHARACTERS as int) + "...[line truncated]"@
    } else {
        line
    }
}

/// Cuts a line for search results.
pub fn bounded_line(line: &str) -> (r: String)
    ensures
        r@ == spec_bounded_line(line@),
{
    let head = take_chars(line, MAX_LINE_CHARACTERS);
    if line.unicode_len() > MAX_LINE_CHARACTERS {
        concat2(head.as_str(), "...[line truncated]")
    } else {
        head
    }
}

/// The embedding model a call asks for: its `model` argument, else the
/// configured model, else `nomic-embed-text`; it must not be blank.
pub open spec fn spec_embedding_model(arguments: JsonValue, configured: Option<Seq<char>>) -> Result<
    Seq<char>,
    Seq<char>,
> {
    let chosen: Result<Seq<char>, Seq<char>> = match arguments.spec_get("model"@) {
        Some(v) => match v.spec_as_str() {
            Some(m) => Ok(m),
            None => Err("Tool argument 'model' must be a string"@),
        },
        None => Ok(
            match configured {
                Some(m) => m,
                None => DEFAULT_EMBEDDING_MODEL@,
            },
        ),
    };
    match chosen {
        Err(e) => Err(e),
        Ok(m) => if trim_ws(m).len() == 0 {
            Err("Embedding model name cannot be empty"@)
        } else {
            Ok(m)
        },
    }
}

/// Chooses the embedding model; `configured` is the `LEGION_EMBEDDING_MODEL`
/// setting, if there is one.
pub fn embedding_model(arguments: &JsonValue, configured: Option<&str>) -> (r: Result<
    String,
    String,
>)
    ensures
        match r {
            Ok(m) => spec_embedding_model(
                *arguments,
                match configured {
                    Some(c) => Some(c@),
                    None => None,
                },
            ) == Ok::<Seq<char>, Seq<char>>(m@),
            Err(e) => spec_embedding_model(
                *arguments,
                match configured {
                    Some(c) => Some(c@),
                    None => None,
                },
            ) == Err::<Seq<char>, Seq<char>>(e@),
        },
{
    let model: String = match arguments.get("model") {
        Some(v) => match v.as_str() {
            Some(m) => m.to_owned(),
            None => {
                return Err(String::from_str("Tool argument 'model' must be a string"));
            },
        },
        None => match configured {
            Some(m) => m.to_owned(),
            None => String::from_str(DEFAULT_EMBEDDING_MODEL),
        },
    };
    let trimmed = trim(model.as_str());
    if trimmed.as_str().is_empty() {
        return Err(String::from_str("Embedding model name cannot be empty"));
    }
    Ok(model)
}

/// The Ollama endpoint for embeddings: the configured `OLLAMA_HOST`, else
/// the default, without trailing slashes.
pub fn ollama_endpoint(configured: Option<&str>) -> (r: String)
    ensures
        r@ == strip_trailing(
            match configured {
                Some(c) => c@,
                None => "http://localhost:11434"@,
            },
            '/',
        ),
{
    match configured {
        Some(c) => trim_end_char(c, '/'),
        None => trim_end_char("http://localhost:11434", '/'),
    }
}

/// A piece of a file for the semantic index.
#[derive(Clone, Debug)]
pub struct FileChunk {
    pub path: String,
    pub start_line: usize,
    pub end_line: usize,
    pub content: String,
}

/// A line as it enters a chunk: cut to 6000 characters.
pub open spec fn chunk_line(line: Seq<char>) -> Seq<char> {
    if line.len() > CHUNK_CHARACTER_LIMIT {
        line.take(CHUNK_CHARACTER_LIMIT as int)
    } else {
        line
    }
}

/// Splitting lines into chunks, line by line: the finished chunks (first
/// and last line number, text), the lines of the open chunk, its number of
/// characters and the number of its first line. A chunk is closed before a
/// line when it has 80 lines or the line would take it past 6000 characters.
pub open spec fn chunk_scan(lines: Seq<Seq<char>>) -> (Seq<(nat, nat, Seq<char>)>, Seq<Seq<char>>, nat, nat)
    decreases lines.len(),
{
    if lines.len() == 0 {
        (Seq::empty(), Seq::empty(), 0, 1)
    } else {
        let (chunks, open, characters, start) = chunk_scan(lines.drop_last());
        let index = (lines.len() - 1) as nat;
        let line = chunk_line(lines.last());
        if open.len() > 0 && (open.len() >= CHUNK_LINE_LIMIT || characters + line.len()
            > CHUNK_CHARACTER_LIMIT) {
            (chunks.push((start, index, join_with(open, "\n"@))), seq![line], line.len(), index + 1)
        } else {
            (chunks, open.push(line), characters + line.len(), start)
        }
    }
}

/// The chunks of a file's text.
pub open spec fn file_chunks(content: Seq<char>) -> Seq<(nat, nat, Seq<char>)> {
    let lines = lines_of(content);
    let (chunks, open, characters, start) = chunk_scan(lines);
    if open.len() > 0 {
        chunks.push((start, lines.len(), join_with(open, "\n"@)))
    } else {
        chunks
    }
}

/// The line numbers and text of a chunk.
pub open spec fn chunk_view(c: FileChunk) -> (nat, nat, Seq<char>) {
    (c.start_line as nat, c.end_line as nat, c.content@)
}

proof fn lemma_chunk_scan_bounds(lines: Seq<Seq<char>>)
    ensures
        chunk_scan(lines).2 <= CHUNK_CHARACTER_LIMIT,
        1 <= chunk_scan(lines).3 <= lines.len() + 1,
        chunk_scan(lines).1.len() == 0 ==> chunk_scan(lines).2 == 0,
    decreases lines.len(),
{
    if lines.len() > 0 {
        lemma_chunk_scan_bounds(lines.drop_last());
    }
}

/// Splits a file's text into chunks of at most 80 lines and 6000 characters.
pub fn chunk_file(path: &str, content: &str) -> (r: Vec<FileChunk>)
    ensures
        r@.len() == file_chunks(content@).len(),
        forall|i: int|
            0 <= i < r@.len() ==> (#[trigger] r@[i]).path@ == path@ && chunk_view(r@[i])
                == file_chunks(content@)[i],
{
    let lines = text_lines(content);
    let ghost all = lines_of(content@);
    let n = lines.len();
    let mut chunks: Vec<FileChunk> = Vec::new();
    let mut open: Vec<String> = Vec::new();
    let mut characters: usize = 0;
    let mut start_line: usize = 1;
    let mut index: usize = 0;
    proof {
        assert(all.take(0) =~= Seq::<Seq<char>>::empty());
        assert(string_texts(open@) =~= Seq::<Seq<char>>::empty());
        assert(chunks@.map_values(|c: FileChunk| chunk_view(c)) =~= Seq::<
            (nat, nat, Seq<char>),
        >::empty());
    }
    while index < n
        invariant
            n == lines@.len(),
            string_texts(lines@) == all,
            index <= n,
            chunks@.map_values(|c: FileChunk| chunk_view(c)) == chunk_scan(all.take(index as int)).0,
            string_texts(open@) == chunk_scan(all.take(index as int)).1,
            characters == chunk_scan(all.take(index as int)).2,
            start_line == chunk_scan(all.take(index as int)).3,
            forall|k: int| 0 <= k < chunks@.len() ==> (#[trigger] chunks@[k]).path@ == path@,
        decreases n - index,
    {
        proof {
            lemma_chunk_scan_bounds(all.take(index as int));
            assert(all.take(index + 1).drop_last() =~= all.take(index as int));
            assert(all.take(index + 1).last() == lines@[index as int]@);
        }
        let line = take_chars(lines[index].as_str(), CHUNK_CHARACTER_LIMIT);
        proof {
            let l = lines@[index as int]@;
            if l.len() <= CHUNK_CHARACTER_LIMIT {
                assert(l.take(l.len() as int) =~= l);
            }
            assert(line@ == chunk_line(l));
        }
        let size = line.as_str().unicode_len();
        if open.len() > 0 && (open.len() >= CHUNK_LINE_LIMIT || characters + size
            > CHUNK_CHARACTER_LIMIT) {
            let text = join_strings(&open, "\n");
            let ghost before = chunks@;
            chunks.push(FileChunk { path: path.to_owned(), start_line, end_line: index, content: text });
            proof {
                assert(chunks@.map_values(|c: FileChunk| chunk_view(c)) =~= before.map_values(
                    |c: FileChunk| chunk_view(c),
                ).push(chunk_view(chunks@.last())));
            }
            open = Vec::new();
            characters = 0;
            start_line = index + 1;
        }
        characters = characters + size;
        let ghost before_open = open@;
        let ghost line_text = line@;
        open.push(line);
        proof {
            assert(string_texts(open@) =~= string_texts(before_open).push(line_text));
        }
        index = index + 1;
    }
    proof {
        assert(all.take(n as int) =~= all);
    }
    if open.len() > 0 {
        let text = join_strings(&open, "\n");
        let ghost before = chunks@;
        chunks.push(FileChunk { path: path.to_owned(), start_line, end_line: n, content: text });
        proof {
            assert(chunks@.map_values(|c: FileChunk| chunk_view(c)) =~= before.map_values(
                |c: FileChunk| chunk_view(c),
            ).push(chunk_view(chunks@.last())));
        }
    }
    proof {
        assert forall|i: int| 0 <= i < chunks@.len() implies chunk_view(#[trigger] chunks@[i])
            == file_chunks(content@)[i] by {
            assert(chunks@.map_values(|c: FileChunk| chunk_view(c))[i] == chunk_view(chunks@[i]));
        }
    }
    chunks
}

/// A line shown around a match.
#[derive(Clone, Debug)]
pub struct ContextLine {
    pub line_number: usize,
    pub content: String,
}

/// A matching line of a file, with the lines around it.
#[derive(Clone, Debug)]
pub struct GrepMatch {
    pub path: String,
    pub line_number: usize,
    pub line: String,
    pub context: Vec<ContextLine>,
}

/// The first line shown around the line at `index`.
pub open spec fn context_start(index: nat, context: nat) -> nat {
    if index >= context {
        (index - context) as nat
    } else {
        0
    }
}

/// The line after the last one shown around the line at `index`.
pub open spec fn context_end(count: nat, index: nat, context: nat) -> nat {
    if index + context + 1 < count {
        index + context + 1
    } else {
        count
    }
}

/// The lines shown around the line at `index`, by line number and cut
/// text: up to `context` lines before it and after it.
pub open spec fn context_view(lines: Seq<Seq<char>>, index: nat, context: nat) -> Seq<(nat, Seq<char>)> {
    let start = context_start(index, context);
    let end = context_end(lines.len(), index, context);
    Seq::new(
        (index - start) as nat,
        |k: int| ((start + k + 1) as nat, spec_bounded_line(lines[start + k])),
    ) + Seq::new(
        (end - index - 1) as nat,
        |k: int| ((index + k + 2) as nat, spec_bounded_line(lines[index + 1 + k])),
    )
}

/// The context of the line at `index` shows only other lines at most
/// `context` lines away from it, in file order, each by its line number and
/// its (cut) text.
pub proof fn law_context_shows_only_nearby_lines(lines: Seq<Seq<char>>, index: nat, context: nat)
    requires
        index < lines.len(),
    ensures
        ({
            let v = context_view(lines, index, context);
            &&& forall|k: int|
                #![trigger v[k]]
                0 <= k < v.len() ==> {
                    let j = v[k].0 - 1;
                    &&& 0 <= j < lines.len()
                    &&& j != index
                    &&& index - context <= j <= index + context
                    &&& v[k].1 == spec_bounded_line(lines[j])
                }
            &&& forall|k1: int, k2: int| 0 <= k1 < k2 < v.len() ==> v[k1].0 < v[k2].0
        }),
{
    let v = context_view(lines, index, context);
    let start = context_start(index, context);
    let before = (index - start) as nat;
    assert forall|k: int|
        #![trigger v[k]]
        0 <= k < v.len() implies {
        &&& k < before ==> v[k].0 == start + k + 1
        &&& k >= before ==> v[k].0 == index + (k - before) + 2
    } by {}
}

/// Every line at most `context` lines away from the line at `index`, other
/// than that line, is shown in its context with its line number and its
/// (cut) text: as many lines after it as before it, up to `context`, where
/// the file has them.
pub proof fn law_context_shows_every_nearby_line(
    lines: Seq<Seq<char>>,
    index: nat,
    context: nat,
    j: int,
)
    requires
        index < lines.len(),
        0 <= j < lines.len(),
        j != index,
        index - context <= j <= index + context,
    ensures
        exists|k: int|
            0 <= k < context_view(lines, index, context).len() && #[trigger] context_view(
                lines,
                index,
                context,
            )[k] == ((j + 1) as nat, spec_bounded_line(lines[j])),
{
    let v = context_view(lines, index, context);
    let start = context_start(index, context);
    let before = (index - start) as nat;
    let k = if j < index {
        j - start
    } else {
        before + (j - index - 1)
    };
    assert(v[k] == ((j + 1) as nat, spec_bounded_line(lines[j])));
}

/// The line number and text of a context line.
pub open spec fn context_line_view(c: ContextLine) -> (nat, Seq<char>) {
    (c.line_number as nat, c.content@)
}

/// The lines of a file that match: their indexes, and whether a match was
/// left out because `room` matches were already taken.
pub open spec fn grep_found(lines: Seq<Seq<char>>, source: Seq<char>, room: nat) -> (Seq<nat>, bool)
    decreases lines.len(),
{
    if lines.len() == 0 {
        (Seq::empty(), false)
    } else {
        let (found, stopped) = grep_found(lines.drop_last(), source, room);
        if stopped {
            (found, true)
        } else if regex_is_match(source, lines.last()) {
            if found.len() >= room {
                (found, true)
            } else {
                (found.push((lines.len() - 1) as nat), false)
            }
        } else {
            (found, false)
        }
    }
}

proof fn lemma_grep_found(lines: Seq<Seq<char>>, source: Seq<char>, room: nat)
    ensures
        grep_found(lines, source, room).0.len() <= room,
        forall|k: int|
            0 <= k < grep_found(lines, source, room).0.len() ==> grep_found(lines, source, room).0[k]
                < lines.len(),
    decreases lines.len(),
{
    if lines.len() > 0 {
        lemma_grep_found(lines.drop_last(), source, room);
    }
}

/// Whether `m` is the match of the line at `index` of a file at `path`.
pub open spec fn is_match_of(
    m: GrepMatch,
    path: Seq<char>,
    lines: Seq<Seq<char>>,
    index: nat,
    context: nat,
) -> bool {
    &&& m.path@ == path
    &&& m.line_number == index + 1
    &&& m.line@ == spec_bounded_line(lines[index as int])
    &&& m.context@.map_values(|c: ContextLine| context_line_view(c)) == context_view(lines, index, context)
}

/// The matches a grep search has collected, file after file.
pub struct GrepScan {
    matches: Vec<GrepMatch>,
    truncated: bool,
    skipped_large_files: usize,
    context_lines: usize,
    max_results: usize,
}

fn context_lines_of(lines: &Vec<String>, index: usize, context: usize) -> (r: Vec<ContextLine>)
    requires
        index < lines@.len(),
        context <= MAX_CONTEXT_LINES,
    ensures
        r@.map_values(|c: ContextLine| context_line_view(c)) == context_view(
            string_texts(lines@),
            index as nat,
            context as nat,
        ),
{
    let ghost all = string_texts(lines@);
    let n = lines.len();
    let start: usize = if index >= context { index - context } else { 0 };
    let end: usize = if context < n - index - 1 { index + context + 1 } else { n };
    let mut out: Vec<ContextLine> = Vec::new();
    let mut j: usize = start;
    while j < end
        invariant
            n == lines@.len(),
            all == string_texts(lines@),
            start <= index < n,
            index < end <= n,
            start <= j <= end,
            start == context_start(index as nat, context as nat),
            end == context_end(n as nat, index as nat, context as nat),
            j <= index ==> out@.len() == j - start,
            j > index ==> out@.len() == j - start - 1,
            forall|k: int|
                0 <= k < out@.len() ==> #[trigger] context_line_view(out@[k]) == context_view(
                    all,
                    index as nat,
                    context as nat,
                )[k],
        decreases end - j,
    {
        if j != index {
            let line = bounded_line(lines[j].as_str());
            out.push(ContextLine { line_number: j + 1, content: line });
        }
        j = j + 1;
    }
    proof {
        assert(out@.map_values(|c: ContextLine| context_line_view(c)) =~= context_view(
            all,
            index as nat,
            context as nat,
        ));
    }
    out
}

impl GrepScan {
    /// The matches collected so far.
    pub closed spec fn matches(&self) -> Seq<GrepMatch> {
        self.matches@
    }

    /// Whether a match was left out because the limit was reached.
    pub closed spec fn truncated(&self) -> bool {
        self.truncated
    }

    /// How many files were too large to search.
    pub closed spec fn skipped(&self) -> nat {
        self.skipped_large_files as nat
    }

    /// The lines of context around each match.
    pub closed spec fn context(&self) -> nat {
        self.context_lines as nat
    }

    /// The most matches collected.
    pub closed spec fn limit(&self) -> nat {
        self.max_results as nat
    }

    /// A scan that has found nothing, with at most 5 lines of context and
    /// at most `max_results` matches.
    pub fn new(context_lines: usize, max_results: usize) -> (r: GrepScan)
        requires
            context_lines <= MAX_CONTEXT_LINES,
        ensures
            r.matches() == Seq::<GrepMatch>::empty(),
            !r.truncated(),
            r.skipped() == 0,
            r.context() == context_lines,
            r.limit() == max_results,
    {
        GrepScan {
            matches: Vec::new(),
            truncated: false,
            skipped_large_files: 0,
            context_lines,
            max_results,
        }
    }

    /// Whether the scan should stop: a match was left out.
    pub fn is_truncated(&self) -> (r: bool)
        ensures
            r == self.truncated(),
    {
        self.truncated
    }

    /// How many files were too large to search.
    pub fn skipped_files(&self) -> (r: usize)
        ensures
            r == self.skipped(),
    {
        self.skipped_large_files
    }

    /// Counts a file that was too large to search.
    pub fn skip_large_file(&mut self)
        requires
            old(self).skipped() < MAX_FILES_SCANNED,
        ensures
            final(self).skipped() == old(self).skipped() + 1,
            final(self).matches() == old(self).matches(),
            final(self).truncated() == old(self).truncated(),
            final(self).context() == old(self).context(),
            final(self).limit() == old(self).limit(),
    {
        self.skipped_large_files = self.skipped_large_files + 1;
    }

    /// Collects the matching lines of a file, in order, until the limit is
    /// reached; a match beyond it marks the scan truncated. `path` is the
    /// file's relative path, or the error of computing it, reported at its
    /// first match.
    pub fn scan_file(
        &mut self,
        path: &Result<String, String>,
        lines: &Vec<String>,
        expression: &SearchExpression,
    ) -> (r: Result<(), String>)
        requires
            !old(self).truncated(),
            old(self).context() <= MAX_CONTEXT_LINES,
            old(self).matches().len() <= old(self).limit(),
        ensures
            final(self).context() == old(self).context(),
            final(self).limit() == old(self).limit(),
            final(self).skipped() == old(self).skipped(),
            final(self).matches().len() <= final(self).limit(),
            ({
                let (found, stopped) = grep_found(
                    string_texts(lines@),
                    expression.source(),
                    (old(self).limit() - old(self).matches().len()) as nat,
                );
                match path {
                    Err(e) => if found.len() > 0 {
                        &&& r matches Err(f) && f@ == e@
                        &&& final(self).matches() == old(self).matches()
                        &&& !final(self).truncated()
                    } else {
                        &&& r is Ok
                        &&& final(self).matches() == old(self).matches()
                        &&& final(self).truncated() == stopped
                    },
                    Ok(p) => {
                        &&& r is Ok
                        &&& final(self).truncated() == stopped
                        &&& final(self).matches().len() == old(self).matches().len() + found.len()
                        &&& final(self).matches().take(old(self).matches().len() as int) == old(
                            self,
                        ).matches()
                        &&& forall|k: int|
                            0 <= k < found.len() ==> is_match_of(
                                #[trigger] final(self).matches()[old(self).matches().len() + k],
                                p@,
                                string_texts(lines@),
                                found[k],
                                old(self).context(),
                            )
                    },
                }
            }),
    {
        let ghost all = string_texts(lines@);
        let ghost start = self.matches@;
        let ghost room = (self.max_results - self.matches@.len()) as nat;
        let n = lines.len();
        let mut index: usize = 0;
        proof {
            assert(all.take(0) =~= Seq::<Seq<char>>::empty());
        }
        while index < n
            invariant
                n == lines@.len(),
                all == string_texts(lines@),
                index <= n,
                self.context_lines <= MAX_CONTEXT_LINES,
                self.max_results == old(self).limit(),
                self.context_lines == old(self).context(),
                self.skipped_large_files == old(self).skipped(),
                room == self.max_results - start.len(),
                start.len() <= self.max_results,
                start == old(self).matches(),
                !self.truncated,
                ({
                    let (found, stopped) = grep_found(all.take(index as int), expression.source(), room);
                    &&& !stopped
                    &&& self.matches@.len() == start.len() + found.len()
                    &&& self.matches@.take(start.len() as int) == start
                    &&& (path is Err ==> found.len() == 0)
                    &&& forall|k: int|
                        0 <= k < found.len() ==> is_match_of(
                            #[trigger] self.matches@[start.len() + k],
                            match path {
                                Ok(p) => p@,
                                Err(_) => Seq::empty(),
                            },
                            all,
                            found[k],
                            self.context_lines as nat,
                        )
                }),
            decreases n - index,
        {
            proof {
                assert(all.take(index + 1).drop_last() =~= all.take(index as int));
                assert(all.take(index + 1).last() == lines@[index as int]@);
                lemma_grep_found(all.take(index as int), expression.source(), room);
            }
            if expression.is_match(lines[index].as_str()) {
                if self.matches.len() == self.max_results {
                    self.truncated = true;
                    proof {
                        assert(grep_found(all.take(index + 1), expression.source(), room).1);
                        lemma_grep_found_stopped(all, expression.source(), room, index as int + 1);
                        lemma_grep_found(all, expression.source(), room);
                        if path is Err {
                            assert(self.matches@.take(start.len() as int) =~= self.matches@);
                        }
                    }
                    return Ok(());
                }
                let p = match path {
                    Ok(p) => p.clone(),
                    Err(e) => {
                        proof {
                            assert(grep_found(all.take(index + 1), expression.source(), room).0.len()
                                == 1);
                            lemma_grep_found_grows(all, expression.source(), room, index as int + 1);
                            assert(self.matches@.take(start.len() as int) =~= self.matches@);
                        }
                        return Err(e.clone());
                    },
                };
                let context = context_lines_of(lines, index, self.context_lines);
                let line = bounded_line(lines[index].as_str());
                let ghost before = self.matches@;
                self.matches.push(GrepMatch { path: p, line_number: index + 1, line, context });
                proof {
                    assert(self.matches@.take(start.len() as int) =~= before.take(start.len() as int));
                    assert forall|k: int| 0 <= k < start.len() + 0 implies self.matches@[k] == start[k] by {
                        assert(before.take(start.len() as int)[k] == before[k]);
                    }
                }
            }
            index = index + 1;
        }
        proof {
            assert(all.take(n as int) =~= all);
            lemma_grep_found(all, expression.source(), room);
            if path is Err {
                assert(self.matches@.take(start.len() as int) =~= self.matches@);
            }
        }
        Ok(())
    }
}

/// Once a scan has stopped it stays stopped, with the same matches.
proof fn lemma_grep_found_stopped(lines: Seq<Seq<char>>, source: Seq<char>, room: nat, i: int)
    requires
        0 <= i <= lines.len(),
        grep_found(lines.take(i), source, room).1,
    ensures
        grep_found(lines, source, room) == grep_found(lines.take(i), source, room),
    decreases lines.len() - i,
{
    if i < lines.len() {
        assert(lines.take(i + 1).drop_last() =~= lines.take(i));
        lemma_grep_found_stopped(lines, source, room, i + 1);
    } else {
        assert(lines.take(i) =~= lines);
    }
}

/// Matches found in a prefix are still found in the whole.
proof fn lemma_grep_found_grows(lines: Seq<Seq<char>>, source: Seq<char>, room: nat, i: int)
    requires
        0 <= i <= lines.len(),
    ensures
        grep_found(lines, source, room).0.len() >= grep_found(lines.take(i), source, room).0.len(),
    decreases lines.len() - i,
{
    if i < lines.len() {
        assert(lines.take(i + 1).drop_last() =~= lines.take(i));
        lemma_grep_found_grows(lines, source, room, i + 1);
    } else {
        assert(lines.take(i) =~= lines);
    }
}

impl GrepScan {
    /// The collected matches, whether some were left out, and how many
    /// files were too large to search.
    pub fn into_results(self) -> (r: (Vec<GrepMatch>, bool, usize))
        ensures
            r.0@ == self.matches(),
            r.1 == self.truncated(),
            r.2 == self.skipped(),
    {
        (self.matches, self.truncated, self.skipped_large_files)
    }
}

/// `n` kept between `low` and `high` (`Ord::clamp`).
pub open spec fn clamped(n: usize, low: usize, high: usize) -> usize {
    if n < low {
        low
    } else if n > high {
        high
    } else {
        n
    }
}

fn clamp(n: usize, low: usize, high: usize) -> (r: usize)
    ensures
        r == clamped(n, low, high),
{
    if n < low {
        low
    } else if n > high {
        high
    } else {
        n
    }
}

/// What a grep search asks for: its pattern (as a regular expression, or
/// escaped to match literally), its glob, context lines (at most 5,
/// default 2) and result limit (1 to 100, default 50); or the first error,
/// in that order.
pub open spec fn spec_grep_request(arguments: JsonValue) -> Result<
    (Seq<char>, Option<Seq<char>>, usize, usize),
    Seq<char>,
> {
    match spec_argument_string(arguments, "pattern"@) {
        Err(e) => Err(e),
        Ok(pattern) => if pattern.len() == 0 {
            Err("Search pattern cannot be empty"@)
        } else {
            match spec_argument_bool(arguments, "is_regex"@, false) {
                Err(e) => Err(e),
                Ok(is_regex) => {
                    let source = if is_regex {
                        pattern
                    } else {
                        regex_escaped(pattern)
                    };
                    match regex_compile(source) {
                        Err(e) => Err("Invalid search regex: "@ + e),
                        Ok(_) => match spec_optional_glob(arguments) {
                            Err(e) => Err(e),
                            Ok(glob) => match spec_optional_usize(arguments, "context_lines"@, 2) {
                                Err(e) => Err(e),
                                Ok(context) => match spec_optional_usize(
                                    arguments,
                                    "max_results"@,
                                    50,
                                ) {
                                    Err(e) => Err(e),
                                    Ok(max) => Ok(
                                        (
                                            source,
                                            glob,
                                            if context < MAX_CONTEXT_LINES {
                                                context
                                            } else {
                                                MAX_CONTEXT_LINES
                                            },
                                            clamped(max, 1, MAX_RESULTS),
                                        ),
                                    ),
                                },
                            },
                        },
                    }
                },
            }
        },
    }
}

/// A checked grep search.
pub struct GrepRequest {
    pub expression: SearchExpression,
    pub glob: Option<FileGlob>,
    pub context_lines: usize,
    pub max_results: usize,
}

/// Reads the arguments of a `grep_search` call.
pub fn grep_request(arguments: &JsonValue) -> (r: Result<GrepRequest, String>)
    requires
        glob_argument_fits(*arguments, "glob"@),
    ensures
        match r {
            Ok(q) => spec_grep_request(*arguments) == Ok::<
                (Seq<char>, Option<Seq<char>>, usize, usize),
                Seq<char>,
            >(
                (
                    q.expression.source(),
                    match q.glob {
                        Some(g) => Some(g.pattern()),
                        None => None,
                    },
                    q.context_lines,
                    q.max_results,
                ),
            ),
            Err(e) => spec_grep_request(*arguments) == Err::<
                (Seq<char>, Option<Seq<char>>, usize, usize),
                Seq<char>,
            >(e@),
        },
{
    let pattern = required_string(arguments, "pattern")?;
    if pattern.is_empty() {
        return Err(String::from_str("Search pattern cannot be empty"));
    }
    let is_regex = optional_bool(arguments, "is_regex", false)?;
    let compiled = if is_regex {
        SearchExpression::compile(pattern)
    } else {
        let escaped = escape_literal(pattern);
        SearchExpression::compile(escaped.as_str())
    };
    let expression = match compiled {
        Ok(e) => e,
        Err(e) => {
            return Err(concat2("Invalid search regex: ", e.as_str()));
        },
    };
    let glob = optional_glob(arguments)?;
    let context = optional_usize(arguments, "context_lines", 2)?;
    let max = optional_usize(arguments, "max_results", 50)?;
    let context_lines = if context < MAX_CONTEXT_LINES {
        context
    } else {
        MAX_CONTEXT_LINES
    };
    Ok(GrepRequest { expression, glob, context_lines, max_results: clamp(max, 1, MAX_RESULTS) })
}

/// What a glob search asks for: its pattern and result limit (1 to 100,
/// default 100), or the first error.
pub open spec fn spec_glob_request(arguments: JsonValue) -> Result<(Seq<char>, usize), Seq<char>> {
    match spec_argument_string(arguments, "pattern"@) {
        Err(e) => Err(e),
        Ok(pattern) => match glob_outcome(pattern) {
            Err(e) => Err("Invalid file glob: "@ + e),
            Ok(_) => match spec_optional_usize(arguments, "max_results"@, 100) {
                Err(e) => Err(e),
                Ok(max) => Ok((pattern, clamped(max, 1, MAX_RESULTS))),
            },
        },
    }
}

/// Reads the arguments of a `glob_search` call.
pub fn glob_request(arguments: &JsonValue) -> (r: Result<(FileGlob, usize), String>)
    requires
        glob_argument_fits(*arguments, "pattern"@),
    ensures
        match r {
            Ok((g, max)) => spec_glob_request(*arguments) == Ok::<(Seq<char>, usize), Seq<char>>(
                (g.pattern(), max),
            ),
            Err(e) => spec_glob_request(*arguments) == Err::<(Seq<char>, usize), Seq<char>>(e@),
        },
{
    let pattern = required_string(arguments, "pattern")?;
    let glob = match FileGlob::new(pattern) {
        Ok(g) => g,
        Err(e) => {
            return Err(concat2("Invalid file glob: ", e.as_str()));
        },
    };
    let max = optional_usize(arguments, "max_results", 100)?;
    Ok((glob, clamp(max, 1, MAX_RESULTS)))
}

/// The first `max_results` paths, and whether any were left out.
pub fn limit_paths(paths: Vec<String>, max_results: usize) -> (r: (Vec<String>, bool))
    ensures
        r.0@ == paths@.take(if paths@.len() <= max_results { paths@.len() as int } else { max_results as int }),
        r.1 == (paths@.len() > max_results),
{
    let n = paths.len();
    let mut out: Vec<String> = Vec::new();
    let mut paths = paths;
    let ghost all = paths@;
    let keep = if n <= max_results { n } else { max_results };
    let mut i: usize = 0;
    while i < keep
        invariant
            paths@ == all,
            n == all.len(),
            keep <= n,
            i <= keep,
            out@ == all.take(i as int),
        decreases keep - i,
    {
        let p = paths[i].clone();
        out.push(p);
        proof {
            assert(out@ =~= all.take(i + 1));
        }
        i = i + 1;
    }
    (out, n > max_results)
}

/// What a semantic search asks for: a query that is not blank, how many
/// results (1 to 10, default 5) and the embedding model; or the first error.
pub open spec fn spec_semantic_request(arguments: JsonValue, configured: Option<Seq<char>>) -> Result<
    (Seq<char>, usize, Seq<char>),
    Seq<char>,
> {
    match spec_argument_string(arguments, "query"@) {
        Err(e) => Err(e),
        Ok(query) => if trim_ws(query).len() == 0 {
            Err("Semantic query cannot be empty"@)
        } else {
            match spec_optional_usize(arguments, "top_n"@, 5) {
                Err(e) => Err(e),
                Ok(n) => match spec_embedding_model(arguments, configured) {
                    Err(e) => Err(e),
                    Ok(model) => Ok((query, clamped(n, 1, 10), model)),
                },
            }
        },
    }
}

/// Reads the arguments of a `semantic_search` call.
pub fn semantic_request(arguments: &JsonValue, configured: Option<&str>) -> (r: Result<
    (String, usize, String),
    String,
>)
    ensures
        match r {
            Ok((q, n, m)) => spec_semantic_request(
                *arguments,
                match configured {
                    Some(c) => Some(c@),
                    None => None,
                },
            ) == Ok::<(Seq<char>, usize, Seq<char>), Seq<char>>((q@, n, m@)),
            Err(e) => spec_semantic_request(
                *arguments,
                match configured {
                    Some(c) => Some(c@),
                    None => None,
                },
            ) == Err::<(Seq<char>, usize, Seq<char>), Seq<char>>(e@),
        },
{
    let query = required_string(arguments, "query")?;
    let trimmed = trim(query);
    if trimmed.as_str().is_empty() {
        return Err(String::from_str("Semantic query cannot be empty"));
    }
    let top_n = optional_usize(arguments, "top_n", 5)?;
    let model = embedding_model(arguments, configured)?;
    Ok((query.to_owned(), clamp(top_n, 1, 10), model))
}

/// What a semantic search does with a stored index.
pub enum IndexVerdict {
    /// Search it.
    Search,
    /// It was built with another model; the message says so.
    ReindexRequired(String),
    /// It holds no chunks.
    Empty,
}

/// Decides what a semantic search does with an index of `version`, built
/// with `index_model`, holding `chunk_count` chunks, when it searches with `model`.
pub fn index_verdict(version: u32, index_model: &str, model: &str, chunk_count: usize) -> (r: Result<
    IndexVerdict,
    String,
>)
    ensures
        version != 1 ==> (r matches Err(e) && e@ == "Unsupported semantic index version: "@
            + crate::text::decimal(version as nat)),
        version == 1 && index_model@ != model@ ==> (r matches Ok(IndexVerdict::ReindexRequired(m))
            && m@ == "The index uses '"@ + index_model@ + "', but this search uses '"@ + model@
            + "'. Call index_workspace with the desired model."@),
        version == 1 && index_model@ == model@ && chunk_count == 0 ==> (r matches Ok(
            IndexVerdict::Empty,
        )),
        version == 1 && index_model@ == model@ && chunk_count > 0 ==> (r matches Ok(
            IndexVerdict::Search,
        )),
{
    if version != 1 {
        let v = crate::text::decimal_string(version as u128);
        return Err(concat2("Unsupported semantic index version: ", v.as_str()));
    }
    if !str_eq(index_model, model) {
        let head = concat3("The index uses '", index_model, "', but this search uses '");
        let body = concat2(head.as_str(), model);
        return Ok(
            IndexVerdict::ReindexRequired(
                concat2(body.as_str(), "'. Call index_workspace with the desired model."),
            ),
        );
    }
    if chunk_count == 0 {
        Ok(IndexVerdict::Empty)
    } else {
        Ok(IndexVerdict::Search)
    }
}

/// The error when a folder walk finds more than `max_files` matching files.
pub fn too_many_files(max_files: usize) -> (r: String)
    ensures
        r@ == "Workspace has more than "@ + crate::text::decimal(max_files as nat)
            + " searchable files; narrow the workspace before searching"@,
{
    let n = crate::text::decimal_string(max_files as u128);
    concat3("Workspace has more than ", n.as_str(), " searchable files; narrow the workspace before searching")
}

/// What a folder walk does with a file, given how many files it kept so
/// far and, when a glob filters the walk, whether the glob matches the file:
/// skip it (`Ok(false)`) when the glob does not match; otherwise keep it
/// (`Ok(true)`), unless that makes more than `max_files` files, which stops
/// the walk with the error.
pub fn keep_file(kept: usize, max_files: usize, glob_matches: Option<bool>) -> (r: Result<bool, String>)
    ensures
        glob_matches == Some(false) ==> r == Ok::<bool, String>(false),
        glob_matches != Some(false) && kept + 1 > max_files ==> (r matches Err(e) && e@
            == "Workspace has more than "@ + crate::text::decimal(max_files as nat)
            + " searchable files; narrow the workspace before searching"@),
        glob_matches != Some(false) && kept + 1 <= max_files ==> r == Ok::<bool, String>(true),
{
    if let Some(false) = glob_matches {
        return Ok(false);
    }
    if kept >= max_files {
        return Err(too_many_files(max_files));
    }
    Ok(true)
}

/// Whether indexing has too many chunks, and the error it then reports.
pub fn chunk_limit(chunk_count: usize) -> (r: Option<String>)
    ensures
        chunk_count <= MAX_FILES_SCANNED ==> r is None,
        chunk_count > MAX_FILES_SCANNED ==> (r matches Some(e) && e@
            == "Workspace has more than 20000 indexable chunks; narrow the workspace before indexing"@),
{
    if chunk_count > MAX_FILES_SCANNED {
        Some(
            String::from_str(
                "Workspace has more than 20000 indexable chunks; narrow the workspace before indexing",
            ),
        )
    } else {
        None
    }
}

/// The message when embeddings cannot be had while indexing (`indexing`)
/// or while searching.
pub fn unavailable_message(model: &str, indexing: bool) -> (r: String)
    ensures
        r@ == "Ollama or embedding model '"@ + model@ + if indexing {
            "' is unavailable; no index was written."@
        } else {
            "' is unavailable."@
        },
{
    if indexing {
        concat3("Ollama or embedding model '", model, "' is unavailable; no index was written.")
    } else {
        concat3("Ollama or embedding model '", model, "' is unavailable.")
    }
}


/// The `grep_search` tool.
pub struct GrepSearch;

/// The parameters of `grep_search`.
pub open spec fn grep_search_parameters() -> JsonSpec {
    object_schema_spec(
        seq![
                ("pattern"@, param_spec("string"@, "Text or regular expression to find."@)),
                ("is_regex"@, param_spec("boolean"@, "Treat pattern as a regular expression; defaults to false."@)),
                ("glob"@, param_spec("string"@, "Optional file glob, such as **/*.rs."@)),
                ("context_lines"@, param_spec("integer"@, "Surrounding lines per match, from 0 to 5; defaults to 2."@)),
                ("max_results"@, param_spec("integer"@, "Maximum matches to return; capped at 100."@))
        ],
        seq!["pattern"@],
    )
}

impl GrepSearch {
    /// The schema of the tool: read-only, so it runs without asking.
    pub fn schema(&self) -> (r: ToolSchema)
        ensures
            is_schema(
                r,
                "grep_search"@,
                "Search workspace file contents using a literal string or regular expression. Returns matching paths, line numbers, and bounded surrounding context."@,
                grep_search_parameters(),
                RiskLevel::AutoApprove,
            ),
    {
        let props = JsonMembers::new().with("pattern", param("string", "Text or regular expression to find.")).with("is_regex", param("boolean", "Treat pattern as a regular expression; defaults to false.")).with("glob", param("string", "Optional file glob, such as **/*.rs.")).with("context_lines", param("integer", "Surrounding lines per match, from 0 to 5; defaults to 2.")).with("max_results", param("integer", "Maximum matches to return; capped at 100."));
        let required: [&str; 1] = ["pattern"];
        let parameters = object_schema(props, &required);
        proof {
            assert(Seq::<(Seq<char>, JsonSpec)>::empty().push(("pattern"@, param_spec("string"@, "Text or regular expression to find."@))).push(("is_regex"@, param_spec("boolean"@, "Treat pattern as a regular expression; defaults to false."@))).push(("glob"@, param_spec("string"@, "Optional file glob, such as **/*.rs."@))).push(("context_lines"@, param_spec("integer"@, "Surrounding lines per match, from 0 to 5; defaults to 2."@))).push(("max_results"@, param_spec("integer"@, "Maximum matches to return; capped at 100."@))) =~= seq![
                ("pattern"@, param_spec("string"@, "Text or regular expression to find."@)),
                ("is_regex"@, param_spec("boolean"@, "Treat pattern as a regular expression; defaults to false."@)),
                ("glob"@, param_spec("string"@, "Optional file glob, such as **/*.rs."@)),
                ("context_lines"@, param_spec("integer"@, "Surrounding lines per match, from 0 to 5; defaults to 2."@)),
                ("max_results"@, param_spec("integer"@, "Maximum matches to return; capped at 100."@))
            ]);
            assert(Seq::new(1, |i: int| required@[i]@) =~= seq!["pattern"@]);
        }
        ToolSchema {
            name: String::from_str("grep_search"),
            description: String::from_str("Search workspace file contents using a literal string or regular expression. Returns matching paths, line numbers, and bounded surrounding context."),
            parameters,
            risk_level: RiskLevel::AutoApprove,
        }
    }
}

/// The `glob_search` tool.
pub struct GlobSearch;

/// The parameters of `glob_search`.
pub open spec fn glob_search_parameters() -> JsonSpec {
    object_schema_spec(
        seq![
                ("pattern"@, param_spec("string"@, "Workspace-relative glob, for example src/**/*.rs."@)),
                ("max_results"@, param_spec("integer"@, "Maximum paths to return; capped at 100."@))
        ],
        seq!["pattern"@],
    )
}

impl GlobSearch {
    /// The schema of the tool: read-only, so it runs without asking.
    pub fn schema(&self) -> (r: ToolSchema)
        ensures
            is_schema(
                r,
                "glob_search"@,
                "Find workspace files whose relative paths match a glob pattern. Hidden and generated directories are excluded, and results are bounded."@,
                glob_search_parameters(),
                RiskLevel::AutoApprove,
            ),
    {
        let props = JsonMembers::new().with("pattern", param("string", "Workspace-relative glob, for example src/**/*.rs.")).with("max_results", param("integer", "Maximum paths to return; capped at 100."));
        let required: [&str; 1] = ["pattern"];
        let parameters = object_schema(props, &required);
        proof {
            assert(Seq::<(Seq<char>, JsonSpec)>::empty().push(("pattern"@, param_spec("string"@, "Workspace-relative glob, for example src/**/*.rs."@))).push(("max_results"@, param_spec("integer"@, "Maximum paths to return; capped at 100."@))) =~= seq![
                ("pattern"@, param_spec("string"@, "Workspace-relative glob, for example src/**/*.rs."@)),
                ("max_results"@, param_spec("integer"@, "Maximum paths to return; capped at 100."@))
            ]);
            assert(Seq::new(1, |i: int| required@[i]@) =~= seq!["pattern"@]);
        }
        ToolSchema {
            name: String::from_str("glob_search"),
            description: String::from_str("Find workspace files whose relative paths match a glob pattern. Hidden and generated directories are excluded, and results are bounded."),
            parameters,
            risk_level: RiskLevel::AutoApprove,
        }
    }
}

/// The `index_workspace` tool.
pub struct IndexWorkspace;

/// The parameters of `index_workspace`.
pub open spec fn index_workspace_parameters() -> JsonSpec {
    object_schema_spec(
        seq![
                ("model"@, param_spec("string"@, "Optional Ollama embedding model; defaults to LEGION_EMBEDDING_MODEL or nomic-embed-text."@))
        ],
        Seq::<Seq<char>>::empty(),
    )
}

impl IndexWorkspace {
    /// The schema of the tool: it runs without asking.
    pub fn schema(&self) -> (r: ToolSchema)
        ensures
            is_schema(
                r,
                "index_workspace"@,
                "Build or refresh the local semantic code-search index on demand using Ollama embeddings. Returns an unavailable status if Ollama or the embedding model cannot be reached."@,
                index_workspace_parameters(),
                RiskLevel::AutoApprove,
            ),
    {
        let props = JsonMembers::new().with("model", param("string", "Optional Ollama embedding model; defaults to LEGION_EMBEDDING_MODEL or nomic-embed-text."));
        let required: [&str; 0] = [];
        let parameters = object_schema(props, &required);
        proof {
            assert(Seq::<(Seq<char>, JsonSpec)>::empty().push(("model"@, param_spec("string"@, "Optional Ollama embedding model; defaults to LEGION_EMBEDDING_MODEL or nomic-embed-text."@))) =~= seq![
                ("model"@, param_spec("string"@, "Optional Ollama embedding model; defaults to LEGION_EMBEDDING_MODEL or nomic-embed-text."@))
            ]);
            assert(Seq::new(0, |i: int| required@[i]@) =~= Seq::<Seq<char>>::empty());
        }
        ToolSchema {
            name: String::from_str("index_workspace"),
            description: String::from_str("Build or refresh the local semantic code-search index on demand using Ollama embeddings. Returns an unavailable status if Ollama or the embedding model cannot be reached."),
            parameters,
            risk_level: RiskLevel::AutoApprove,
        }
    }
}

/// The `semantic_search` tool.
pub struct SemanticSearch;

/// The parameters of `semantic_search`.
pub open spec fn semantic_search_parameters() -> JsonSpec {
    object_schema_spec(
        seq![
                ("query"@, param_spec("string"@, "Concept or question to search for."@)),
                ("top_n"@, param_spec("integer"@, "Number of chunks to return; capped at 10."@)),
                ("model"@, param_spec("string"@, "Optional Ollama embedding model; must match the indexed model."@))
        ],
        seq!["query"@],
    )
}

impl SemanticSearch {
    /// The schema of the tool: read-only, so it runs without asking.
    pub fn schema(&self) -> (r: ToolSchema)
        ensures
            is_schema(
                r,
                "semantic_search"@,
                "Find semantically relevant code chunks using the local Ollama embeddings index. Call index_workspace to build or refresh the index first."@,
                semantic_search_parameters(),
                RiskLevel::AutoApprove,
            ),
    {
        let props = JsonMembers::new().with("query", param("string", "Concept or question to search for.")).with("top_n", param("integer", "Number of chunks to return; capped at 10.")).with("model", param("string", "Optional Ollama embedding model; must match the indexed model."));
        let required: [&str; 1] = ["query"];
        let parameters = object_schema(props, &required);
        proof {
            assert(Seq::<(Seq<char>, JsonSpec)>::empty().push(("query"@, param_spec("string"@, "Concept or question to search for."@))).push(("top_n"@, param_spec("integer"@, "Number of chunks to return; capped at 10."@))).push(("model"@, param_spec("string"@, "Optional Ollama embedding model; must match the indexed model."@))) =~= seq![
                ("query"@, param_spec("string"@, "Concept or question to search for."@)),
                ("top_n"@, param_spec("integer"@, "Number of chunks to return; capped at 10."@)),
                ("model"@, param_spec("string"@, "Optional Ollama embedding model; must match the indexed model."@))
            ]);
            assert(Seq::new(1, |i: int| required@[i]@) =~= seq!["query"@]);
        }
        ToolSchema {
            name: String::from_str("semantic_search"),
            description: String::from_str("Find semantically relevant code chunks using the local Ollama embeddings index. Call index_workspace to build or refresh the index first."),
            parameters,
            risk_level: RiskLevel::AutoApprove,
        }
    }
}

/// Whether chunks are in order and contiguous, each of 1 to 80 lines,
/// the first starting at line 1.
pub open spec fn contiguous_chunks(chunks: Seq<(nat, nat, Seq<char>)>) -> bool {
    &&& forall|k: int|
        0 <= k < chunks.len() ==> (#[trigger] chunks[k]).0 <= chunks[k].1 && chunks[k].1
            < chunks[k].0 + CHUNK_LINE_LIMIT
    &&& forall|k: int|
        0 <= k < chunks.len() - 1 ==> (#[trigger] chunks[k + 1]).0 == chunks[k].1 + 1
    &&& chunks.len() > 0 ==> chunks[0].0 == 1
}

proof fn lemma_chunk_scan_shape(lines: Seq<Seq<char>>)
    ensures
        ({
            let (chunks, open, characters, start) = chunk_scan(lines);
            &&& contiguous_chunks(chunks)
            &&& open.len() <= CHUNK_LINE_LIMIT
            &&& start + open.len() == lines.len() + 1
            &&& chunks.len() > 0 ==> chunks.last().1 + 1 == start
            &&& chunks.len() == 0 ==> start == 1
            &&& lines.len() > 0 ==> open.len() > 0
        }),
    decreases lines.len(),
{
    if lines.len() > 0 {
        lemma_chunk_scan_shape(lines.drop_last());
        let (chunks, open, characters, start) = chunk_scan(lines.drop_last());
        let (chunks2, open2, characters2, start2) = chunk_scan(lines);
        if chunks2.len() > chunks.len() {
            assert forall|k: int| 0 <= k < chunks2.len() - 1 implies (#[trigger] chunks2[k + 1]).0
                == chunks2[k].1 + 1 by {
                if k + 1 < chunks.len() {
                    assert(chunks2[k + 1] == chunks[k + 1]);
                    assert(chunks2[k] == chunks[k]);
                } else {
                    assert(chunks2[k] == chunks[k]);
                }
            }
            assert forall|k: int| 0 <= k < chunks2.len() implies (#[trigger] chunks2[k]).0
                <= chunks2[k].1 && chunks2[k].1 < chunks2[k].0 + CHUNK_LINE_LIMIT by {
                if k < chunks.len() {
                    assert(chunks2[k] == chunks[k]);
                }
            }
            if chunks.len() > 0 {
                assert(chunks2[0] == chunks[0]);
            }
        }
    }
}

/// The chunks of a file cover its lines in order: they are contiguous,
/// each has 1 to 80 lines, the first starts at line 1 and the last ends at
/// the last line; a file without lines has no chunks.
pub proof fn law_chunks_cover_lines_in_order(content: Seq<char>)
    ensures
        contiguous_chunks(file_chunks(content)),
        lines_of(content).len() == 0 <==> file_chunks(content).len() == 0,
        file_chunks(content).len() > 0 ==> file_chunks(content).last().1 == lines_of(content).len(),
{
    let lines = lines_of(content);
    lemma_chunk_scan_shape(lines);
    let (chunks, open, characters, start) = chunk_scan(lines);
    if open.len() > 0 {
        let all = chunks.push((start, lines.len(), join_with(open, "\n"@)));
        assert forall|k: int| 0 <= k < all.len() - 1 implies (#[trigger] all[k + 1]).0 == all[k].1
            + 1 by {
            if k + 1 < chunks.len() {
                assert(all[k + 1] == chunks[k + 1]);
                assert(all[k] == chunks[k]);
            } else {
                assert(all[k] == chunks[k]);
            }
        }
        assert forall|k: int| 0 <= k < all.len() implies (#[trigger] all[k]).0 <= all[k].1
            && all[k].1 < all[k].0 + CHUNK_LINE_LIMIT by {
            if k < chunks.len() {
                assert(all[k] == chunks[k]);
            }
        }
        if chunks.len() > 0 {
            assert(all[0] == chunks[0]);
        }
    }
}

} // verus!
