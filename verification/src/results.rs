//! Search results as JSON under a byte limit. As each result is added,
//! the whole output is encoded (`serde_json::to_vec`); the output keeps the
//! longest run of leading results whose encoding fits.

use vstd::prelude::*;
use crate::encoding::{
    encode_json_bytes, items_depth, json_bytes, json_depth, lemma_view_seq, members_depth,
    MAX_JSON_DEPTH,
};
use crate::text::concat2;
use crate::json::{json_view, json_view_seq, JsonMembers, JsonNumber, JsonSpec, JsonValue};
use crate::search::{ContextLine, GrepMatch, MAX_GLOB_OUTPUT_BYTES, MAX_GREP_OUTPUT_BYTES};

verus! {

/// Whether `count` leading results are kept, when `fits(j)` says whether
/// the output with the first `j` results encodes within the limit: at most
/// `max_items` of the `available` results, every output with 1 to `count`
/// results fits, and the output with one more, when one can be taken, does
/// not.
pub open spec fn is_kept_count(fits: spec_fn(nat) -> bool, max_items: nat, available: nat, count: nat) -> bool {
    &&& count <= max_items
    &&& count <= available
    &&& forall|j: nat| 1 <= j <= count ==> #[trigger] fits(j)
    &&& (count < max_items && count < available) ==> !fits(count + 1)
}

/// At most one count is kept.
pub proof fn lemma_kept_count_unique(fits: spec_fn(nat) -> bool, max_items: nat, available: nat, a: nat, b: nat)
    requires
        is_kept_count(fits, max_items, available, a),
        is_kept_count(fits, max_items, available, b),
    ensures
        a == b,
{
    if a < b {
        assert(fits((a + 1) as nat));
    } else if b < a {
        assert(fits((b + 1) as nat));
    }
}

/// Whether encoded bytes are within `limit`; an encoding error never is.
pub open spec fn encodes_within(encoded: Result<Seq<u8>, Seq<char>>, limit: nat) -> bool {
    match encoded {
        Ok(b) => b.len() <= limit,
        Err(_) => false,
    }
}

/// Items each at most `d` deep are at most `d` deep together.
proof fn lemma_items_depth_bound(s: Seq<JsonSpec>, d: nat)
    requires
        forall|i: int| 0 <= i < s.len() ==> json_depth(#[trigger] s[i]) <= d,
    ensures
        items_depth(s) <= d,
    decreases s.len(),
{
    if s.len() > 0 {
        lemma_items_depth_bound(s.drop_last(), d);
    }
}

/// Members each at most `d` deep are at most `d` deep together.
proof fn lemma_members_depth_bound(m: Seq<(Seq<char>, JsonSpec)>, d: nat)
    requires
        forall|i: int| 0 <= i < m.len() ==> json_depth(#[trigger] m[i].1) <= d,
    ensures
        members_depth(m) <= d,
    decreases m.len(),
{
    if m.len() > 0 {
        lemma_members_depth_bound(m.drop_last(), d);
    }
}

/// The JSON object of a context line.
pub open spec fn context_line_spec(c: ContextLine) -> JsonSpec {
    JsonSpec::Object(
        seq![
            ("line_number"@, JsonSpec::Number(JsonNumber::PosInt(c.line_number as u64))),
            ("content"@, JsonSpec::Str(c.content@)),
        ],
    )
}

/// The JSON object of a grep match, with its context lines in order.
pub open spec fn grep_match_spec(m: GrepMatch) -> JsonSpec {
    JsonSpec::Object(
        seq![
            ("path"@, JsonSpec::Str(m.path@)),
            ("line_number"@, JsonSpec::Number(JsonNumber::PosInt(m.line_number as u64))),
            ("line"@, JsonSpec::Str(m.line@)),
            ("context"@, JsonSpec::Array(Seq::new(m.context@.len(), |i: int| context_line_spec(m.context@[i])))),
        ],
    )
}

fn context_line_json(c: &ContextLine) -> (r: JsonValue)
    ensures
        json_view(r) == context_line_spec(*c),
{
    let r = JsonMembers::new().with(
        "line_number",
        JsonValue::Number(JsonNumber::PosInt(c.line_number as u64)),
    ).with("content", JsonValue::String(c.content.clone())).build();
    proof {
        assert(Seq::<(Seq<char>, JsonSpec)>::empty().push(
            ("line_number"@, JsonSpec::Number(JsonNumber::PosInt(c.line_number as u64))),
        ).push(("content"@, JsonSpec::Str(c.content@))) =~= seq![
            ("line_number"@, JsonSpec::Number(JsonNumber::PosInt(c.line_number as u64))),
            ("content"@, JsonSpec::Str(c.content@)),
        ]);
    }
    r
}

/// The JSON object of a grep match: its path, line number, line and context.
pub fn grep_match_json(m: &GrepMatch) -> (r: JsonValue)
    ensures
        json_view(r) == grep_match_spec(*m),
{
    let mut lines: Vec<JsonValue> = Vec::new();
    let n = m.context.len();
    let mut i: usize = 0;
    while i < n
        invariant
            n == m.context@.len(),
            i <= n,
            json_view_seq(lines@) == Seq::new(i as nat, |k: int| context_line_spec(m.context@[k])),
        decreases n - i,
    {
        let ghost before = lines@;
        let item = context_line_json(&m.context[i]);
        lines.push(item);
        proof {
            assert(lines@.drop_last() =~= before);
            assert(json_view_seq(lines@) =~= Seq::new(
                (i + 1) as nat,
                |k: int| context_line_spec(m.context@[k]),
            ));
        }
        i = i + 1;
    }
    let context = JsonValue::Array(lines);
    let r = JsonMembers::new().with("path", JsonValue::String(m.path.clone())).with(
        "line_number",
        JsonValue::Number(JsonNumber::PosInt(m.line_number as u64)),
    ).with("line", JsonValue::String(m.line.clone())).with("context", context).build();
    proof {
        let items = Seq::new(m.context@.len(), |k: int| context_line_spec(m.context@[k]));
        assert(Seq::<(Seq<char>, JsonSpec)>::empty().push(("path"@, JsonSpec::Str(m.path@))).push(
            ("line_number"@, JsonSpec::Number(JsonNumber::PosInt(m.line_number as u64))),
        ).push(("line"@, JsonSpec::Str(m.line@))).push(("context"@, JsonSpec::Array(items))) =~= seq![
            ("path"@, JsonSpec::Str(m.path@)),
            ("line_number"@, JsonSpec::Number(JsonNumber::PosInt(m.line_number as u64))),
            ("line"@, JsonSpec::Str(m.line@)),
            ("context"@, JsonSpec::Array(items)),
        ]);
    }
    r
}

/// The grep output: the kept matches, whether results were left out, the
/// result limit and how many large files were skipped.
pub open spec fn grep_output_spec(kept: Seq<GrepMatch>, truncated: bool, max_results: usize, skipped: usize) -> JsonSpec {
    JsonSpec::Object(
        seq![
            ("matches"@, JsonSpec::Array(Seq::new(kept.len(), |i: int| grep_match_spec(kept[i])))),
            ("truncated"@, JsonSpec::Bool(truncated)),
            ("max_results"@, JsonSpec::Number(JsonNumber::PosInt(max_results as u64))),
            ("skipped_large_files"@, JsonSpec::Number(JsonNumber::PosInt(skipped as u64))),
        ],
    )
}

/// The glob output: the kept paths, whether results were left out and the
/// result limit.
pub open spec fn glob_output_spec(kept: Seq<String>, truncated: bool, max_results: usize) -> JsonSpec {
    JsonSpec::Object(
        seq![
            ("paths"@, JsonSpec::Array(Seq::new(kept.len(), |i: int| JsonSpec::Str(kept[i]@)))),
            ("truncated"@, JsonSpec::Bool(truncated)),
            ("max_results"@, JsonSpec::Number(JsonNumber::PosInt(max_results as u64))),
        ],
    )
}

/// Whether an output that kept `count` of `available` results, at most
/// `max_results`, says it was truncated: when it was asked to, or when it
/// left out results it could have taken.
pub open spec fn output_truncated(truncated: bool, count: nat, max_results: nat, available: nat) -> bool {
    truncated || (count < max_results && count < available)
}



/// The grep output with the first `k` matches.
fn grep_output_json(
    matches: &Vec<GrepMatch>,
    k: usize,
    truncated: bool,
    max_results: usize,
    skipped_large_files: usize,
) -> (r: JsonValue)
    requires
        k <= matches@.len(),
    ensures
        json_view(r) == grep_output_spec(matches@.take(k as int), truncated, max_results, skipped_large_files),
{
    let mut items: Vec<JsonValue> = Vec::new();
    let mut i: usize = 0;
    while i < k
        invariant
            k <= matches@.len(),
            i <= k,
            json_view_seq(items@) == Seq::new(i as nat, |j: int| grep_match_spec(matches@[j])),
        decreases k - i,
    {
        let ghost before = items@;
        let item = grep_match_json(&matches[i]);
        items.push(item);
        proof {
            assert(items@.drop_last() =~= before);
            assert(json_view_seq(items@) =~= Seq::new((i + 1) as nat, |j: int| grep_match_spec(matches@[j])));
        }
        i = i + 1;
    }
    let r = JsonMembers::new().with("matches", JsonValue::Array(items)).with(
        "truncated",
        JsonValue::Bool(truncated),
    ).with("max_results", JsonValue::Number(JsonNumber::PosInt(max_results as u64))).with(
        "skipped_large_files",
        JsonValue::Number(JsonNumber::PosInt(skipped_large_files as u64)),
    ).build();
    proof {
        let kept = matches@.take(k as int);
        let shown = Seq::new(kept.len(), |j: int| grep_match_spec(kept[j]));
        assert(shown =~= Seq::new(k as nat, |j: int| grep_match_spec(matches@[j])));
        assert(Seq::<(Seq<char>, JsonSpec)>::empty().push(("matches"@, JsonSpec::Array(shown))).push(
            ("truncated"@, JsonSpec::Bool(truncated)),
        ).push(("max_results"@, JsonSpec::Number(JsonNumber::PosInt(max_results as u64)))).push(
            ("skipped_large_files"@, JsonSpec::Number(JsonNumber::PosInt(skipped_large_files as u64))),
        ) =~= seq![
            ("matches"@, JsonSpec::Array(shown)),
            ("truncated"@, JsonSpec::Bool(truncated)),
            ("max_results"@, JsonSpec::Number(JsonNumber::PosInt(max_results as u64))),
            ("skipped_large_files"@, JsonSpec::Number(JsonNumber::PosInt(skipped_large_files as u64))),
        ]);
    }
    r
}

/// The glob output with the first `k` paths.
fn glob_output_json(paths: &Vec<String>, k: usize, truncated: bool, max_results: usize) -> (r: JsonValue)
    requires
        k <= paths@.len(),
    ensures
        json_view(r) == glob_output_spec(paths@.take(k as int), truncated, max_results),
{
    let mut items: Vec<JsonValue> = Vec::new();
    let mut i: usize = 0;
    while i < k
        invariant
            k <= paths@.len(),
            i <= k,
            json_view_seq(items@) == Seq::new(i as nat, |j: int| JsonSpec::Str(paths@[j]@)),
        decreases k - i,
    {
        let ghost before = items@;
        let item = JsonValue::String(paths[i].clone());
        assert(json_view(item) == JsonSpec::Str(paths@[i as int]@));
        items.push(item);
        proof {
            assert(items@.drop_last() =~= before);
            assert(json_view_seq(items@) =~= Seq::new((i + 1) as nat, |j: int| JsonSpec::Str(paths@[j]@)));
        }
        i = i + 1;
    }
    let r = JsonMembers::new().with("paths", JsonValue::Array(items)).with(
        "truncated",
        JsonValue::Bool(truncated),
    ).with("max_results", JsonValue::Number(JsonNumber::PosInt(max_results as u64))).build();
    proof {
        let kept = paths@.take(k as int);
        let shown = Seq::new(kept.len(), |j: int| JsonSpec::Str(kept[j]@));
        assert(shown =~= Seq::new(k as nat, |j: int| JsonSpec::Str(paths@[j]@)));
        assert(Seq::<(Seq<char>, JsonSpec)>::empty().push(("paths"@, JsonSpec::Array(shown))).push(
            ("truncated"@, JsonSpec::Bool(truncated)),
        ).push(("max_results"@, JsonSpec::Number(JsonNumber::PosInt(max_results as u64)))) =~= seq![
            ("paths"@, JsonSpec::Array(shown)),
            ("truncated"@, JsonSpec::Bool(truncated)),
            ("max_results"@, JsonSpec::Number(JsonNumber::PosInt(max_results as u64))),
        ]);
    }
    r
}

/// A grep output nests at most five levels deep.
proof fn lemma_grep_output_depth(kept: Seq<GrepMatch>, truncated: bool, max_results: usize, skipped: usize)
    ensures
        json_depth(grep_output_spec(kept, truncated, max_results, skipped)) <= 5,
{
    assert forall|i: int| 0 <= i < kept.len() implies json_depth(grep_match_spec(kept[i])) <= 3 by {
        let m = kept[i];
        let ctx = Seq::new(m.context@.len(), |j: int| context_line_spec(m.context@[j]));
        assert forall|j: int| 0 <= j < ctx.len() implies json_depth(#[trigger] ctx[j]) <= 1 by {
            let c = m.context@[j];
            let cm = seq![
                ("line_number"@, JsonSpec::Number(JsonNumber::PosInt(c.line_number as u64))),
                ("content"@, JsonSpec::Str(c.content@)),
            ];
            assert forall|x: int| 0 <= x < cm.len() implies json_depth(#[trigger] cm[x].1) <= 0 by {}
            lemma_members_depth_bound(cm, 0);
        }
        lemma_items_depth_bound(ctx, 1);
        let gm = seq![
            ("path"@, JsonSpec::Str(m.path@)),
            ("line_number"@, JsonSpec::Number(JsonNumber::PosInt(m.line_number as u64))),
            ("line"@, JsonSpec::Str(m.line@)),
            ("context"@, JsonSpec::Array(ctx)),
        ];
        assert forall|x: int| 0 <= x < gm.len() implies json_depth(#[trigger] gm[x].1) <= 2 by {}
        lemma_members_depth_bound(gm, 2);
    }
    let shown = Seq::new(kept.len(), |i: int| grep_match_spec(kept[i]));
    assert forall|i: int| 0 <= i < shown.len() implies json_depth(#[trigger] shown[i]) <= 3 by {}
    lemma_items_depth_bound(shown, 3);
    let om = seq![
        ("matches"@, JsonSpec::Array(shown)),
        ("truncated"@, JsonSpec::Bool(truncated)),
        ("max_results"@, JsonSpec::Number(JsonNumber::PosInt(max_results as u64))),
        ("skipped_large_files"@, JsonSpec::Number(JsonNumber::PosInt(skipped as u64))),
    ];
    assert forall|x: int| 0 <= x < om.len() implies json_depth(#[trigger] om[x].1) <= 4 by {}
    lemma_members_depth_bound(om, 4);
}

/// A glob output nests at most two levels deep.
proof fn lemma_glob_output_depth(kept: Seq<String>, truncated: bool, max_results: usize)
    ensures
        json_depth(glob_output_spec(kept, truncated, max_results)) <= 2,
{
    let shown = Seq::new(kept.len(), |i: int| JsonSpec::Str(kept[i]@));
    assert forall|i: int| 0 <= i < shown.len() implies json_depth(#[trigger] shown[i]) <= 0 by {}
    lemma_items_depth_bound(shown, 0);
    let om = seq![
        ("paths"@, JsonSpec::Array(shown)),
        ("truncated"@, JsonSpec::Bool(truncated)),
        ("max_results"@, JsonSpec::Number(JsonNumber::PosInt(max_results as u64))),
    ];
    assert forall|x: int| 0 <= x < om.len() implies json_depth(#[trigger] om[x].1) <= 1 by {}
    lemma_members_depth_bound(om, 1);
}

/// Whether the grep output with the first `j` matches, `truncated` as
/// given, encodes within `MAX_GREP_OUTPUT_BYTES`.
pub open spec fn grep_fits(
    matches: Seq<GrepMatch>,
    truncated: bool,
    max_results: usize,
    skipped: usize,
) -> spec_fn(nat) -> bool {
    |j: nat|
        encodes_within(
            json_bytes(grep_output_spec(matches.take(j as int), truncated, max_results, skipped)),
            MAX_GREP_OUTPUT_BYTES as nat,
        )
}

/// Whether the glob output with the first `j` paths, `truncated` as given,
/// encodes within `MAX_GLOB_OUTPUT_BYTES`.
pub open spec fn glob_fits(paths: Seq<String>, truncated: bool, max_results: usize) -> spec_fn(nat) -> bool {
    |j: nat|
        encodes_within(
            json_bytes(glob_output_spec(paths.take(j as int), truncated, max_results)),
            MAX_GLOB_OUTPUT_BYTES as nat,
        )
}

/// The grep matches as JSON: as each match is added, the output (with the
/// `truncated` flag as given) is encoded, and the longest run of leading
/// matches whose encoding is at most `MAX_GREP_OUTPUT_BYTES` long is kept,
/// at most `max_results`; the output says it was truncated when it was asked
/// to or when it left out matches it could have taken.
pub fn format_grep_results(
    matches: Vec<GrepMatch>,
    truncated: bool,
    max_results: usize,
    skipped_large_files: usize,
) -> (r: JsonValue)
    ensures
        exists|count: nat|
            {
                &&& #[trigger] is_kept_count(
                    grep_fits(matches@, truncated, max_results, skipped_large_files),
                    max_results as nat,
                    matches@.len(),
                    count,
                )
                &&& json_view(r) == grep_output_spec(
                    matches@.take(count as int),
                    output_truncated(truncated, count, max_results as nat, matches@.len()),
                    max_results,
                    skipped_large_files,
                )
            },
{
    let ghost fits = grep_fits(matches@, truncated, max_results, skipped_large_files);
    let n: usize = if max_results < matches.len() {
        max_results
    } else {
        matches.len()
    };
    let mut count: usize = 0;
    while count < n
        invariant
            n <= max_results,
            n <= matches@.len(),
            count <= n,
            fits == grep_fits(matches@, truncated, max_results, skipped_large_files),
            forall|j: nat| 1 <= j <= count ==> #[trigger] fits(j),
        ensures
            count <= n,
            forall|j: nat| 1 <= j <= count ==> #[trigger] fits(j),
            count < n ==> !fits((count + 1) as nat),
        decreases n - count,
    {
        let candidate = grep_output_json(&matches, count + 1, truncated, max_results, skipped_large_files);
        proof {
            lemma_grep_output_depth(matches@.take(count + 1), truncated, max_results, skipped_large_files);
        }
        let within = match encode_json_bytes(&candidate) {
            Ok(bytes) => bytes.len() <= MAX_GREP_OUTPUT_BYTES,
            Err(_) => false,
        };
        if !within {
            break;
        }
        count = count + 1;
    }
    let out_truncated = truncated || (count < max_results && count < matches.len());
    let r = grep_output_json(&matches, count, out_truncated, max_results, skipped_large_files);
    assert(is_kept_count(fits, max_results as nat, matches@.len(), count as nat));
    r
}

/// The glob paths as JSON: as each path is added, the output (with the
/// `truncated` flag as given) is encoded, and the longest run of leading
/// paths whose encoding is at most `MAX_GLOB_OUTPUT_BYTES` long is kept, at
/// most `max_results`; the output says it was truncated when it was asked
/// to or when it left out paths it could have taken.
pub fn format_glob_results(paths: Vec<String>, truncated: bool, max_results: usize) -> (r: JsonValue)
    ensures
        exists|count: nat|
            {
                &&& #[trigger] is_kept_count(
                    glob_fits(paths@, truncated, max_results),
                    max_results as nat,
                    paths@.len(),
                    count,
                )
                &&& json_view(r) == glob_output_spec(
                    paths@.take(count as int),
                    output_truncated(truncated, count, max_results as nat, paths@.len()),
                    max_results,
                )
            },
{
    let ghost fits = glob_fits(paths@, truncated, max_results);
    let n: usize = if max_results < paths.len() {
        max_results
    } else {
        paths.len()
    };
    let mut count: usize = 0;
    while count < n
        invariant
            n <= max_results,
            n <= paths@.len(),
            count <= n,
            fits == glob_fits(paths@, truncated, max_results),
            forall|j: nat| 1 <= j <= count ==> #[trigger] fits(j),
        ensures
            count <= n,
            forall|j: nat| 1 <= j <= count ==> #[trigger] fits(j),
            count < n ==> !fits((count + 1) as nat),
        decreases n - count,
    {
        let candidate = glob_output_json(&paths, count + 1, truncated, max_results);
        proof {
            lemma_glob_output_depth(paths@.take(count + 1), truncated, max_results);
        }
        let within = match encode_json_bytes(&candidate) {
            Ok(bytes) => bytes.len() <= MAX_GLOB_OUTPUT_BYTES,
            Err(_) => false,
        };
        if !within {
            break;
        }
        count = count + 1;
    }
    let out_truncated = truncated || (count < max_results && count < paths.len());
    let r = glob_output_json(&paths, count, out_truncated, max_results);
    assert(is_kept_count(fits, max_results as nat, paths@.len(), count as nat));
    r
}


/// The semantic-search output with the results `kept`.
pub open spec fn semantic_output_spec(kept: Seq<JsonValue>) -> JsonSpec {
    JsonSpec::Object(seq![("status"@, JsonSpec::Str("ok"@)), ("results"@, JsonSpec::Array(json_view_seq(kept)))])
}

/// Whether the semantic-search output with the first `j` results encodes
/// within `MAX_GREP_OUTPUT_BYTES`.
pub open spec fn semantic_fits(results: Seq<JsonValue>) -> spec_fn(nat) -> bool {
    |j: nat|
        encodes_within(
            json_bytes(semantic_output_spec(results.take(j as int))),
            MAX_GREP_OUTPUT_BYTES as nat,
        )
}

/// The semantic-search output with the first `k` results.
fn semantic_output_json(results: &Vec<JsonValue>, k: usize) -> (r: JsonValue)
    requires
        k <= results@.len(),
    ensures
        json_view(r) == semantic_output_spec(results@.take(k as int)),
{
    let mut items: Vec<JsonValue> = Vec::new();
    let mut i: usize = 0;
    while i < k
        invariant
            k <= results@.len(),
            i <= k,
            json_view_seq(items@) == json_view_seq(results@.take(i as int)),
        decreases k - i,
    {
        let ghost before = items@;
        let item = results[i].duplicate();
        items.push(item);
        proof {
            assert(items@.drop_last() =~= before);
            assert(results@.take(i + 1).drop_last() =~= results@.take(i as int));
        }
        i = i + 1;
    }
    let r = JsonMembers::new().with("status", JsonValue::String(String::from_str("ok"))).with(
        "results",
        JsonValue::Array(items),
    ).build();
    proof {
        let shown = json_view_seq(results@.take(k as int));
        assert(Seq::<(Seq<char>, JsonSpec)>::empty().push(("status"@, JsonSpec::Str("ok"@))).push(
            ("results"@, JsonSpec::Array(shown)),
        ) =~= seq![("status"@, JsonSpec::Str("ok"@)), ("results"@, JsonSpec::Array(shown))]);
    }
    r
}

/// A semantic-search output nests two levels deeper than its results.
proof fn lemma_semantic_output_depth(kept: Seq<JsonValue>)
    requires
        forall|i: int| 0 <= i < kept.len() ==> json_depth(json_view(#[trigger] kept[i])) <= MAX_JSON_DEPTH - 2,
    ensures
        json_depth(semantic_output_spec(kept)) <= MAX_JSON_DEPTH,
{
    let shown = json_view_seq(kept);
    lemma_view_seq(kept);
    assert forall|i: int| 0 <= i < shown.len() implies json_depth(#[trigger] shown[i]) <= MAX_JSON_DEPTH - 2 by {
        assert(shown[i] == json_view(kept[i]));
    }
    lemma_items_depth_bound(shown, (MAX_JSON_DEPTH - 2) as nat);
    let om = seq![("status"@, JsonSpec::Str("ok"@)), ("results"@, JsonSpec::Array(shown))];
    assert forall|x: int| 0 <= x < om.len() implies json_depth(#[trigger] om[x].1) <= MAX_JSON_DEPTH - 1 by {}
    lemma_members_depth_bound(om, (MAX_JSON_DEPTH - 1) as nat);
}

/// Whether `r` is the semantic-search outcome that keeps `count` results:
/// every output with 1 to `count` results encodes within the limit; then
/// either all results are kept, or the output with one more is too long
/// and the `count` results are kept, or encoding it failed and that error is
/// returned.
pub open spec fn semantic_outcome(results: Seq<JsonValue>, r: Result<JsonValue, String>, count: nat) -> bool {
    &&& count <= results.len()
    &&& forall|j: nat| 1 <= j <= count ==> #[trigger] semantic_fits(results)(j)
    &&& if count < results.len() {
        match json_bytes(semantic_output_spec(results.take(count + 1 as int))) {
            Err(e) => r matches Err(m) && m@ == "Could not encode semantic results: "@ + e,
            Ok(b) => b.len() > MAX_GREP_OUTPUT_BYTES && (r matches Ok(v) && json_view(v)
                == semantic_output_spec(results.take(count as int))),
        }
    } else {
        r matches Ok(v) && json_view(v) == semantic_output_spec(results.take(count as int))
    }
}

/// The ranked semantic-search results as JSON: as each result is added, the
/// output is encoded; the run of leading results whose encoding is at most
/// `MAX_GREP_OUTPUT_BYTES` long is kept, and an encoding error stops with
/// "Could not encode semantic results: ...".
pub fn semantic_output(results: Vec<JsonValue>) -> (r: Result<JsonValue, String>)
    requires
        forall|i: int|
            0 <= i < results@.len() ==> json_depth(json_view(#[trigger] results@[i])) <= MAX_JSON_DEPTH
                - 2,
    ensures
        exists|count: nat| #[trigger] semantic_outcome(results@, r, count),
{
    let ghost fits = semantic_fits(results@);
    let n = results.len();
    let mut count: usize = 0;
    let mut failure: Option<String> = None;
    while count < n
        invariant_except_break
            failure is None,
        invariant
            n == results@.len(),
            count <= n,
            fits == semantic_fits(results@),
            forall|i: int|
                0 <= i < results@.len() ==> json_depth(json_view(#[trigger] results@[i]))
                    <= MAX_JSON_DEPTH - 2,
            forall|j: nat| 1 <= j <= count ==> #[trigger] fits(j),
        ensures
            count <= n,
            forall|j: nat| 1 <= j <= count ==> #[trigger] fits(j),
            count < n ==> match json_bytes(semantic_output_spec(results@.take(count + 1))) {
                Err(e) => failure matches Some(m) && m@ == e,
                Ok(b) => b.len() > MAX_GREP_OUTPUT_BYTES && (failure is None),
            },
            count == n ==> failure is None,
        decreases n - count,
    {
        let candidate = semantic_output_json(&results, count + 1);
        proof {
            let kept = results@.take(count + 1);
            assert forall|i: int| 0 <= i < kept.len() implies json_depth(json_view(#[trigger] kept[i]))
                <= MAX_JSON_DEPTH - 2 by {
                assert(kept[i] == results@[i]);
            }
            lemma_semantic_output_depth(kept);
        }
        match encode_json_bytes(&candidate) {
            Ok(bytes) => {
                if bytes.len() > MAX_GREP_OUTPUT_BYTES {
                    break;
                }
            },
            Err(e) => {
                failure = Some(e);
                break;
            },
        }
        count = count + 1;
    }
    let r = match failure {
        Some(e) => Err(concat2("Could not encode semantic results: ", e.as_str())),
        None => Ok(semantic_output_json(&results, count)),
    };
    assert(semantic_outcome(results@, r, count as nat));
    r
}

} // verus!
