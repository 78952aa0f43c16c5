//! Ollama client rules: endpoints, sampling options, model-pull progress,
//! streamed NDJSON framing, events sent to the user interface, and the
//! registry of requests that can be cancelled.

use vstd::prelude::*;
use crate::text::{
    ascii_lowercase, concat2, concat3, contains_seq, contains_str, lower_seq, str_eq,
    strip_trailing, trim, trim_end_char, trim_ws,
};
use crate::weburl::{parse_url, parsed_view, url_parse, ParsedUrl, UrlView};
use crate::json::JsonValue;
use vstd::utf8::{decode_utf8, valid_utf8};
use crate::text::{decimal, decimal_string, take_chars};

verus! {

/// The endpoint used when none is configured.
pub const DEFAULT_OLLAMA_ENDPOINT: &'static str = "http://localhost:11434";

/// The event that carries model-pull progress.
pub const PULL_PROGRESS_EVENT: &'static str = "ollama://pull-progress";

/// The event that carries streamed chat content.
pub const CHAT_CHUNK_EVENT: &'static str = "ollama://chat-chunk";

/// The event that carries streamed reasoning.
pub const CHAT_THINKING_EVENT: &'static str = "ollama://chat-thinking";

/// The event that carries tool-call history.
pub const TOOL_CALL_EVENT: &'static str = "tools://tool-call";

/// The event that asks the user to approve a tool call.
pub const TOOL_APPROVAL_EVENT: &'static str = "tools://approval-request";

/// An installed model, as Ollama's tag list describes it.
#[derive(Clone, Debug)]
pub struct ModelInfo {
    pub name: String,
    pub model: String,
    pub modified_at: String,
    pub size: u64,
    pub digest: String,
    pub details: Option<ModelDetails>,
}

/// Optional details of an installed model.
#[derive(Clone, Debug)]
pub struct ModelDetails {
    pub format: String,
    pub family: String,
    pub parameter_size: String,
    pub quantization_level: String,
}

/// Whether the Ollama server answered, at which endpoint, and a message for the user.
#[derive(Clone, Debug)]
pub struct ServerStatus {
    pub connected: bool,
    pub endpoint: String,
    pub message: String,
}

/// Progress of a model pull, aggregated over its layers.
#[derive(Clone, Debug)]
pub struct PullProgress {
    pub request_id: String,
    pub name: String,
    pub status: String,
    pub digest: Option<String>,
    pub total: Option<u64>,
    pub completed: Option<u64>,
    pub percentage: Option<u8>,
}

/// A piece of streamed chat content; `done` marks the end of a response.
#[derive(Clone, Debug)]
pub struct ChatChunk {
    pub request_id: String,
    pub content: String,
    pub done: bool,
}

/// A piece of streamed model reasoning.
#[derive(Clone, Debug)]
pub struct ChatThinkingChunk {
    pub request_id: String,
    pub thinking: String,
}

/// One line of Ollama's pull stream.
#[derive(Clone, Debug)]
pub struct OllamaPullProgress {
    pub status: String,
    pub digest: Option<String>,
    pub total: Option<u64>,
    pub completed: Option<u64>,
}

/// Whether `r` is the outcome `outcome` with `prefix` put before its error text.
pub open spec fn prefixed_outcome(
    r: Result<(), String>,
    outcome: Result<(), String>,
    prefix: Seq<char>,
) -> bool {
    match outcome {
        Ok(_) => r is Ok,
        Err(e) => r matches Err(f) && f@ == prefix + e@,
    }
}

/// Tags `progress` with `request_id` and hands it to `emit` under the
/// pull-progress event; an emitter error is reported with context.
pub fn emit_pull_progress<F>(progress: PullProgress, request_id: &str, emit: F) -> (r: Result<
    (),
    String,
>) where F: FnOnce(&'static str, PullProgress) -> Result<(), String>
    requires
        forall|event: &'static str, p: PullProgress| call_requires(emit, (event, p)),
    ensures
        exists|sent: PullProgress, outcome: Result<(), String>|
            {
                &&& call_ensures(emit, (PULL_PROGRESS_EVENT, sent), outcome)
                &&& sent.request_id@ == request_id@
                &&& sent.name == progress.name
                &&& sent.status == progress.status
                &&& sent.digest == progress.digest
                &&& sent.total == progress.total
                &&& sent.completed == progress.completed
                &&& sent.percentage == progress.percentage
                &&& prefixed_outcome(r, outcome, "Could not emit model pull progress: "@)
            },
{
    let mut progress = progress;
    progress.request_id = request_id.to_owned();
    let outcome = emit(PULL_PROGRESS_EVENT, progress);
    match outcome {
        Ok(()) => Ok(()),
        Err(error) => Err(concat2("Could not emit model pull progress: ", error.as_str())),
    }
}

/// Tags a reasoning chunk with `request_id` and hands it to `emit` under the
/// chat-thinking event; an emitter error is reported with context.
pub fn emit_chat_thinking<F>(chunk: ChatThinkingChunk, request_id: &str, emit: F) -> (r: Result<
    (),
    String,
>) where F: FnOnce(&'static str, ChatThinkingChunk) -> Result<(), String>
    requires
        forall|event: &'static str, c: ChatThinkingChunk| call_requires(emit, (event, c)),
    ensures
        exists|sent: ChatThinkingChunk, outcome: Result<(), String>|
            {
                &&& call_ensures(emit, (CHAT_THINKING_EVENT, sent), outcome)
                &&& sent.request_id@ == request_id@
                &&& sent.thinking == chunk.thinking
                &&& prefixed_outcome(r, outcome, "Could not emit chat reasoning: "@)
            },
{
    let mut chunk = chunk;
    chunk.request_id = request_id.to_owned();
    let outcome = emit(CHAT_THINKING_EVENT, chunk);
    match outcome {
        Ok(()) => Ok(()),
        Err(error) => Err(concat2("Could not emit chat reasoning: ", error.as_str())),
    }
}

/// Whether an Ollama error message suggests that the model does not support
/// reasoning output: it mentions "think" in any ASCII case.
pub fn is_thinking_unsupported_error(error: &str) -> (r: bool)
    ensures
        r == contains_seq(lower_seq(error@), "think"@),
{
    let lower = ascii_lowercase(error);
    contains_str(lower.as_str(), "think")
}


/// A layer of a model pull: its digest, total bytes and completed bytes.
pub type LayerView = (Seq<char>, u64, u64);

/// `n` capped at `u64::MAX`, as a saturating sum gives it.
pub open spec fn saturate(n: nat) -> u64 {
    if n <= u64::MAX {
        n as u64
    } else {
        u64::MAX
    }
}

/// The sum of the layers' totals.
pub open spec fn sum_totals(layers: Seq<LayerView>) -> nat
    decreases layers.len(),
{
    if layers.len() == 0 {
        0
    } else {
        sum_totals(layers.drop_last()) + layers.last().1 as nat
    }
}

/// The sum of the layers' completed bytes.
pub open spec fn sum_completed(layers: Seq<LayerView>) -> nat
    decreases layers.len(),
{
    if layers.len() == 0 {
        0
    } else {
        sum_completed(layers.drop_last()) + layers.last().2 as nat
    }
}

/// The index of the layer with digest `d`, or the number of layers.
pub open spec fn layer_index(layers: Seq<LayerView>, d: Seq<char>) -> nat
    decreases layers.len(),
{
    if layers.len() == 0 {
        0
    } else if layers[0].0 == d {
        0
    } else {
        1 + layer_index(layers.drop_first(), d)
    }
}

proof fn lemma_layer_index(layers: Seq<LayerView>, d: Seq<char>)
    ensures
        layer_index(layers, d) <= layers.len(),
        layer_index(layers, d) < layers.len() ==> layers[layer_index(layers, d) as int].0 == d,
        forall|i: int| 0 <= i < layer_index(layers, d) ==> layers[i].0 != d,
    decreases layers.len(),
{
    if layers.len() > 0 && layers[0].0 != d {
        lemma_layer_index(layers.drop_first(), d);
        assert forall|i: int| 0 <= i < layer_index(layers, d) implies layers[i].0 != d by {
            if i > 0 {
                assert(layers[i] == layers.drop_first()[i - 1]);
            }
        }
    }
}

/// The layers with `(d, total, completed)` recorded: the layer with digest
/// `d` is replaced in place, or a new layer is added at the end.
pub open spec fn with_layer(layers: Seq<LayerView>, d: Seq<char>, total: u64, completed: u64) -> Seq<
    LayerView,
> {
    let k = layer_index(layers, d);
    if k < layers.len() {
        layers.update(k as int, (d, total, completed))
    } else {
        layers.push((d, total, completed))
    }
}

/// The smaller of two numbers.
pub open spec fn min_u64(a: u64, b: u64) -> u64 {
    if a <= b {
        a
    } else {
        b
    }
}

/// The layers after a pull-stream line: a line with both a digest and a total
/// records that layer, its completed bytes capped at its total.
pub open spec fn layers_after(layers: Seq<LayerView>, item: OllamaPullProgress) -> Seq<LayerView> {
    match (item.digest, item.total) {
        (Some(d), Some(t)) => with_layer(
            layers,
            d@,
            t,
            min_u64(
                match item.completed {
                    Some(c) => c,
                    None => 0,
                },
                t,
            ),
        ),
        _ => layers,
    }
}

/// The total and completed bytes reported after a line, from the recorded
/// layers (saturating sums) or, while there are none, from the line itself.
pub open spec fn reported_bytes(layers: Seq<LayerView>, item: OllamaPullProgress) -> (
    Option<u64>,
    Option<u64>,
) {
    if layers.len() == 0 {
        (item.total, item.completed)
    } else {
        (Some(saturate(sum_totals(layers))), Some(saturate(sum_completed(layers))))
    }
}

/// Whether a pull-stream status is the final `success`.
pub open spec fn is_success(status: Seq<char>) -> bool {
    status == "success"@
}

/// The completed bytes reported: on success, the total when known.
pub open spec fn reported_completed(layers: Seq<LayerView>, item: OllamaPullProgress) -> Option<
    u64,
> {
    let (total, completed) = reported_bytes(layers, item);
    if is_success(item.status@) {
        match total {
            Some(t) => Some(t),
            None => completed,
        }
    } else {
        completed
    }
}

/// The bytes whose share is reported as a percentage when the line is not
/// the final `success`: the completed bytes, capped at the total, and the
/// total, when both are known and the total is not zero.
pub open spec fn percentage_share(layers: Seq<LayerView>, item: OllamaPullProgress) -> Option<
    (u64, u64),
> {
    let total = reported_bytes(layers, item).0;
    let completed = reported_completed(layers, item);
    match (total, completed) {
        (Some(t), Some(c)) => if t > 0 {
            Some((min_u64(c, t), t))
        } else {
            None
        },
        _ => None,
    }
}

/// Combines the per-layer lines of Ollama's pull stream into progress for
/// the whole model.
pub struct PullProgressAggregator {
    layers: Vec<(String, u64, u64)>,
    lines: Ghost<Seq<OllamaPullProgress>>,
}

impl View for PullProgressAggregator {
    type V = Seq<LayerView>;

    closed spec fn view(&self) -> Seq<LayerView> {
        Seq::new(self.layers@.len(), |i: int| (self.layers@[i].0@, self.layers@[i].1, self.layers@[i].2))
    }
}

proof fn lemma_sat_step(acc: nat, x: u64)
    ensures
        saturate((saturate(acc) + x) as nat) == saturate(acc + x as nat),
{
}

impl PullProgressAggregator {
    /// Each digest is recorded at most once.
    pub open spec fn layers_distinct(&self) -> bool {
        forall|i: int, j: int|
            0 <= i < j < self@.len() ==> #[trigger] self@[i].0 != #[trigger] self@[j].0
    }

    /// The pull-stream lines the aggregator has taken, in order.
    pub closed spec fn lines(&self) -> Seq<OllamaPullProgress> {
        self.lines@
    }

    /// The invariant: each digest is recorded at most once, and the layers
    /// are those the lines taken so far leave.
    pub open spec fn wf(&self) -> bool {
        &&& self.layers_distinct()
        &&& self@ == layers_after_lines(self.lines())
    }

    /// An aggregator that has seen no layer.
    pub fn new() -> (r: PullProgressAggregator)
        ensures
            r@ == Seq::<LayerView>::empty(),
            r.lines() == Seq::<OllamaPullProgress>::empty(),
            r.wf(),
    {
        let r = PullProgressAggregator { layers: Vec::new(), lines: Ghost(Seq::empty()) };
        assert(r@ =~= Seq::<LayerView>::empty());
        r
    }

    /// Records a line of the pull stream for `model` and returns the progress of
    /// the whole pull: byte counts summed over the layers seen so far, and a
    /// percentage: 100 on success, otherwise what `percent` gives for the
    /// completed bytes and the total (`percent` rounds a floating-point share,
    /// which the application computes).
    pub fn update<F>(&mut self, model: &str, item: OllamaPullProgress, percent: F) -> (r: PullProgress)
        where
            F: Fn(u64, u64) -> u8,
        requires
            old(self).wf(),
            forall|c: u64, t: u64| 0 < t && c <= t ==> #[trigger] percent.requires((c, t)),
        ensures
            final(self).wf(),
            final(self)@ == layers_after(old(self)@, item),
            final(self).lines() == old(self).lines().push(item),
            r.request_id@ == Seq::<char>::empty(),
            r.name@ == model@,
            r.status == item.status,
            r.digest == item.digest,
            r.total == reported_bytes(final(self)@, item).0,
            r.completed == reported_completed(final(self)@, item),
            is_success(item.status@) ==> r.percentage == Some(100u8),
            !is_success(item.status@) ==> match percentage_share(final(self)@, item) {
                Some((c, t)) => r.percentage matches Some(p) && percent.ensures((c, t), p),
                None => r.percentage is None,
            },
    {
        let ghost before = self@;
        let ghost line = item;
        proof {
            assert(self.lines().push(line).drop_last() =~= self.lines());
        }
        self.lines = Ghost(self.lines@.push(line));
        match (&item.digest, item.total) {
            (Some(d), Some(t)) => {
                let c = match item.completed {
                    Some(c) => if c <= t { c } else { t },
                    None => 0,
                };
                self.record(d.as_str(), t, c);
            },
            _ => {},
        }
        let n = self.layers.len();
        let (total, completed) = if n == 0 {
            (item.total, item.completed)
        } else {
            let mut sum_t: u64 = 0;
            let mut sum_c: u64 = 0;
            let mut i: usize = 0;
            while i < n
                invariant
                    n == self@.len(),
                    i <= n,
                    sum_t == saturate(sum_totals(self@.take(i as int))),
                    sum_c == saturate(sum_completed(self@.take(i as int))),
                decreases n - i,
            {
                let (_, lt, lc) = &self.layers[i];
                proof {
                    assert(self@.take(i + 1).drop_last() =~= self@.take(i as int));
                    lemma_sat_step(sum_totals(self@.take(i as int)), *lt);
                    lemma_sat_step(sum_completed(self@.take(i as int)), *lc);
                }
                sum_t = sum_t.saturating_add(*lt);
                sum_c = sum_c.saturating_add(*lc);
                i = i + 1;
            }
            proof {
                assert(self@.take(n as int) =~= self@);
            }
            (Some(sum_t), Some(sum_c))
        };
        let succeeded = str_eq(item.status.as_str(), "success");
        let completed = if succeeded {
            match total {
                Some(t) => Some(t),
                None => completed,
            }
        } else {
            completed
        };
        let percentage = if succeeded {
            Some(100u8)
        } else {
            match (total, completed) {
                (Some(t), Some(c)) => if t > 0 {
                    let c2 = if c <= t { c } else { t };
                    Some(percent(c2, t))
                } else {
                    None
                },
                _ => None,
            }
        };
        PullProgress {
            request_id: String::new(),
            name: model.to_owned(),
            status: item.status,
            digest: item.digest,
            total,
            completed,
            percentage,
        }
    }

    /// Records layer `d` with the given byte counts, replacing an earlier record.
    fn record(&mut self, d: &str, total: u64, completed: u64)
        requires
            old(self).layers_distinct(),
        ensures
            final(self).layers_distinct(),
            final(self).lines() == old(self).lines(),
            final(self)@ == with_layer(old(self)@, d@, total, completed),
    {
        let n = self.layers.len();
        let mut i: usize = 0;
        proof {
            assert(self@.skip(0) =~= self@);
            lemma_layer_index(self@, d@);
        }
        while i < n && !str_eq(self.layers[i].0.as_str(), d)
            invariant
                n == self@.len(),
                i <= n,
                layer_index(self@, d@) == i + layer_index(self@.skip(i as int), d@),
            decreases n - i,
        {
            proof {
                assert(self@.skip(i as int).drop_first() =~= self@.skip(i + 1));
            }
            i = i + 1;
        }
        let ghost before = self@;
        if i < n {
            self.layers.set(i, (d.to_owned(), total, completed));
            assert(self@ =~= before.update(i as int, (d@, total, completed)));
        } else {
            self.layers.push((d.to_owned(), total, completed));
            assert(self@ =~= before.push((d@, total, completed)));
        }
    }
}


/// What `String::from_utf8_lossy` gives for a byte sequence.
pub uninterp spec fn lossy_utf8(bytes: Seq<u8>) -> Seq<char>;

/// `String::from_utf8_lossy`: decodes `bytes`, replacing invalid UTF-8 with
/// U+FFFD. The contract claims that the text is the one named `lossy_utf8`
/// for these bytes and, as std documents, that valid UTF-8 comes back as the
/// text it encodes; how invalid bytes are replaced is not spelled out.
#[verifier::external_body]
pub(crate) fn utf8_lossy(bytes: &[u8]) -> (r: String)
    ensures
        r@ == lossy_utf8(bytes@),
        valid_utf8(bytes@) ==> r@ == decode_utf8(bytes@),
{
    String::from_utf8_lossy(bytes).into_owned()
}

/// The text of stream bytes: the text valid UTF-8 encodes, otherwise the
/// lossy decoding.
pub open spec fn stream_text(bytes: Seq<u8>) -> Seq<char> {
    if valid_utf8(bytes) {
        decode_utf8(bytes)
    } else {
        lossy_utf8(bytes)
    }
}

/// The line a complete NDJSON segment stands for: decoded and trimmed.
pub open spec fn segment_line(segment: Seq<u8>) -> Seq<char> {
    trim_ws(stream_text(segment))
}

/// Scans a byte stream from the start: the non-empty lines of its complete
/// (newline-terminated) segments, and the bytes after the last newline.
pub open spec fn scan_ndjson(bytes: Seq<u8>) -> (Seq<Seq<char>>, Seq<u8>)
    decreases bytes.len(),
{
    if bytes.len() == 0 {
        (Seq::empty(), Seq::empty())
    } else {
        let (lines, pending) = scan_ndjson(bytes.drop_last());
        ndjson_step(lines, pending, bytes.last())
    }
}

/// One byte of the scan: a newline completes the pending segment.
pub open spec fn ndjson_step(lines: Seq<Seq<char>>, pending: Seq<u8>, b: u8) -> (
    Seq<Seq<char>>,
    Seq<u8>,
) {
    let segment = pending.push(b);
    if b == 10 {
        let line = segment_line(segment);
        (if line.len() > 0 {
            lines.push(line)
        } else {
            lines
        }, Seq::empty())
    } else {
        (lines, segment)
    }
}

/// Scanning `pending` then `more` from an arbitrary state, as `scan_ndjson`
/// does from the empty state.
pub open spec fn scan_from(lines: Seq<Seq<char>>, pending: Seq<u8>, more: Seq<u8>) -> (
    Seq<Seq<char>>,
    Seq<u8>,
)
    decreases more.len(),
{
    if more.len() == 0 {
        (lines, pending)
    } else {
        let (l, p) = scan_from(lines, pending, more.drop_last());
        ndjson_step(l, p, more.last())
    }
}

/// Splits a stream of Ollama's newline-delimited JSON into lines, whatever
/// the chunks it arrives in. It holds the bytes after the last newline.
pub struct NdjsonBuffer {
    bytes: Vec<u8>,
    seen: Ghost<Seq<u8>>,
}

proof fn lemma_scan_no_newline(s: Seq<u8>)
    requires
        forall|i: int| 0 <= i < s.len() ==> s[i] != 10,
    ensures
        scan_ndjson(s) == (Seq::<Seq<char>>::empty(), s),
    decreases s.len(),
{
    if s.len() > 0 {
        lemma_scan_no_newline(s.drop_last());
        assert(s.drop_last().push(s.last()) =~= s);
    }
}

/// Scanning `a` then `b` is scanning `b` from where `a` left off.
proof fn lemma_scan_concat(a: Seq<u8>, b: Seq<u8>)
    ensures
        scan_ndjson(a + b) == scan_from(scan_ndjson(a).0, scan_ndjson(a).1, b),
    decreases b.len(),
{
    if b.len() == 0 {
        assert(a + b =~= a);
    } else {
        lemma_scan_concat(a, b.drop_last());
        assert((a + b).drop_last() =~= a + b.drop_last());
        assert((a + b).last() == b.last());
    }
}

/// Scanning from a state whose lines are `lines` appends to `lines` what the
/// same scan from no lines gives.
proof fn lemma_scan_from_lines(lines: Seq<Seq<char>>, pending: Seq<u8>, more: Seq<u8>)
    ensures
        scan_from(lines, pending, more).0 == lines + scan_from(Seq::empty(), pending, more).0,
        scan_from(lines, pending, more).1 == scan_from(Seq::empty(), pending, more).1,
    decreases more.len(),
{
    if more.len() == 0 {
        assert(lines + Seq::<Seq<char>>::empty() =~= lines);
    } else {
        lemma_scan_from_lines(lines, pending, more.drop_last());
        let (l, p) = scan_from(Seq::empty(), pending, more.drop_last());
        let b = more.last();
        let line = segment_line(p.push(b));
        if b == 10 && line.len() > 0 {
            assert((lines + l).push(line) =~= lines + l.push(line));
        }
    }
}

/// Scanning from a pending segment without lines is scanning the segment
/// followed by the new bytes.
proof fn lemma_scan_from_pending(pending: Seq<u8>, more: Seq<u8>)
    requires
        forall|i: int| 0 <= i < pending.len() ==> pending[i] != 10,
    ensures
        scan_from(Seq::empty(), pending, more) == scan_ndjson(pending + more),
{
    lemma_scan_no_newline(pending);
    lemma_scan_concat(pending, more);
}

impl NdjsonBuffer {
    /// All bytes pushed so far.
    pub closed spec fn seen(&self) -> Seq<u8> {
        self.seen@
    }

    /// The bytes held: those after the last newline.
    pub closed spec fn pending(&self) -> Seq<u8> {
        self.bytes@
    }

    /// The invariant: the held bytes are what scanning everything pushed leaves.
    pub closed spec fn wf(&self) -> bool {
        scan_ndjson(self.seen@).1 == self.bytes@
    }

    /// An empty buffer.
    pub fn new() -> (r: NdjsonBuffer)
        ensures
            r.wf(),
            r.seen() == Seq::<u8>::empty(),
            r.pending() == Seq::<u8>::empty(),
    {
        NdjsonBuffer { bytes: Vec::new(), seen: Ghost(Seq::empty()) }
    }

    /// Adds a chunk and returns the non-empty, trimmed lines it completes.
    pub fn push(&mut self, chunk: &[u8]) -> (r: Vec<String>)
        requires
            old(self).wf(),
        ensures
            final(self).wf(),
            final(self).seen() == old(self).seen() + chunk@,
            final(self).pending() == scan_ndjson(final(self).seen()).1,
            scan_ndjson(final(self).seen()).0 == scan_ndjson(old(self).seen()).0 + r@.map_values(
                |l: String| l@,
            ),
    {
        let ghost seen0 = self.seen@;
        let ghost lines0 = scan_ndjson(seen0).0;
        let mut lines: Vec<String> = Vec::new();
        let mut pending: Vec<u8> = Vec::new();
        let mut i: usize = 0;
        let n = self.bytes.len();
        while i < n
            invariant
                n == self.bytes@.len(),
                i <= n,
                pending@ == self.bytes@.take(i as int),
                lines@.len() == 0,
            decreases n - i,
        {
            pending.push(self.bytes[i]);
            proof {
                assert(self.bytes@.take(i + 1) =~= self.bytes@.take(i as int).push(self.bytes@[i as int]));
            }
            i = i + 1;
        }
        proof {
            assert(self.bytes@.take(n as int) =~= self.bytes@);
            assert(scan_from(lines0, pending@, chunk@.take(0)) == (lines0, pending@));
        }
        let m = chunk.len();
        let mut j: usize = 0;
        while j < m
            invariant
                m == chunk@.len(),
                j <= m,
                scan_from(lines0, scan_ndjson(seen0).1, chunk@.take(j as int)) == (
                    lines0 + lines@.map_values(|l: String| l@),
                    pending@,
                ),
            decreases m - j,
        {
            let b = chunk[j];
            pending.push(b);
            proof {
                assert(chunk@.take(j + 1).drop_last() =~= chunk@.take(j as int));
            }
            if b == 10 {
                let line = trim(utf8_lossy(pending.as_slice()).as_str());
                let ghost before = lines@;
                if line.unicode_len() > 0 {
                    lines.push(line);
                    proof {
                        assert(lines@.map_values(|l: String| l@) =~= before.map_values(
                            |l: String| l@,
                        ).push(line@));
                        assert(lines0 + lines@.map_values(|l: String| l@) =~= (lines0
                            + before.map_values(|l: String| l@)).push(line@));
                    }
                }
                pending = Vec::new();
                proof {
                    assert(pending@ =~= Seq::<u8>::empty());
                }
            }
            j = j + 1;
        }
        proof {
            assert(chunk@.take(m as int) =~= chunk@);
            lemma_scan_concat(seen0, chunk@);
        }
        self.bytes = pending;
        self.seen = Ghost(seen0 + chunk@);
        lines
    }

    /// The last line, when the stream ended without a final newline: the
    /// bytes after the last newline of everything pushed, decoded and
    /// trimmed, when that is not blank.
    pub fn finish(self) -> (r: Option<String>)
        requires
            self.wf(),
        ensures
            match r {
                Some(line) => line@ == trim_ws(stream_text(scan_ndjson(self.seen()).1))
                    && line@.len() > 0,
                None => trim_ws(stream_text(scan_ndjson(self.seen()).1)).len() == 0,
            },
    {
        let line = trim(utf8_lossy(self.bytes.as_slice()).as_str());
        if line.unicode_len() > 0 {
            Some(line)
        } else {
            None
        }
    }
}

/// Chunking does not matter: the lines scanned from `a` followed by `b` are
/// the lines scanned from `a` and then those scanned from what `a` left
/// pending followed by `b`.
pub proof fn law_ndjson_chunks_compose(a: Seq<u8>, b: Seq<u8>)
    ensures
        scan_ndjson(a + b).0 == scan_ndjson(a).0 + scan_ndjson(scan_ndjson(a).1 + b).0,
        scan_ndjson(a + b).1 == scan_ndjson(scan_ndjson(a).1 + b).1,
{
    lemma_pending_has_no_newline(a);
    lemma_scan_concat(a, b);
    lemma_scan_from_lines(scan_ndjson(a).0, scan_ndjson(a).1, b);
    lemma_scan_from_pending(scan_ndjson(a).1, b);
}

/// What a scan leaves pending holds no newline.
proof fn lemma_pending_has_no_newline(a: Seq<u8>)
    ensures
        forall|i: int| 0 <= i < scan_ndjson(a).1.len() ==> scan_ndjson(a).1[i] != 10,
    decreases a.len(),
{
    if a.len() > 0 {
        lemma_pending_has_no_newline(a.drop_last());
        let (l, p) = scan_ndjson(a.drop_last());
        let b = a.last();
        if b != 10 {
            assert forall|i: int| 0 <= i < p.push(b).len() implies p.push(b)[i] != 10 by {
                if i < p.len() {
                    assert(p.push(b)[i] == p[i]);
                }
            }
        }
    }
}


/// The endpoint accepted for an input, or the message that rejects it: the
/// input is trimmed and loses its trailing slashes, and must then parse as an
/// HTTP or HTTPS URL with a host and without a query or fragment.
pub open spec fn spec_normalize_endpoint(endpoint: Seq<char>) -> Result<Seq<char>, Seq<char>> {
    let t = strip_trailing(trim_ws(endpoint), '/');
    endpoint_from_parsed(t, url_parse(t))
}

/// The endpoint `t` accepted once it parsed as `parsed`, or the message
/// that rejects it: it must be an HTTP or HTTPS URL with a host and without
/// a query or fragment.
pub open spec fn endpoint_from_parsed(t: Seq<char>, parsed: Result<UrlView, Seq<char>>) -> Result<
    Seq<char>,
    Seq<char>,
> {
    match parsed {
        Err(e) => Err("Invalid Ollama URL: "@ + e),
        Ok(u) => if !(u.scheme == "http"@ || u.scheme == "https"@) || u.host is None {
            Err("Ollama URL must be an HTTP or HTTPS URL with a host."@)
        } else if u.query is Some || u.fragment is Some {
            Err("Ollama URL cannot include a query or fragment."@)
        } else {
            Ok(t)
        },
    }
}

/// The view of a result whose value and error are strings.
pub open spec fn text_result(r: Result<String, String>) -> Result<Seq<char>, Seq<char>> {
    match r {
        Ok(v) => Ok(v@),
        Err(e) => Err(e@),
    }
}

/// The Ollama base URL for a configured endpoint, without trailing slashes.
pub fn normalize_endpoint(endpoint: &str) -> (r: Result<String, String>)
    ensures
        text_result(r) == spec_normalize_endpoint(endpoint@),
{
    let trimmed = trim(endpoint);
    let t = trim_end_char(trimmed.as_str(), '/');
    let parsed = parse_url(t.as_str());
    check_endpoint_url(t, parsed)
}

/// Accepts the endpoint `t` once it parsed as `parsed`: an HTTP or HTTPS URL
/// with a host and without a query or fragment.
pub fn check_endpoint_url(t: String, parsed: Result<ParsedUrl, String>) -> (r: Result<String, String>)
    ensures
        text_result(r) == endpoint_from_parsed(t@, parsed_view(parsed)),
{
    let parsed = match parsed {
        Ok(u) => u,
        Err(error) => {
            return Err(concat2("Invalid Ollama URL: ", error.as_str()));
        },
    };
    let web = str_eq(parsed.scheme.as_str(), "http") || str_eq(parsed.scheme.as_str(), "https");
    if !web || parsed.host.is_none() {
        return Err(String::from_str("Ollama URL must be an HTTP or HTTPS URL with a host."));
    }
    if parsed.query.is_some() || parsed.fragment.is_some() {
        return Err(String::from_str("Ollama URL cannot include a query or fragment."));
    }
    Ok(t)
}

/// The URL of an API path under an endpoint.
pub open spec fn spec_api_url(endpoint: Seq<char>, path: Seq<char>) -> Result<Seq<char>, Seq<char>> {
    match spec_normalize_endpoint(endpoint) {
        Ok(base) => Ok(base + path),
        Err(e) => Err(e),
    }
}

/// The URL of `path` (such as `/api/chat`) under the configured endpoint.
pub fn api_url(endpoint: &str, path: &str) -> (r: Result<String, String>)
    ensures
        text_result(r) == spec_api_url(endpoint@, path@),
{
    match normalize_endpoint(endpoint) {
        Ok(base) => Ok(concat2(base.as_str(), path)),
        Err(e) => Err(e),
    }
}

/// The endpoint a backend is created with: the given one without trailing slashes.
pub fn backend_endpoint(endpoint: &str) -> (r: String)
    ensures
        r@ == strip_trailing(endpoint@, '/'),
{
    trim_end_char(endpoint, '/')
}

/// How the server answered a status probe.
pub enum StatusReply {
    /// A successful HTTP status.
    Success,
    /// An unsuccessful HTTP status, with its text (such as `404 Not Found`).
    HttpStatus(String),
    /// No answer, with the error's text.
    Unreachable(String),
}

/// The endpoint and the probe URL for a status check, or the status that
/// reports an unusable endpoint without probing.
pub fn status_request(endpoint: &str) -> (r: Result<(String, String), ServerStatus>)
    ensures
        match r {
            Ok((normalized, url)) => spec_normalize_endpoint(endpoint@) == Ok::<
                Seq<char>,
                Seq<char>,
            >(normalized@) && spec_api_url(normalized@, "/api/tags"@) == Ok::<
                Seq<char>,
                Seq<char>,
            >(url@),
            Err(status) => !status.connected && match spec_normalize_endpoint(endpoint@) {
                Err(message) => status.endpoint@ == endpoint@ && status.message@ == message,
                Ok(normalized) => status.endpoint@ == normalized && spec_api_url(
                    normalized,
                    "/api/tags"@,
                ) == Err::<Seq<char>, Seq<char>>(status.message@),
            },
        },
{
    let normalized = match normalize_endpoint(endpoint) {
        Ok(e) => e,
        Err(message) => {
            return Err(ServerStatus { connected: false, endpoint: endpoint.to_owned(), message });
        },
    };
    match api_url(normalized.as_str(), "/api/tags") {
        Ok(url) => Ok((normalized, url)),
        Err(message) => Err(ServerStatus { connected: false, endpoint: normalized, message }),
    }
}

/// The status reported for a probe of `endpoint` that got `reply`.
pub fn status_from_reply(endpoint: String, reply: StatusReply) -> (r: ServerStatus)
    ensures
        r.endpoint == endpoint,
        r.connected == (reply is Success),
        match reply {
            StatusReply::Success => r.message@ == "Connected to Ollama"@,
            StatusReply::HttpStatus(code) => r.message@ == "Ollama returned HTTP "@ + code@,
            StatusReply::Unreachable(error) => r.message@
                == "Ollama is not running or unreachable: "@ + error@,
        },
{
    match reply {
        StatusReply::Success => ServerStatus {
            connected: true,
            endpoint,
            message: String::from_str("Connected to Ollama"),
        },
        StatusReply::HttpStatus(code) => ServerStatus {
            connected: false,
            endpoint,
            message: concat2("Ollama returned HTTP ", code.as_str()),
        },
        StatusReply::Unreachable(error) => ServerStatus {
            connected: false,
            endpoint,
            message: concat2("Ollama is not running or unreachable: ", error.as_str()),
        },
    }
}

/// The bit pattern of the IEEE-754 binary64 value `-0.0`.
pub const NEGATIVE_ZERO_BITS: u64 = 0x8000_0000_0000_0000;

/// The bit pattern of `1.0`.
pub const ONE_BITS: u64 = 0x3ff0_0000_0000_0000;

/// The bit pattern of `2.0`.
pub const TWO_BITS: u64 = 0x4000_0000_0000_0000;

/// Whether the binary64 value with bit pattern `bits` is finite and lies in
/// `[0, x]`, where `upper` is the bit pattern of the positive finite `x`.
/// Non-negative finite values are ordered as their bit patterns, infinities
/// and NaNs have larger patterns than every finite value, and the only value
/// with the sign bit set that is `>= 0` is `-0.0`.
pub open spec fn float_bits_in_range(bits: u64, upper: u64) -> bool {
    bits == NEGATIVE_ZERO_BITS || bits <= upper
}

/// Which sampling option is invalid, if any: temperature in `[0, 2]`, top-p in
/// `[0, 1]` (both finite, given by their bit patterns), context length in
/// `[256, 131072]`.
pub open spec fn spec_validate_sampling(temperature_bits: u64, top_p_bits: u64, num_ctx: i64) -> Result<
    (),
    Seq<char>,
> {
    if !float_bits_in_range(temperature_bits, TWO_BITS) {
        Err("Temperature must be between 0 and 2."@)
    } else if !float_bits_in_range(top_p_bits, ONE_BITS) {
        Err("Top-p must be between 0 and 1."@)
    } else if !(256 <= num_ctx && num_ctx <= 131072) {
        Err("Context length must be between 256 and 131072."@)
    } else {
        Ok(())
    }
}

/// Checks the sampling options of a chat request or saved session.
pub fn validate_sampling(temperature_bits: u64, top_p_bits: u64, num_ctx: i64) -> (r: Result<(), String>)
    ensures
        match r {
            Ok(_) => spec_validate_sampling(temperature_bits, top_p_bits, num_ctx) is Ok,
            Err(e) => spec_validate_sampling(temperature_bits, top_p_bits, num_ctx) == Err::<
                (),
                Seq<char>,
            >(e@),
        },
{
    if !(temperature_bits == NEGATIVE_ZERO_BITS || temperature_bits <= TWO_BITS) {
        return Err(String::from_str("Temperature must be between 0 and 2."));
    }
    if !(top_p_bits == NEGATIVE_ZERO_BITS || top_p_bits <= ONE_BITS) {
        return Err(String::from_str("Top-p must be between 0 and 1."));
    }
    if !(256 <= num_ctx && num_ctx <= 131072) {
        return Err(String::from_str("Context length must be between 256 and 131072."));
    }
    Ok(())
}

/// How a tool call ended: `not_run` when it was rejected, `failed` when its
/// result has an `error` member or a non-zero integer `exit_code`, otherwise
/// `succeeded`.
pub open spec fn spec_execution_status(result: JsonValue, approval_status: Seq<char>) -> Seq<char> {
    if approval_status == "rejected"@ {
        "not_run"@
    } else if result.spec_get("error"@) is Some || match result.spec_get("exit_code"@) {
        Some(v) => match v.spec_as_i64() {
            Some(code) => code != 0,
            None => false,
        },
        None => false,
    } {
        "failed"@
    } else {
        "succeeded"@
    }
}

/// How a tool call ended, from its result and its approval status.
pub fn execution_status(result: &JsonValue, approval_status: &str) -> (r: &'static str)
    ensures
        r@ == spec_execution_status(*result, approval_status@),
{
    if str_eq(approval_status, "rejected") {
        return "not_run";
    }
    let failed_code = match result.get("exit_code") {
        Some(v) => match v.as_i64() {
            Some(code) => code != 0,
            None => false,
        },
        None => false,
    };
    if result.get("error").is_some() || failed_code {
        "failed"
    } else {
        "succeeded"
    }
}

/// The longest argument summary kept, in characters.
pub const MAX_SUMMARY_CHARACTERS: usize = 2000;

/// A summary of encoded tool arguments: the first 2000 characters, marked
/// as truncated when there were more.
pub open spec fn spec_summary(encoded: Seq<char>) -> Seq<char> {
    if encoded.len() > MAX_SUMMARY_CHARACTERS {
        encoded.take(MAX_SUMMARY_CHARACTERS as int) + "...[truncated]"@
    } else {
        encoded
    }
}

/// Shortens the JSON text of tool arguments for the audit log.
pub fn truncate_summary(encoded: &str) -> (r: String)
    ensures
        r@ == spec_summary(encoded@),
{
    let n = encoded.unicode_len();
    let head = take_chars(encoded, MAX_SUMMARY_CHARACTERS);
    if n > MAX_SUMMARY_CHARACTERS {
        concat2(head.as_str(), "...[truncated]")
    } else {
        head
    }
}

/// `std::time::SystemTime`, carried through opaque.
#[verifier::external_type_specification]
#[verifier::external_body]
pub struct ExSystemTime(std::time::SystemTime);

/// `SystemTime::now`: the clock's current reading. Nothing is claimed of it.
#[verifier::external_body]
fn system_time_now() -> (r: std::time::SystemTime) {
    std::time::SystemTime::now()
}

/// `SystemTime::duration_since(UNIX_EPOCH)`: the time elapsed since the Unix
/// epoch, `None` when `t` is before it. Nothing is claimed of which: that
/// depends on the clock.
#[verifier::external_body]
fn since_unix_epoch(t: &std::time::SystemTime) -> (r: Option<std::time::Duration>) {
    t.duration_since(std::time::UNIX_EPOCH).ok()
}

/// `Duration::as_millis`: the whole milliseconds of `d`. Verus sees nothing
/// inside a `Duration`, so nothing is claimed of the number.
#[verifier::external_body]
fn duration_millis(d: &std::time::Duration) -> (r: u128) {
    d.as_millis()
}

/// The milliseconds since the Unix epoch, or `None` when the clock is set
/// before it.
fn now_unix_millis() -> (r: Option<u128>) {
    let now = system_time_now();
    match since_unix_epoch(&now) {
        Some(d) => Some(duration_millis(&d)),
        None => None,
    }
}

/// The text of a timestamp: the milliseconds in decimal, or `0` without a clock.
pub fn timestamp_text(millis: Option<u128>) -> (r: String)
    ensures
        r@ == match millis {
            Some(m) => decimal(m as nat),
            None => "0"@,
        },
{
    match millis {
        Some(m) => decimal_string(m),
        None => String::from_str("0"),
    }
}

/// The current time as decimal milliseconds since the Unix epoch, or `0`.
pub fn unix_timestamp() -> (r: String)
    ensures
        r@ == "0"@ || exists|m: nat| r@ == decimal(m),
{
    timestamp_text(now_unix_millis())
}

/// The context length used when a request gives none.
pub fn default_num_ctx() -> (r: u32)
    ensures
        r == 4096,
{
    4096
}

/// The endpoint of a chat request: its own, or the default when it names
/// none, normalized.
pub fn chat_request_endpoint(endpoint: &str) -> (r: Result<String, String>)
    ensures
        text_result(r) == spec_normalize_endpoint(
            if endpoint@.len() == 0 {
                DEFAULT_OLLAMA_ENDPOINT@
            } else {
                endpoint@
            },
        ),
{
    if endpoint.is_empty() {
        normalize_endpoint(DEFAULT_OLLAMA_ENDPOINT)
    } else {
        normalize_endpoint(endpoint)
    }
}

/// The error of a model pull that was cancelled.
pub fn pull_cancelled() -> (r: String)
    ensures
        r@ == "Model pull cancelled"@,
{
    String::from_str("Model pull cancelled")
}

impl Default for PullProgressAggregator {
    /// An aggregator that has seen no layer.
    fn default() -> (r: PullProgressAggregator)
        ensures
            r@ == Seq::<LayerView>::empty(),
            r.lines() == Seq::<OllamaPullProgress>::empty(),
            r.wf(),
    {
        PullProgressAggregator::new()
    }
}

impl Default for NdjsonBuffer {
    /// An empty buffer.
    fn default() -> (r: NdjsonBuffer)
        ensures
            r.wf(),
            r.seen() == Seq::<u8>::empty(),
            r.pending() == Seq::<u8>::empty(),
    {
        NdjsonBuffer::new()
    }
}

/// The error for an unsuccessful HTTP answer: its status and body.
pub fn http_error(status: &str, body: &str) -> (r: String)
    ensures
        r@ == "Ollama returned HTTP "@ + status@ + ": "@ + body@,
{
    let head = concat3("Ollama returned HTTP ", status, ": ");
    concat2(head.as_str(), body)
}


/// The layer a pull-stream line records: its digest, its total and its
/// completed bytes (0 when missing) capped at the total; nothing when the
/// line lacks a digest or a total.
pub open spec fn recorded_layer(item: OllamaPullProgress) -> Option<LayerView> {
    match (item.digest, item.total) {
        (Some(d), Some(t)) => Some(
            (
                d@,
                t,
                min_u64(
                    match item.completed {
                        Some(c) => c,
                        None => 0,
                    },
                    t,
                ),
            ),
        ),
        _ => None,
    }
}

/// The layers an aggregator holds after the lines `items`, from empty.
pub open spec fn layers_after_lines(items: Seq<OllamaPullProgress>) -> Seq<LayerView>
    decreases items.len(),
{
    if items.len() == 0 {
        Seq::empty()
    } else {
        layers_after(layers_after_lines(items.drop_last()), items.last())
    }
}

/// The total and completed bytes that the last of `items` recording digest
/// `d` gave, if any did.
pub open spec fn latest_layer(items: Seq<OllamaPullProgress>, d: Seq<char>) -> Option<(u64, u64)>
    decreases items.len(),
{
    if items.len() == 0 {
        None
    } else {
        match recorded_layer(items.last()) {
            Some((d2, t, c)) => if d2 == d {
                Some((t, c))
            } else {
                latest_layer(items.drop_last(), d)
            },
            None => latest_layer(items.drop_last(), d),
        }
    }
}

/// Over any sequence of pull-stream lines, the aggregator holds one layer
/// for each digest sent with a total, no digest twice, each with the total
/// and capped completed bytes of the latest line that recorded it. The
/// progress each update reports sums these layers (saturating), as its
/// contract states.
pub proof fn law_pull_layers_are_latest(items: Seq<OllamaPullProgress>)
    ensures
        forall|i: int, j: int|
            0 <= i < j < layers_after_lines(items).len() ==> #[trigger] layers_after_lines(items)[i].0
                != #[trigger] layers_after_lines(items)[j].0,
        forall|i: int|
            0 <= i < layers_after_lines(items).len() ==> latest_layer(
                items,
                #[trigger] layers_after_lines(items)[i].0,
            ) == Some((layers_after_lines(items)[i].1, layers_after_lines(items)[i].2)),
        forall|d: Seq<char>|
            #[trigger] latest_layer(items, d) is Some ==> exists|i: int|
                0 <= i < layers_after_lines(items).len() && layers_after_lines(items)[i].0 == d,
    decreases items.len(),
{
    if items.len() > 0 {
        let prefix = items.drop_last();
        let item = items.last();
        law_pull_layers_are_latest(prefix);
        let before = layers_after_lines(prefix);
        let after = layers_after_lines(items);
        assert(after == layers_after(before, item));
        match recorded_layer(item) {
            None => {
                assert(after == before);
                assert forall|d: Seq<char>| latest_layer(items, d) == latest_layer(prefix, d) by {}
            },
            Some((d0, t, c)) => {
                lemma_layer_index(before, d0);
                let k = layer_index(before, d0);
                assert(after == with_layer(before, d0, t, c));
                if k < before.len() {
                    assert(after == before.update(k as int, (d0, t, c)));
                    assert forall|i: int| 0 <= i < after.len() && i != k implies before[i].0 != d0 by {
                        if i < k {
                        } else {
                            assert(before[i].0 != before[k as int].0);
                        }
                    }
                    assert forall|i: int, j: int|
                        0 <= i < j < after.len() implies #[trigger] after[i].0 != #[trigger] after[j].0 by {
                        assert(before[i].0 != before[j].0);
                    }
                    assert forall|i: int| 0 <= i < after.len() implies latest_layer(
                        items,
                        #[trigger] after[i].0,
                    ) == Some((after[i].1, after[i].2)) by {
                        if i != k {
                            assert(after[i] == before[i]);
                        }
                    }
                    assert forall|d: Seq<char>| #[trigger] latest_layer(items, d) is Some implies exists|
                        i: int,
                    | 0 <= i < after.len() && after[i].0 == d by {
                        if d == d0 {
                            assert(after[k as int].0 == d);
                        } else {
                            assert(latest_layer(items, d) == latest_layer(prefix, d));
                            assert(latest_layer(prefix, d) is Some);
                            let w = choose|i: int| 0 <= i < before.len() && before[i].0 == d;
                            assert(w != k);
                            assert(after[w] == before[w]);
                            assert(after[w].0 == d);
                        }
                    }
                } else {
                    assert(after == before.push((d0, t, c)));
                    assert forall|i: int, j: int|
                        0 <= i < j < after.len() implies #[trigger] after[i].0 != #[trigger] after[j].0 by {
                        if j < before.len() {
                            assert(before[i].0 != before[j].0);
                        } else {
                            assert(before[i].0 != d0);
                        }
                    }
                    assert forall|i: int| 0 <= i < after.len() implies latest_layer(
                        items,
                        #[trigger] after[i].0,
                    ) == Some((after[i].1, after[i].2)) by {
                        if i < before.len() {
                            assert(after[i] == before[i]);
                            assert(before[i].0 != d0);
                        }
                    }
                    assert forall|d: Seq<char>| #[trigger] latest_layer(items, d) is Some implies exists|
                        i: int,
                    | 0 <= i < after.len() && after[i].0 == d by {
                        if d == d0 {
                            assert(after[before.len() as int].0 == d);
                        } else {
                            assert(latest_layer(items, d) == latest_layer(prefix, d));
                            assert(latest_layer(prefix, d) is Some);
                            let w = choose|i: int| 0 <= i < before.len() && before[i].0 == d;
                            assert(after[w] == before[w]);
                            assert(after[w].0 == d);
                        }
                    }
                }
            },
        }
    }
}


/// Whatever pull-stream lines an aggregator has taken since it was created,
/// it holds one layer for each digest sent with a total, no digest twice,
/// each with the total and capped completed bytes of the latest line that
/// recorded it; each update reports the saturating sums of these layers.
pub proof fn law_aggregator_holds_latest_layers(agg: PullProgressAggregator)
    requires
        agg.wf(),
    ensures
        forall|i: int, j: int| 0 <= i < j < agg@.len() ==> #[trigger] agg@[i].0 != #[trigger] agg@[j].0,
        forall|i: int|
            0 <= i < agg@.len() ==> latest_layer(agg.lines(), #[trigger] agg@[i].0) == Some(
                (agg@[i].1, agg@[i].2),
            ),
        forall|d: Seq<char>|
            #[trigger] latest_layer(agg.lines(), d) is Some ==> exists|i: int|
                0 <= i < agg@.len() && agg@[i].0 == d,
{
    law_pull_layers_are_latest(agg.lines());
}

} // verus!
