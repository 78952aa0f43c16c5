use legion::json::{JsonNumber, JsonValue};
use legion::weburl::ParsedUrl;
use legion::ollama::{
    api_url, backend_endpoint, chat_request_endpoint, check_endpoint_url, default_num_ctx, emit_chat_thinking,
    emit_pull_progress, execution_status, is_thinking_unsupported_error, normalize_endpoint,
    status_from_reply, status_request, timestamp_text, truncate_summary, unix_timestamp,
    validate_sampling, ChatThinkingChunk, NdjsonBuffer, OllamaPullProgress, PullProgress,
    PullProgressAggregator, StatusReply, CHAT_THINKING_EVENT, PULL_PROGRESS_EVENT,
};

fn share_percentage(completed: u64, total: u64) -> u8 {
    ((completed.min(total) as f64 / total as f64) * 100.0).round() as u8
}

#[test]
fn aggregates_pull_progress_across_layers_and_marks_success() {
    let mut aggregator = PullProgressAggregator::default();
    let first = aggregator.update(
        "llama3.1:8b",
        OllamaPullProgress {
            status: "pulling".to_owned(),
            digest: Some("layer-a".to_owned()),
            total: Some(100),
            completed: Some(50),
        },
        share_percentage,
    );
    assert_eq!(first.total, Some(100));
    assert_eq!(first.completed, Some(50));
    assert_eq!(first.percentage, Some(50));
    assert_eq!(first.name, "llama3.1:8b");

    let second = aggregator.update(
        "llama3.1:8b",
        OllamaPullProgress {
            status: "pulling".to_owned(),
            digest: Some("layer-b".to_owned()),
            total: Some(300),
            completed: Some(100),
        },
        share_percentage,
    );
    assert_eq!(second.total, Some(400));
    assert_eq!(second.completed, Some(150));
    assert_eq!(second.percentage, Some(38));

    let complete = aggregator.update(
        "llama3.1:8b",
        OllamaPullProgress {
            status: "success".to_owned(),
            digest: None,
            total: None,
            completed: None,
        },
        share_percentage,
    );
    assert_eq!(complete.completed, Some(400));
    assert_eq!(complete.percentage, Some(100));
}

#[test]
fn emits_aggregated_model_progress_with_request_id() {
    let mut emitted = None;
    emit_pull_progress(
        PullProgress {
            request_id: String::new(),
            name: "llama3.1:8b".to_owned(),
            status: "pulling".to_owned(),
            digest: Some("layer-a".to_owned()),
            total: Some(100),
            completed: Some(25),
            percentage: Some(25),
        },
        "request-1",
        |event, progress| {
            emitted = Some((event, progress));
            Ok(())
        },
    )
    .expect("progress event is emitted");

    let (event, progress) = emitted.expect("emitter receives the event");
    assert_eq!(event, PULL_PROGRESS_EVENT);
    assert_eq!(progress.request_id, "request-1");
    assert_eq!(progress.name, "llama3.1:8b");
    assert_eq!(progress.percentage, Some(25));
}

#[test]
fn emits_chat_thinking_with_the_request_id() {
    let mut emitted = None;
    emit_chat_thinking(
        ChatThinkingChunk {
            request_id: String::new(),
            thinking: "reasoning delta".to_owned(),
        },
        "request-1",
        |event, chunk| {
            emitted = Some((event, chunk));
            Ok(())
        },
    )
    .expect("thinking event is emitted");

    let (event, chunk) = emitted.expect("emitter receives the event");
    assert_eq!(event, CHAT_THINKING_EVENT);
    assert_eq!(chunk.request_id, "request-1");
    assert_eq!(chunk.thinking, "reasoning delta");
}

#[test]
fn reports_an_emitter_error_with_context() {
    let result = emit_chat_thinking(
        ChatThinkingChunk {
            request_id: String::new(),
            thinking: "x".to_owned(),
        },
        "request-1",
        |_, _| Err("window closed".to_owned()),
    );
    assert_eq!(
        result,
        Err("Could not emit chat reasoning: window closed".to_owned())
    );
}

#[test]
fn validates_ollama_endpoint_and_sampling_options() {
    assert_eq!(
        normalize_endpoint(" https://ollama.example/ "),
        Ok("https://ollama.example".to_owned())
    );
    assert!(normalize_endpoint("file:///tmp/ollama").is_err());
    assert!(normalize_endpoint("http://localhost:11434/?token=x").is_err());

    let temperature = 0.7f64;
    let top_p = 0.9f64;
    let num_ctx = i64::from(default_num_ctx());
    assert!(validate_sampling(temperature.to_bits(), top_p.to_bits(), num_ctx).is_ok());
    assert!(validate_sampling(2.1f64.to_bits(), top_p.to_bits(), num_ctx).is_err());
    assert!(validate_sampling(temperature.to_bits(), (-0.1f64).to_bits(), num_ctx).is_err());
}

#[test]
fn checks_sampling_bounds_exactly() {
    let ok = |t: f64, p: f64, n: i64| validate_sampling(t.to_bits(), p.to_bits(), n);
    assert!(ok(0.0, 0.0, 256).is_ok());
    assert!(ok(-0.0, 1.0, 131072).is_ok());
    assert!(ok(2.0, 1.0, 4096).is_ok());
    assert_eq!(
        ok(f64::NAN, 0.5, 4096),
        Err("Temperature must be between 0 and 2.".to_owned())
    );
    assert_eq!(
        ok(1.0, f64::INFINITY, 4096),
        Err("Top-p must be between 0 and 1.".to_owned())
    );
    assert_eq!(
        ok(1.0, 0.5, 255),
        Err("Context length must be between 256 and 131072.".to_owned())
    );
    assert_eq!(default_num_ctx(), 4096);
}

#[test]
fn splits_ndjson_across_arbitrary_chunks() {
    let mut buffer = NdjsonBuffer::default();
    assert!(buffer.push(br#"{"name":"llama"#).is_empty());
    assert_eq!(
        buffer.push(b".3\"}\n{\"name\":\"qwen\"}\n"),
        vec![r#"{"name":"llama.3"}"#, r#"{"name":"qwen"}"#]
    );
}

#[test]
fn ndjson_lines_do_not_depend_on_how_the_stream_is_cut() {
    let stream = b"{\"a\":1}\r\n\n  {\"b\":2}\n{\"c\":3}";
    let mut whole = NdjsonBuffer::new();
    let mut lines = whole.push(stream);
    lines.extend(whole.finish());
    for cut in 0..stream.len() {
        let mut parts = NdjsonBuffer::new();
        let mut split = parts.push(&stream[..cut]);
        split.extend(parts.push(&stream[cut..]));
        split.extend(parts.finish());
        assert_eq!(split, lines);
    }
    assert_eq!(lines, vec!["{\"a\":1}", "{\"b\":2}", "{\"c\":3}"]);
}

#[test]
fn recognizes_servers_that_reject_reasoning() {
    assert!(is_thinking_unsupported_error(
        "Ollama returned HTTP 400: model does not support THINKING"
    ));
    assert!(!is_thinking_unsupported_error("Ollama returned HTTP 500"));
}

#[test]
fn builds_api_urls_and_status_reports() {
    assert_eq!(
        api_url("http://localhost:11434/", "/api/chat"),
        Ok("http://localhost:11434/api/chat".to_owned())
    );
    assert_eq!(backend_endpoint("http://host//"), "http://host");
    assert_eq!(
        chat_request_endpoint(""),
        Ok("http://localhost:11434".to_owned())
    );
    let (endpoint, url) = status_request("http://localhost:11434").expect("endpoint is usable");
    assert_eq!(url, "http://localhost:11434/api/tags");
    let status = status_from_reply(endpoint.clone(), StatusReply::Success);
    assert!(status.connected);
    assert_eq!(status.message, "Connected to Ollama");
    let status = status_from_reply(endpoint, StatusReply::HttpStatus("404 Not Found".to_owned()));
    assert!(!status.connected);
    assert_eq!(status.message, "Ollama returned HTTP 404 Not Found");
    let refused = status_request("ftp://localhost").expect_err("endpoint is refused");
    assert!(!refused.connected);
    assert_eq!(
        refused.message,
        "Ollama URL must be an HTTP or HTTPS URL with a host."
    );
}

fn object(members: Vec<(&str, JsonValue)>) -> JsonValue {
    JsonValue::Object(
        members
            .into_iter()
            .map(|(k, v)| (k.to_owned(), v))
            .collect(),
    )
}

#[test]
fn classifies_tool_outcomes() {
    let ok = object(vec![("exit_code", JsonValue::Number(JsonNumber::PosInt(0)))]);
    let failed = object(vec![("exit_code", JsonValue::Number(JsonNumber::NegInt(-1)))]);
    let error = object(vec![("error", JsonValue::String("boom".to_owned()))]);
    assert_eq!(execution_status(&ok, "approved"), "succeeded");
    assert_eq!(execution_status(&failed, "approved"), "failed");
    assert_eq!(execution_status(&error, "approved"), "failed");
    assert_eq!(execution_status(&ok, "rejected"), "not_run");
}

#[test]
fn summarizes_long_arguments() {
    let long = "x".repeat(2_500);
    let summary = truncate_summary(&long);
    assert_eq!(summary.chars().count(), 2_000 + "...[truncated]".len());
    assert!(summary.ends_with("...[truncated]"));
    assert_eq!(truncate_summary("{}"), "{}");
    assert_eq!(timestamp_text(Some(42)), "42");
    assert_eq!(timestamp_text(None), "0");
    assert!(unix_timestamp().chars().all(|c| c.is_ascii_digit()));
}

#[test]
fn pull_percentage_rounds_the_floating_point_share() {
    let mut aggregator = PullProgressAggregator::default();
    let progress = aggregator.update(
        "model",
        OllamaPullProgress {
            status: "pulling".to_owned(),
            digest: Some("layer".to_owned()),
            total: Some(40),
            completed: Some(23),
        },
        share_percentage,
    );
    assert_eq!(progress.percentage, Some(57));
    let unknown = PullProgressAggregator::default().update(
        "model",
        OllamaPullProgress {
            status: "pulling".to_owned(),
            digest: None,
            total: Some(0),
            completed: Some(0),
        },
        share_percentage,
    );
    assert_eq!(unknown.percentage, None);
}

#[test]
fn ndjson_lines_are_the_lines_of_the_decoded_text() {
    let text = "{\"model\":\"café\"}\n  \n{\"word\":\"日本\"}\n{\"tail\":\"ü\"}";
    let expected: Vec<String> = text
        .split('\n')
        .map(str::trim)
        .filter(|line| !line.is_empty())
        .map(str::to_owned)
        .collect();
    let bytes = text.as_bytes();
    for cut in 0..bytes.len() {
        let mut buffer = NdjsonBuffer::new();
        let mut lines = buffer.push(&bytes[..cut]);
        lines.extend(buffer.push(&bytes[cut..]));
        lines.extend(buffer.finish());
        assert_eq!(lines, expected);
    }
}

fn url(scheme: &str, host: Option<&str>, query: Option<&str>) -> ParsedUrl {
    ParsedUrl {
        scheme: scheme.to_owned(),
        host: host.map(str::to_owned),
        path: "/".to_owned(),
        query: query.map(str::to_owned),
        fragment: None,
    }
}

#[test]
fn checks_a_parsed_endpoint() {
    let base = "http://localhost:11434".to_owned();
    assert_eq!(
        check_endpoint_url(base.clone(), Ok(url("http", Some("localhost"), None))),
        Ok(base.clone())
    );
    assert_eq!(
        check_endpoint_url(base.clone(), Ok(url("ftp", Some("localhost"), None))),
        Err("Ollama URL must be an HTTP or HTTPS URL with a host.".to_owned())
    );
    assert_eq!(
        check_endpoint_url(base.clone(), Ok(url("https", None, None))),
        Err("Ollama URL must be an HTTP or HTTPS URL with a host.".to_owned())
    );
    assert_eq!(
        check_endpoint_url(base.clone(), Ok(url("https", Some("h"), Some("a=1")))),
        Err("Ollama URL cannot include a query or fragment.".to_owned())
    );
    assert_eq!(
        check_endpoint_url(base, Err("relative URL without a base".to_owned())),
        Err("Invalid Ollama URL: relative URL without a base".to_owned())
    );
}

#[test]
fn finish_holds_nothing_after_a_final_newline() {
    assert_eq!(NdjsonBuffer::new().finish(), None);
    let mut buffer = NdjsonBuffer::default();
    assert!(buffer.push(br#"{"name":"llama"#).is_empty());
    assert_eq!(
        buffer.push(b".3\"}\n{\"name\":\"qwen\"}\n"),
        vec![r#"{"name":"llama.3"}"#, r#"{"name":"qwen"}"#]
    );
    assert_eq!(buffer.finish(), None);
    let mut open = NdjsonBuffer::new();
    assert!(open.push(b"  {\"x\":1}  ").is_empty());
    assert_eq!(open.finish(), Some("{\"x\":1}".to_owned()));
}

#[test]
fn pull_progress_keeps_the_latest_report_of_each_layer() {
    let mut aggregator = PullProgressAggregator::new();
    let line = |digest: &str, total: u64, completed: Option<u64>| OllamaPullProgress {
        status: "pulling".to_owned(),
        digest: Some(digest.to_owned()),
        total: Some(total),
        completed,
    };
    aggregator.update("m", line("a", 100, Some(10)), share_percentage);
    aggregator.update("m", line("b", 200, Some(500)), share_percentage);
    let last = aggregator.update("m", line("a", 100, None), share_percentage);
    assert_eq!(last.total, Some(300));
    assert_eq!(last.completed, Some(200));
    assert_eq!(last.percentage, Some(67));
}
