use legion::json::{JsonNumber, JsonValue};
use legion::search::{
    bounded_line, chunk_file, chunk_limit, embedding_model, glob_argument_within_limits,
    glob_request, grep_request, keep_file,
    index_verdict, is_ignored_directory, limit_paths, ollama_endpoint, optional_glob,
    optional_usize, relative_path, semantic_request, too_many_files, unavailable_message,
    GlobSearch, GrepScan, GrepSearch, IndexVerdict, IndexWorkspace, SemanticSearch,
};
use legion::text::text_lines;
use legion::tools::RiskLevel;

fn object(members: Vec<(&str, JsonValue)>) -> JsonValue {
    JsonValue::Object(
        members
            .into_iter()
            .map(|(k, v)| (k.to_owned(), v))
            .collect(),
    )
}

fn text(s: &str) -> JsonValue {
    JsonValue::String(s.to_owned())
}

fn number(n: u64) -> JsonValue {
    JsonValue::Number(JsonNumber::PosInt(n))
}

fn components(path: &str) -> Vec<String> {
    path.split('/').map(str::to_owned).collect()
}

#[test]
fn skips_hidden_and_generated_folders() {
    for name in [".git", ".legion", "node_modules", "target", "dist", "build", "vendor"] {
        assert!(is_ignored_directory(name), "{name} is skipped");
    }
    for name in ["src", "targets", "docs"] {
        assert!(!is_ignored_directory(name), "{name} is searched");
    }
}

#[test]
fn gives_paths_relative_to_the_workspace() {
    let root = components("/home/me/project");
    assert_eq!(
        relative_path(&root, &components("/home/me/project/src/nested/example.rs")),
        Ok("src/nested/example.rs".to_owned())
    );
    assert_eq!(
        relative_path(&root, &components("/home/me/project/a\\b.rs")),
        Ok("a/b.rs".to_owned())
    );
    assert_eq!(
        relative_path(&root, &components("/home/me/other/x.rs")),
        Err("Path escapes the workspace folder".to_owned())
    );
}

#[test]
fn cuts_long_lines() {
    let long = "y".repeat(1_005);
    let cut = bounded_line(&long);
    assert_eq!(cut, format!("{}...[line truncated]", "y".repeat(1_000)));
    assert_eq!(bounded_line("short"), "short");
}

#[test]
fn splits_text_into_lines_as_str_lines_does() {
    for sample in ["", "a", "a\n", "a\r\nb", "\n", "a\n\nb\r", "x\r\n\r\n"] {
        let expected: Vec<String> = sample.lines().map(str::to_owned).collect();
        assert_eq!(text_lines(sample), expected, "{sample:?}");
    }
}

#[test]
fn chunks_files_by_lines_and_characters() {
    let content = (1..=170).map(|i| format!("line {i}")).collect::<Vec<_>>().join("\n");
    let chunks = chunk_file("src/a.rs", &content);
    assert_eq!(chunks.len(), 3);
    assert_eq!((chunks[0].start_line, chunks[0].end_line), (1, 80));
    assert_eq!((chunks[1].start_line, chunks[1].end_line), (81, 160));
    assert_eq!((chunks[2].start_line, chunks[2].end_line), (161, 170));
    assert!(chunks[0].content.starts_with("line 1\nline 2\n"));
    assert_eq!(chunks[2].path, "src/a.rs");

    let wide = format!("{}\n{}\n{}", "a".repeat(4_000), "b".repeat(4_000), "c".repeat(7_000));
    let chunks = chunk_file("w.txt", &wide);
    assert_eq!(chunks.len(), 3);
    assert_eq!(chunks[1].content, "b".repeat(4_000));
    assert_eq!(chunks[2].content, "c".repeat(6_000));
    assert!(chunk_file("e.txt", "").is_empty());
}

#[test]
fn collects_matches_with_bounded_context() {
    let request = grep_request(&object(vec![
        ("pattern", text("need.*value")),
        ("is_regex", JsonValue::Bool(true)),
        ("glob", text("src/**/*.rs")),
        ("context_lines", number(1)),
    ]))
    .expect("request is valid");
    assert_eq!(request.context_lines, 1);
    assert_eq!(request.max_results, 50);
    let glob = request.glob.as_ref().expect("glob is given");
    assert!(glob.is_match("src/nested/example.rs"));
    assert!(!glob.is_match("README.md"));

    let mut scan = GrepScan::new(request.context_lines, request.max_results);
    let lines = text_lines("first line\nneedle value\nlast line\n");
    scan.scan_file(&Ok("src/nested/example.rs".to_owned()), &lines, &request.expression)
        .expect("scan succeeds");
    let (matches, truncated, skipped) = scan.into_results();
    assert!(!truncated);
    assert_eq!(skipped, 0);
    assert_eq!(matches.len(), 1);
    assert_eq!(matches[0].path, "src/nested/example.rs");
    assert_eq!(matches[0].line_number, 2);
    assert_eq!(matches[0].context.len(), 2);
    assert_eq!(matches[0].context[0].line_number, 1);
    assert_eq!(matches[0].context[1].content, "last line");
}

#[test]
fn stops_collecting_at_the_result_limit() {
    let expression = grep_request(&object(vec![("pattern", text("x"))]))
        .expect("valid")
        .expression;
    let lines = text_lines("x1\nx2\nx3");
    let mut scan = GrepScan::new(0, 2);
    scan.scan_file(&Ok("f".to_owned()), &lines, &expression)
        .expect("scan succeeds");
    assert!(scan.is_truncated());
    let (matches, truncated, _) = scan.into_results();
    assert!(truncated);
    assert_eq!(matches.len(), 2);
    assert!(matches[0].context.is_empty());

    let mut scan = GrepScan::new(0, 2);
    assert_eq!(
        scan.scan_file(&Err("no path".to_owned()), &lines, &expression),
        Err("no path".to_owned())
    );
    scan.skip_large_file();
    assert_eq!(scan.into_results().2, 1);
}

#[test]
fn literal_patterns_are_escaped() {
    let request = grep_request(&object(vec![("pattern", text("a.b"))])).expect("valid");
    assert!(request.expression.is_match("xa.by"));
    assert!(!request.expression.is_match("axb"));
    assert!(grep_request(&object(vec![("pattern", text(""))]))
        .err()
        .expect("empty pattern is refused")
        .contains("cannot be empty"));
    assert!(grep_request(&object(vec![
        ("pattern", text("(")),
        ("is_regex", JsonValue::Bool(true))
    ]))
    .err()
    .expect("bad regex is refused")
    .starts_with("Invalid search regex: "));
}

#[test]
fn reads_glob_and_count_arguments() {
    let (glob, max) = glob_request(&object(vec![
        ("pattern", text("**/*.rs")),
        ("max_results", number(1_000)),
    ]))
    .expect("valid");
    assert_eq!(max, 100);
    assert!(glob.is_match("src/nested/example.rs"));
    assert!(optional_glob(&object(vec![("glob", text("["))])).is_err());
    assert!(optional_glob(&object(vec![("glob", number(1))]))
        .err()
        .expect("not a string")
        .contains("'glob' must be a string"));
    assert_eq!(
        optional_usize(&object(vec![("n", text("x"))]), "n", 3),
        Err("Tool argument 'n' must be a non-negative integer".to_owned())
    );
    assert_eq!(optional_usize(&object(vec![]), "n", 3), Ok(3));
    let (kept, truncated) = limit_paths(vec!["a".to_owned(), "b".to_owned()], 1);
    assert_eq!(kept, vec!["a".to_owned()]);
    assert!(truncated);
}

#[test]
fn chooses_the_embedding_model_and_endpoint() {
    assert_eq!(
        embedding_model(&object(vec![]), None),
        Ok("nomic-embed-text".to_owned())
    );
    assert_eq!(
        embedding_model(&object(vec![]), Some("custom")),
        Ok("custom".to_owned())
    );
    assert_eq!(
        embedding_model(&object(vec![("model", text(" "))]), None),
        Err("Embedding model name cannot be empty".to_owned())
    );
    assert_eq!(ollama_endpoint(Some("http://h:1//")), "http://h:1");
    assert_eq!(ollama_endpoint(None), "http://localhost:11434");
}

#[test]
fn checks_semantic_requests_and_indexes() {
    assert_eq!(
        semantic_request(&object(vec![("query", text("auth")), ("top_n", number(50))]), None),
        Ok(("auth".to_owned(), 10, "nomic-embed-text".to_owned()))
    );
    assert_eq!(
        semantic_request(&object(vec![("query", text("  "))]), None),
        Err("Semantic query cannot be empty".to_owned())
    );
    assert!(matches!(index_verdict(1, "m", "m", 3), Ok(IndexVerdict::Search)));
    assert!(matches!(index_verdict(1, "m", "m", 0), Ok(IndexVerdict::Empty)));
    match index_verdict(1, "a", "b", 3) {
        Ok(IndexVerdict::ReindexRequired(message)) => assert_eq!(
            message,
            "The index uses 'a', but this search uses 'b'. Call index_workspace with the desired model."
        ),
        _ => panic!("a different model needs a new index"),
    }
    assert!(matches!(
        index_verdict(2, "m", "m", 3),
        Err(e) if e == "Unsupported semantic index version: 2"
    ));
    assert_eq!(chunk_limit(20_000), None);
    assert!(chunk_limit(20_001).is_some());
    assert!(too_many_files(5).starts_with("Workspace has more than 5 searchable files"));
    assert_eq!(
        unavailable_message("m", false),
        "Ollama or embedding model 'm' is unavailable."
    );
}

#[test]
fn search_tools_run_without_asking() {
    assert_eq!(GrepSearch.schema().risk_level, RiskLevel::AutoApprove);
    assert_eq!(GlobSearch.schema().risk_level, RiskLevel::AutoApprove);
    assert_eq!(IndexWorkspace.schema().name, "index_workspace");
    assert_eq!(SemanticSearch.schema().name, "semantic_search");
}

#[test]
fn deeply_nested_glob_is_refused_with_an_error() {
    let pattern = format!("{}a{}", "{".repeat(300), "}".repeat(300));
    let refused = glob_request(&object(vec![("pattern", text(&pattern))]));
    assert!(refused
        .err()
        .expect("the nested pattern is refused")
        .starts_with("Invalid file glob: "));
    let shallow = format!("{}a{}", "{".repeat(3), "}".repeat(3));
    let (glob, _) = glob_request(&object(vec![("pattern", text(&shallow))])).expect("valid");
    assert!(glob.is_match("a"));
    assert!(!glob_argument_within_limits(
        &object(vec![("glob", text(&"{".repeat(1001)))]),
        "glob"
    ));
    assert!(glob_argument_within_limits(&object(vec![("glob", text("**/*.rs"))]), "glob"));
    assert!(glob_argument_within_limits(
        &object(vec![("glob", text(&"{a,b}".repeat(1500)))]),
        "glob"
    ));
    assert!(!glob_argument_within_limits(
        &object(vec![("glob", text(&format!("[x]{}", "{a}".repeat(1001))))]),
        "glob"
    ));
    assert!(glob_argument_within_limits(&object(vec![("glob", number(1))]), "glob"));
}

#[test]
fn a_folder_walk_keeps_matching_files_up_to_the_limit() {
    assert_eq!(keep_file(0, 2, None), Ok(true));
    assert_eq!(keep_file(1, 2, Some(true)), Ok(true));
    assert_eq!(keep_file(5, 2, Some(false)), Ok(false));
    assert_eq!(keep_file(2, 2, None), Err(too_many_files(2)));
}
