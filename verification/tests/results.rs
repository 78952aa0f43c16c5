use legion::json::{JsonNumber, JsonValue};
use legion::results::{format_glob_results, format_grep_results, semantic_output};
use legion::search::{ContextLine, GrepMatch, MAX_GLOB_OUTPUT_BYTES, MAX_GREP_OUTPUT_BYTES};
use serde_json::{Number, Value};

fn to_serde(value: &JsonValue) -> Value {
    match value {
        JsonValue::Null => Value::Null,
        JsonValue::Bool(b) => Value::Bool(*b),
        JsonValue::Number(JsonNumber::PosInt(n)) => Value::Number(Number::from(*n)),
        JsonValue::Number(JsonNumber::NegInt(n)) => Value::Number(Number::from(*n)),
        JsonValue::Number(JsonNumber::Float(text)) => {
            serde_json::from_str(text).expect("a float's text is a number")
        }
        JsonValue::String(s) => Value::String(s.clone()),
        JsonValue::Array(items) => Value::Array(items.iter().map(to_serde).collect()),
        JsonValue::Object(members) => {
            let mut map = serde_json::Map::new();
            for (key, item) in members {
                map.insert(key.clone(), to_serde(item));
            }
            Value::Object(map)
        }
    }
}

#[test]
fn formats_grep_context_and_respects_result_limit() {
    let matches = vec![
        GrepMatch {
            path: "src/lib.rs".to_owned(),
            line_number: 4,
            line: "needle".to_owned(),
            context: vec![ContextLine {
                line_number: 3,
                content: "before".to_owned(),
            }],
        },
        GrepMatch {
            path: "src/main.rs".to_owned(),
            line_number: 7,
            line: "needle again".to_owned(),
            context: Vec::new(),
        },
    ];
    let result = to_serde(&format_grep_results(matches, true, 1, 0));
    assert_eq!(result["matches"].as_array().unwrap().len(), 1);
    assert_eq!(result["matches"][0]["line_number"], 4);
    assert_eq!(result["matches"][0]["context"][0]["content"], "before");
    assert_eq!(result["truncated"], true);
}

#[test]
fn truncates_grep_output_by_serialized_size() {
    let matches: Vec<GrepMatch> = (0..100)
        .map(|index| GrepMatch {
            path: format!("src/{index}.rs"),
            line_number: index + 1,
            line: "x".repeat(1_000),
            context: Vec::new(),
        })
        .collect();
    let result = to_serde(&format_grep_results(matches, false, 100, 0));
    assert!(serde_json::to_vec(&result).unwrap().len() <= MAX_GREP_OUTPUT_BYTES);
    assert_eq!(result["truncated"], true);
}

#[test]
fn formats_and_truncates_glob_results() {
    let result = to_serde(&format_glob_results(vec!["src/lib.rs".to_owned()], false, 1));
    assert_eq!(result["paths"][0], "src/lib.rs");
    assert_eq!(result["truncated"], false);

    let paths: Vec<String> = (0..1_000)
        .map(|index| format!("src/{}.rs", "x".repeat(100) + &index.to_string()))
        .collect();
    let result = to_serde(&format_glob_results(paths, false, 1_000));
    assert!(serde_json::to_vec(&result).unwrap().len() <= MAX_GLOB_OUTPUT_BYTES);
    assert_eq!(result["truncated"], true);
}

#[test]
fn output_format_is_json_value() {
    let output = format_glob_results(vec!["README.md".to_owned()], false, 10);
    assert!(matches!(output, JsonValue::Object(_)));
}

#[test]
fn grep_output_keeps_the_longest_prefix_that_fits() {
    // Each line fills about a third of the budget: two matches fit, a third does not.
    let matches: Vec<GrepMatch> = (0..3)
        .map(|index| GrepMatch {
            path: format!("src/{index}.rs"),
            line_number: index + 1,
            line: "y".repeat(MAX_GREP_OUTPUT_BYTES / 3),
            context: Vec::new(),
        })
        .collect();
    let result = to_serde(&format_grep_results(matches, false, 10, 2));
    assert_eq!(result["matches"].as_array().unwrap().len(), 2);
    assert_eq!(result["matches"][1]["path"], "src/1.rs");
    assert_eq!(result["truncated"], true);
    assert_eq!(result["max_results"], 10);
    assert_eq!(result["skipped_large_files"], 2);
    assert!(serde_json::to_vec(&result).unwrap().len() <= MAX_GREP_OUTPUT_BYTES);
}

#[test]
fn grep_output_within_limits_keeps_every_match() {
    let matches: Vec<GrepMatch> = (0..3)
        .map(|index| GrepMatch {
            path: format!("src/{index}.rs"),
            line_number: index + 1,
            line: "z".to_owned(),
            context: Vec::new(),
        })
        .collect();
    let result = to_serde(&format_grep_results(matches, false, 3, 0));
    assert_eq!(result["matches"].as_array().unwrap().len(), 3);
    assert_eq!(result["truncated"], false);
}

#[test]
fn grep_output_at_the_byte_limit_is_kept_and_one_byte_more_is_not() {
    let frame = r#"{"matches":[{"context":[],"line":"","line_number":1,"path":""}],"max_results":5,"skipped_large_files":0,"truncated":false}"#.len();
    let exact = GrepMatch {
        path: "p".repeat(MAX_GREP_OUTPUT_BYTES - frame),
        line_number: 1,
        line: String::new(),
        context: Vec::new(),
    };
    let result = to_serde(&format_grep_results(vec![exact.clone()], false, 5, 0));
    assert_eq!(serde_json::to_vec(&result).unwrap().len(), MAX_GREP_OUTPUT_BYTES);
    assert_eq!(result["matches"].as_array().unwrap().len(), 1);
    let mut over = exact;
    over.path.push('p');
    let result = to_serde(&format_grep_results(vec![over], false, 5, 0));
    assert_eq!(result["matches"].as_array().unwrap().len(), 0);
    assert_eq!(result["truncated"], true);
}

fn semantic_result(path: &str, score: &str) -> JsonValue {
    JsonValue::Object(vec![
        ("path".to_owned(), JsonValue::String(path.to_owned())),
        ("score".to_owned(), JsonValue::Number(JsonNumber::Float(score.to_owned()))),
    ])
}

#[test]
fn semantic_results_stop_at_the_first_that_does_not_fit() {
    let small = vec![semantic_result("a.rs", "0.5"), semantic_result("b.rs", "0.25")];
    let output = to_serde(&semantic_output(small).expect("encodes"));
    assert_eq!(output["status"], "ok");
    assert_eq!(output["results"].as_array().unwrap().len(), 2);
    assert_eq!(output["results"][1]["score"], 0.25);

    let big = "x".repeat(MAX_GREP_OUTPUT_BYTES / 2);
    let results = vec![
        semantic_result(&big, "0.9"),
        semantic_result(&big, "0.8"),
        semantic_result("c.rs", "0.1"),
    ];
    let output = to_serde(&semantic_output(results).expect("encodes"));
    assert_eq!(output["results"].as_array().unwrap().len(), 1);
    assert!(serde_json::to_vec(&output).unwrap().len() <= MAX_GREP_OUTPUT_BYTES);

    let broken = vec![semantic_result("a.rs", "0.5"), semantic_result("b.rs", "not a number")];
    let error = semantic_output(broken).expect_err("the float text does not encode");
    assert!(error.starts_with("Could not encode semantic results: "));
}
