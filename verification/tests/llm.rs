use sentence_binder::llm::{
    clean_llm_json, extract_first_balanced_object, feedback_or_fallback, proofread_attempt_text,
    truncate_for_log,
};
use sentence_binder::error::AppError;
use sentence_binder::models::ProofreadFeedback;

/// The proofread-reply pipeline: clean the reply, parse the payload (a JSON object with
/// a string `feedback` and optional string `key_expression` and `example`), and fall
/// back to the raw reply when that fails.
fn parse_proofread_response(raw: &str) -> ProofreadFeedback {
    let cleaned = clean_llm_json(raw);
    let parsed = serde_json::from_str::<serde_json::Value>(&cleaned)
        .ok()
        .and_then(|value| {
            let obj = value.as_object()?.clone();
            let optional = |key: &str| -> Option<String> {
                match obj.get(key) {
                    None => Some(String::new()),
                    Some(v) => v.as_str().map(|s| s.to_string()),
                }
            };
            Some(ProofreadFeedback {
                feedback: obj.get("feedback")?.as_str()?.to_string(),
                key_expression: optional("key_expression")?,
                example: optional("example")?,
            })
        });
    feedback_or_fallback(raw, parsed)
}

#[test]
fn parses_plain_json() {
    let raw = r#"{"feedback":"good","key_expression":"hello","example":"Hello there."}"#;
    let out = parse_proofread_response(raw);
    assert_eq!(out.feedback, "good");
    assert_eq!(out.key_expression, "hello");
    assert_eq!(out.example, "Hello there.");
}

#[test]
fn parses_json_in_code_fence() {
    let raw = "```json\n{\"feedback\":\"f\",\"key_expression\":\"k\",\"example\":\"e\"}\n```";
    let out = parse_proofread_response(raw);
    assert_eq!(out.feedback, "f");
    assert_eq!(out.key_expression, "k");
    assert_eq!(out.example, "e");
}

#[test]
fn parses_json_with_surrounding_prose() {
    let raw = "Sure! Here is the result:\n{\"feedback\":\"f\",\"key_expression\":\"k\",\"example\":\"e\"}\nHope it helps.";
    let out = parse_proofread_response(raw);
    assert_eq!(out.feedback, "f");
}

#[test]
fn parses_json_with_trailing_brace_in_prose() {
    // A stray `}` after the JSON object must not be swallowed into the extracted JSON.
    let raw = "{\"feedback\":\"f\",\"key_expression\":\"k\",\"example\":\"e\"}\nNote: }";
    let out = parse_proofread_response(raw);
    assert_eq!(out.feedback, "f");
    assert_eq!(out.key_expression, "k");
    assert_eq!(out.example, "e");
}

#[test]
fn ignores_braces_inside_strings() {
    let raw = r#"{"feedback":"use { and }","key_expression":"k","example":"e"}"#;
    let out = parse_proofread_response(raw);
    assert_eq!(out.feedback, "use { and }");
    assert_eq!(out.key_expression, "k");
    assert_eq!(out.example, "e");
}

#[test]
fn parses_json_with_missing_optional_fields() {
    let raw = r#"{"feedback":"only feedback"}"#;
    let out = parse_proofread_response(raw);
    assert_eq!(out.feedback, "only feedback");
    assert_eq!(out.key_expression, "");
    assert_eq!(out.example, "");
}

#[test]
fn parses_json_with_missing_example() {
    let raw = r#"{"feedback":"f","key_expression":"k"}"#;
    let out = parse_proofread_response(raw);
    assert_eq!(out.feedback, "f");
    assert_eq!(out.key_expression, "k");
    assert_eq!(out.example, "");
}

#[test]
fn falls_back_when_unparseable() {
    let raw = "totally not json";
    let out = parse_proofread_response(raw);
    assert_eq!(out.feedback, "totally not json");
    assert_eq!(out.key_expression, "");
    assert_eq!(out.example, "");
}

#[test]
fn cleaning_strips_fences_and_prose() {
    assert_eq!(clean_llm_json("  {\"a\":1}  "), "{\"a\":1}");
    assert_eq!(clean_llm_json("```JSON\n{\"a\":1}\n```"), "{\"a\":1}");
    assert_eq!(clean_llm_json("```\n  {\"a\":1}\n```"), "{\"a\":1}");
    assert_eq!(clean_llm_json("Here: {\"a\":{\"b\":2}} done }"), "{\"a\":{\"b\":2}}");
    assert_eq!(clean_llm_json("```json\nno object here\n```"), "no object here");
    assert_eq!(clean_llm_json("{\"a\": 1"), "{\"a\": 1");
}

#[test]
fn balanced_object_respects_strings_and_escapes() {
    assert_eq!(
        extract_first_balanced_object(r#"x {"k":"a \" } b"} y"#),
        Some(r#"{"k":"a \" } b"}"#.to_string())
    );
    assert_eq!(extract_first_balanced_object("no braces"), None);
    assert_eq!(extract_first_balanced_object("{ never closed"), None);
    assert_eq!(extract_first_balanced_object("} {}"), Some("{}".to_string()));
    assert_eq!(
        extract_first_balanced_object("é{\"ü\":\"ß\"}"),
        Some("{\"ü\":\"ß\"}".to_string())
    );
}

#[test]
fn truncation_keeps_short_text_and_counts_the_rest() {
    assert_eq!(truncate_for_log("short", 500), "short");
    assert_eq!(truncate_for_log("abcdef", 6), "abcdef");
    assert_eq!(truncate_for_log("abcdef", 2), "ab…[+4 chars omitted]");
    assert_eq!(truncate_for_log("日本語テキスト", 3), "日本語…[+4 chars omitted]");
    let long = "x".repeat(1234);
    assert_eq!(
        truncate_for_log(&long, 0),
        "…[+1234 chars omitted]".to_string()
    );
}

#[test]
fn empty_attempt_is_refused() {
    assert_eq!(
        proofread_attempt_text("  \n"),
        Err(AppError::Validation("Cannot proofread an empty attempt".to_string()))
    );
    assert_eq!(proofread_attempt_text(" I go. "), Ok("I go.".to_string()));
}

#[test]
fn extracting_again_gives_the_object_whole() {
    for s in [
        "Sure: {\"a\": {\"b\": \"} {\"}} trailing }",
        "{}",
        "x{\"k\":\"\\\"\"}y",
    ] {
        let once = extract_first_balanced_object(s).unwrap();
        assert_eq!(extract_first_balanced_object(&once), Some(once.clone()));
    }
}
