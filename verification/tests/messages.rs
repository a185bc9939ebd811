use sentence_binder::error::{AppError, LlmError};
use sentence_binder::mlx::{
    chat_reply_content, check_http_status, content_or_missing, proofread_user_prompt,
    usage_user_prompt,
};
use sentence_binder::sentence_commands::{
    db_failure_error, normalize_update, speech_outcome, translation_or_blank,
    validate_original_text, validate_pronunciation_text, validate_sentence_id,
};
use sentence_binder::sentences::DbFailure;
use sentence_binder::text::{same_text, trimmed};

#[test]
fn error_messages_name_their_source() {
    assert_eq!(
        AppError::Llm(LlmError::Network("HTTP 500".to_string())).to_string(),
        "LLM Error: Network connection failed: HTTP 500"
    );
    assert_eq!(
        AppError::Llm(LlmError::Parse("bad".to_string())).to_string(),
        "LLM Error: Failed to parse LLM response: bad"
    );
    assert_eq!(AppError::Db("locked".to_string()).to_string(), "Database Error: locked");
    assert_eq!(
        AppError::Credential("Keychain unavailable".to_string()).to_string(),
        "Credential Error: Keychain unavailable"
    );
    assert_eq!(
        AppError::Validation("invalid id".to_string()).to_string(),
        "Validation Error: invalid id"
    );
    assert_eq!(AppError::NotFound("x".to_string()).to_string(), "Not Found: x");
    assert_eq!(AppError::Internal("y".to_string()).to_string(), "Internal Error: y");
}

#[test]
fn sentence_input_rules() {
    assert_eq!(validate_original_text("  Hello.  "), Ok("Hello.".to_string()));
    assert_eq!(
        validate_original_text(" \t"),
        Err(AppError::Validation("original_text cannot be empty".to_string()))
    );
    assert_eq!(validate_sentence_id(" abc "), Ok("abc".to_string()));
    assert_eq!(
        validate_sentence_id(""),
        Err(AppError::Validation("invalid id".to_string()))
    );
    assert_eq!(
        normalize_update(" 新しい翻訳 ", Some("  ")),
        ("新しい翻訳".to_string(), None)
    );
    assert_eq!(
        normalize_update("t", Some(" Updated Context ")),
        ("t".to_string(), Some("Updated Context".to_string()))
    );
    assert_eq!(normalize_update("t", None), ("t".to_string(), None));
}

#[test]
fn failed_translation_saves_blank() {
    assert_eq!(translation_or_blank(Ok("訳".to_string())), "訳");
    assert_eq!(
        translation_or_blank(Err(LlmError::Network("down".to_string()))),
        ""
    );
}

#[test]
fn missing_rows_are_reported_as_not_found() {
    assert_eq!(
        db_failure_error("42", DbFailure::RowNotFound),
        AppError::NotFound("Sentence not found: 42".to_string())
    );
    assert_eq!(
        db_failure_error("42", DbFailure::Other("disk I/O error".to_string())),
        AppError::Db("disk I/O error".to_string())
    );
}

#[test]
fn speech_rules() {
    assert!(validate_pronunciation_text("hello").is_ok());
    assert_eq!(
        validate_pronunciation_text("   "),
        Err(AppError::Validation("Pronunciation text cannot be empty".to_string()))
    );
    assert_eq!(speech_outcome(true, Some(0), ""), Ok(()));
    assert_eq!(speech_outcome(false, None, ""), Ok(()));
    assert_eq!(
        speech_outcome(false, Some(1), "no voice"),
        Err(AppError::Internal("TTS failed: no voice".to_string()))
    );
}

#[test]
fn prompts_put_the_inputs_in_place() {
    assert_eq!(
        usage_user_prompt("break the ice", "He told a joke."),
        "Context: He told a joke.\nExpression to explain: break the ice"
    );
    assert_eq!(
        proofread_user_prompt("I go.", "行きます。", "I going."),
        "Japanese context: 行きます。\nCorrect English: I go.\nUser's attempt: I going."
    );
}

#[test]
fn chat_reply_content_is_read_and_trimmed() {
    let ok: serde_json::Value = serde_json::from_str(
        r#"{"choices":[{"message":{"content":"  This is the mocked AI response. "}}]}"#,
    )
    .unwrap();
    assert_eq!(
        chat_reply_content(&ok),
        Ok("This is the mocked AI response.".to_string())
    );
    let bad: serde_json::Value = serde_json::from_str(r#"{"wrong_key":"data"}"#).unwrap();
    assert_eq!(
        chat_reply_content(&bad),
        Err(LlmError::Parse("Missing content field in LLM response".to_string()))
    );
    let not_text: serde_json::Value =
        serde_json::from_str(r#"{"choices":[{"message":{"content":7}}]}"#).unwrap();
    assert!(chat_reply_content(&not_text).is_err());
    assert_eq!(content_or_missing(Some(" a ")), Ok("a".to_string()));
}

#[test]
fn text_helpers() {
    assert!(same_text("abc", "abc"));
    assert!(!same_text("abc", "abd"));
    assert_eq!(trimmed("\u{3000}全角\u{a0}\n"), "全角");
    let once = trimmed(" \t x y \r\n");
    assert_eq!(once, "x y");
    assert_eq!(trimmed(&once), once);
}

#[test]
fn only_the_first_choice_content_is_read() {
    let other: serde_json::Value = serde_json::from_str(
        r#"{"choices":[{"message":{"role":"assistant"}},{"message":{"content":"second"}}]}"#,
    )
    .unwrap();
    assert_eq!(
        chat_reply_content(&other),
        Err(LlmError::Parse("Missing content field in LLM response".to_string()))
    );
}

#[test]
fn http_status_outside_2xx_is_a_network_error() {
    assert_eq!(check_http_status(200, "200 OK"), Ok(()));
    assert_eq!(check_http_status(299, "299 <unknown status code>"), Ok(()));
    assert_eq!(
        check_http_status(500, "500 Internal Server Error"),
        Err(LlmError::Network("HTTP 500 Internal Server Error".to_string()))
    );
    assert!(check_http_status(199, "199").is_err());
    assert!(check_http_status(300, "300 Multiple Choices").is_err());
}
