//! Prompts for the local MLX server and the reading of its chat-completion replies.
use vstd::prelude::*;
use crate::error::LlmError;
use crate::text::{concat, owned, push_str, trim, trimmed};

verus! {

/// Default chat-completions endpoint of the local MLX server.
pub const DEFAULT_ENDPOINT: &'static str = "http://127.0.0.1:8080/v1/chat/completions";

/// Seconds before a request to the MLX server gives up.
pub const MLX_CLIENT_TIMEOUT_SECS: u64 = 60;

/// Where the reply text sits in a chat-completion answer (a JSON Pointer).
pub const CONTENT_POINTER: &'static str = "/choices/0/message/content";

/// The user prompt asking to explain `expression` as used in `context`.
pub fn usage_user_prompt(expression: &str, context: &str) -> (p: String)
    ensures
        p@ == "Context: "@ + context@ + "\nExpression to explain: "@ + expression@,
{
    let mut p = concat("Context: ", context);
    push_str(&mut p, "\nExpression to explain: ");
    push_str(&mut p, expression);
    p
}

/// The user prompt asking to proofread `user_attempt` at translating `translated_text`
/// (Japanese) back into `original_text` (English).
pub fn proofread_user_prompt(original_text: &str, translated_text: &str, user_attempt: &str) -> (p:
    String)
    ensures
        p@ == "Japanese context: "@ + translated_text@ + "\nCorrect English: "@ + original_text@
            + "\nUser's attempt: "@ + user_attempt@,
{
    let mut p = concat("Japanese context: ", translated_text);
    push_str(&mut p, "\nCorrect English: ");
    push_str(&mut p, original_text);
    push_str(&mut p, "\nUser's attempt: ");
    push_str(&mut p, user_attempt);
    p
}

/// The reply text of a chat completion: the content, trimmed, or a parse error when the
/// answer has none.
pub fn content_or_missing(content: Option<&str>) -> (r: Result<String, LlmError>)
    ensures
        content matches Some(c) ==> (r matches Ok(t) && t@ == trim(c@)),
        content is None ==> (r matches Err(LlmError::Parse(m)) && m@
            == "Missing content field in LLM response"@),
{
    match content {
        Some(c) => Ok(trimmed(c)),
        None => Err(LlmError::Parse(owned("Missing content field in LLM response"))),
    }
}

/// Whether the server's HTTP status lets its answer be read: codes 200 to 299 do; any
/// other is a network error naming the status (`status` is the status as displayed).
pub fn check_http_status(code: u16, status: &str) -> (r: Result<(), LlmError>)
    ensures
        r is Ok <==> 200 <= code <= 299,
        r matches Err(e) ==> (e matches LlmError::Network(m) && m@ == "HTTP "@ + status@),
{
    if 200 <= code && code <= 299 {
        Ok(())
    } else {
        Err(LlmError::Network(concat("HTTP ", status)))
    }
}

/// `serde_json::Value`, a parsed JSON document.
#[verifier::external_type_specification]
#[verifier::external_body]
pub struct ExJsonValue(serde_json::Value);

/// What `serde_json::Value::pointer` finds in `value` at the JSON Pointer `pointer`
/// (it depends on the document and the pointer alone).
pub uninterp spec fn json_pointer_target(value: serde_json::Value, pointer: Seq<char>) -> Option<
    serde_json::Value,
>;

/// What `serde_json::Value::as_str` gives for `value`: its text when it is a JSON string.
pub uninterp spec fn json_string_text(value: serde_json::Value) -> Option<Seq<char>>;

/// The value that a JSON Pointer designates (`serde_json::Value::pointer`).
#[verifier::external_body]
fn json_pointer<'a>(value: &'a serde_json::Value, pointer: &str) -> (r: Option<
    &'a serde_json::Value,
>)
    ensures
        r matches Some(v) ==> json_pointer_target(*value, pointer@) == Some(*v),
        r is None ==> json_pointer_target(*value, pointer@) is None,
{
    value.pointer(pointer)
}

/// The text of a JSON string value (`serde_json::Value::as_str`).
#[verifier::external_body]
fn json_as_str(value: &serde_json::Value) -> (r: Option<&str>)
    ensures
        r matches Some(t) ==> json_string_text(*value) == Some(t@),
        r is None ==> json_string_text(*value) is None,
{
    value.as_str()
}

/// The reply text a chat-completion answer holds: the string at
/// `/choices/0/message/content`, if there is one.
pub open spec fn reply_text(body: serde_json::Value) -> Option<Seq<char>> {
    match json_pointer_target(body, "/choices/0/message/content"@) {
        Some(v) => json_string_text(v),
        None => None,
    }
}

/// The reply text of a chat-completion answer, read at `/choices/0/message/content`
/// and trimmed; a parse error when the answer holds no string there.
pub fn chat_reply_content(body: &serde_json::Value) -> (r: Result<String, LlmError>)
    ensures
        reply_text(*body) matches Some(c) ==> (r matches Ok(t) && t@ == trim(c)),
        reply_text(*body) is None ==> (r matches Err(LlmError::Parse(m)) && m@
            == "Missing content field in LLM response"@),
{
    let content = match json_pointer(body, CONTENT_POINTER) {
        Some(v) => json_as_str(v),
        None => None,
    };
    content_or_missing(content)
}

} // verus!
