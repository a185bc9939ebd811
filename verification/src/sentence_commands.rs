//! The rules of the sentence commands: what input is accepted and how failures are
//! reported.
use vstd::prelude::*;
use crate::error::{AppError, LlmError};
use crate::models::opt_text;
use crate::sentences::DbFailure;
use crate::text::{all_white_space, concat, is_blank, owned, trim, trimmed};

verus! {

/// The text of a sentence to save, trimmed; blank text is refused.
pub fn validate_original_text(original_text: &str) -> (r: Result<String, AppError>)
    ensures
        r is Ok <==> !all_white_space(original_text@),
        r matches Ok(t) ==> t@ == trim(original_text@),
        r matches Err(e) ==> (e matches AppError::Validation(m) && m@
            == "original_text cannot be empty"@),
{
    if is_blank(original_text) {
        return Err(AppError::Validation(owned("original_text cannot be empty")));
    }
    Ok(trimmed(original_text))
}

/// The translation to store: blank when translating failed, so that the sentence is
/// saved anyway.
pub fn translation_or_blank(result: Result<String, LlmError>) -> (t: String)
    ensures
        result matches Ok(s) ==> t == s,
        result is Err ==> t@.len() == 0,
{
    match result {
        Ok(s) => s,
        Err(_) => String::new(),
    }
}

/// The values an edit stores: the translation trimmed, and the context trimmed or
/// dropped when blank.
pub fn normalize_update(new_translation: &str, new_context: Option<&str>) -> (r: (
    String,
    Option<String>,
))
    ensures
        r.0@ == trim(new_translation@),
        opt_text(r.1) == match new_context {
            Some(c) => if trim(c@).len() == 0 {
                None
            } else {
                Some(trim(c@))
            },
            None => None::<Seq<char>>,
        },
{
    let translation = trimmed(new_translation);
    let context = match new_context {
        Some(c) => {
            let t = trimmed(c);
            if is_blank(t.as_str()) {
                proof {
                    crate::text::lemma_trim_facts(c@);
                }
                None
            } else {
                Some(t)
            }
        },
        None => None,
    };
    (translation, context)
}

/// The id of a sentence to delete, trimmed; a blank id is refused.
pub fn validate_sentence_id(id: &str) -> (r: Result<String, AppError>)
    ensures
        r is Ok <==> !all_white_space(id@),
        r matches Ok(t) ==> t@ == trim(id@),
        r matches Err(e) ==> (e matches AppError::Validation(m) && m@ == "invalid id"@),
{
    if is_blank(id) {
        return Err(AppError::Validation(owned("invalid id")));
    }
    Ok(trimmed(id))
}

/// How a failed update or delete of sentence `id` is reported: a missing row as
/// "not found", anything else as a database error.
pub fn db_failure_error(id: &str, failure: DbFailure) -> (e: AppError)
    ensures
        failure is RowNotFound ==> (e matches AppError::NotFound(m) && m@ == "Sentence not found: "@
            + id@),
        failure matches DbFailure::Other(d) ==> e == AppError::Db(d),
{
    match failure {
        DbFailure::RowNotFound => AppError::NotFound(concat("Sentence not found: ", id)),
        DbFailure::Other(d) => AppError::Db(d),
    }
}

/// Text to speak is refused when blank.
pub fn validate_pronunciation_text(text: &str) -> (r: Result<(), AppError>)
    ensures
        r is Ok <==> !all_white_space(text@),
        r matches Err(e) ==> (e matches AppError::Validation(m) && m@
            == "Pronunciation text cannot be empty"@),
{
    if is_blank(text) {
        return Err(AppError::Validation(owned("Pronunciation text cannot be empty")));
    }
    Ok(())
}

/// The outcome of running the text-to-speech command: a non-zero exit is a failure
/// carrying its error output; termination by a signal (no exit code) is a deliberate
/// stop, not a failure.
pub fn speech_outcome(success: bool, exit_code: Option<i32>, stderr: &str) -> (r: Result<
    (),
    AppError,
>)
    ensures
        r is Ok <==> success || exit_code is None,
        r matches Err(e) ==> (e matches AppError::Internal(m) && m@ == "TTS failed: "@ + stderr@),
{
    if !success && exit_code.is_some() {
        return Err(AppError::Internal(concat("TTS failed: ", stderr)));
    }
    Ok(())
}

} // verus!
