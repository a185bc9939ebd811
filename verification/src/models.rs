//! The records the app keeps and exchanges.
use vstd::prelude::*;

verus! {

/// A captured sentence with its translation.
#[derive(Debug, Clone, PartialEq, Eq)]
pub struct Sentence {
    pub id: String,
    pub original_text: String,
    pub translated_text: String,
    pub source_context: Option<String>,
    pub tags: Vec<String>,
    /// Milliseconds since the Unix epoch.
    pub created_at: i64,
}

/// A backup of the whole library.
#[derive(Debug, Clone, PartialEq, Eq)]
pub struct BackupPayload {
    /// The schema version of this backup format.
    pub version: u32,
    /// When this backup was created (milliseconds since the Unix epoch).
    pub exported_at: i64,
    /// The backed-up sentences.
    pub sentences: Vec<Sentence>,
}

/// The tutor's feedback on a translation attempt.
#[derive(Debug, Clone, PartialEq, Eq)]
pub struct ProofreadFeedback {
    pub feedback: String,
    pub key_expression: String,
    pub example: String,
}

/// The texts of a sequence of strings.
pub open spec fn texts(v: Seq<String>) -> Seq<Seq<char>> {
    v.map_values(|t: String| t@)
}

/// The text of an optional string.
pub open spec fn opt_text(o: Option<String>) -> Option<Seq<char>> {
    match o {
        Some(s) => Some(s@),
        None => None,
    }
}

} // verus!
