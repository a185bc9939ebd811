//! The LLM providers whose API keys the app can hold.
use vstd::prelude::*;
use crate::text::same_text;

verus! {

/// An LLM provider that the app can hold an API key for.
#[derive(Debug, Clone, Copy, PartialEq, Eq, Structural)]
pub enum LlmProvider {
    OpenAi,
    Anthropic,
    Google,
    Local,
}

impl LlmProvider {
    /// The keychain account name under which this provider's key is stored.
    pub open spec fn account_name(self) -> Seq<char> {
        match self {
            LlmProvider::OpenAi => "openai_api_key"@,
            LlmProvider::Anthropic => "anthropic_api_key"@,
            LlmProvider::Google => "google_api_key"@,
            LlmProvider::Local => "local_api_key"@,
        }
    }

    /// The identifier the frontend uses for this provider.
    pub open spec fn identifier(self) -> Seq<char> {
        match self {
            LlmProvider::OpenAi => "openai"@,
            LlmProvider::Anthropic => "anthropic"@,
            LlmProvider::Google => "google"@,
            LlmProvider::Local => "local"@,
        }
    }

    /// The provider whose frontend identifier is `s`, if any.
    pub open spec fn parse(s: Seq<char>) -> Option<LlmProvider> {
        if s == "openai"@ {
            Some(LlmProvider::OpenAi)
        } else if s == "anthropic"@ {
            Some(LlmProvider::Anthropic)
        } else if s == "google"@ {
            Some(LlmProvider::Google)
        } else if s == "local"@ {
            Some(LlmProvider::Local)
        } else {
            None
        }
    }

    /// The keychain account name for this provider.
    pub fn as_str(&self) -> (s: &'static str)
        ensures
            s@ == self.account_name(),
    {
        match self {
            LlmProvider::OpenAi => "openai_api_key",
            LlmProvider::Anthropic => "anthropic_api_key",
            LlmProvider::Google => "google_api_key",
            LlmProvider::Local => "local_api_key",
        }
    }

    /// Parses a frontend provider identifier; `None` for anything unknown.
    pub fn from_str(s: &str) -> (p: Option<LlmProvider>)
        ensures
            p == LlmProvider::parse(s@),
    {
        if same_text(s, "openai") {
            Some(LlmProvider::OpenAi)
        } else if same_text(s, "anthropic") {
            Some(LlmProvider::Anthropic)
        } else if same_text(s, "google") {
            Some(LlmProvider::Google)
        } else if same_text(s, "local") {
            Some(LlmProvider::Local)
        } else {
            None
        }
    }
}

/// Every provider is found again from its own identifier.
pub proof fn lemma_parse_identifier(p: LlmProvider)
    ensures
        LlmProvider::parse(p.identifier()) == Some(p),
{
    reveal_strlit("openai");
    reveal_strlit("anthropic");
    reveal_strlit("google");
    reveal_strlit("local");
    assert("openai"@[0] != "anthropic"@[0]);
    assert("openai"@[0] != "google"@[0]);
    assert("openai"@[0] != "local"@[0]);
    assert("anthropic"@[0] != "google"@[0]);
    assert("anthropic"@[0] != "local"@[0]);
    assert("google"@[0] != "local"@[0]);
}

/// Distinct providers are stored under distinct keychain accounts.
pub proof fn lemma_account_names_distinct(p: LlmProvider, q: LlmProvider)
    requires
        p != q,
    ensures
        p.account_name() != q.account_name(),
{
    reveal_strlit("openai_api_key");
    reveal_strlit("anthropic_api_key");
    reveal_strlit("google_api_key");
    reveal_strlit("local_api_key");
    assert(p.account_name()[0] != q.account_name()[0] || p.account_name().len()
        != q.account_name().len());
}

} // verus!
