//! The rules around credential commands: availability, the timeout circuit breaker,
//! request validation and how an operation's outcome is reported.
use vstd::prelude::*;
use crate::credentials::CredentialError;
use crate::error::AppError;
use crate::provider::LlmProvider;
use crate::text::{owned, trimmed, is_blank, trim, all_white_space};

verus! {

/// Consecutive keychain timeouts after which credential operations are refused.
pub const CIRCUIT_BREAKER_TIMEOUT_THRESHOLD: usize = 3;

/// Whether credential operations may run, and the current streak of keychain timeouts.
pub struct CredentialsState {
    /// Set at startup when the OS keychain could be initialized.
    pub available: bool,
    /// Timeouts in a row; cleared by any operation that completes.
    pub consecutive_timeouts: usize,
}

/// How a credential operation that ran on a worker ended.
pub enum CredentialOutcome<T> {
    /// It did not finish in time and was abandoned.
    TimedOut,
    /// The worker running it failed.
    JoinFailed,
    /// It finished, with the keychain's result.
    Finished(Result<T, CredentialError>),
}

/// The text shown when the keychain cannot be used.
pub open spec fn keychain_unavailable() -> Seq<char> {
    "Keychain unavailable"@
}

impl CredentialsState {
    /// Operations may run: the keychain initialized and the breaker is closed.
    pub open spec fn accepts_operations(&self) -> bool {
        self.available && self.consecutive_timeouts < CIRCUIT_BREAKER_TIMEOUT_THRESHOLD
    }

    /// The timeout streak after an operation ended with `outcome`.
    pub open spec fn streak_after<T>(&self, outcome: CredentialOutcome<T>) -> usize {
        match outcome {
            CredentialOutcome::TimedOut => (if self.consecutive_timeouts == usize::MAX {
                0
            } else {
                self.consecutive_timeouts + 1
            }) as usize,
            CredentialOutcome::JoinFailed => self.consecutive_timeouts,
            CredentialOutcome::Finished(_) => 0,
        }
    }

    /// A fresh state: no timeouts yet.
    pub fn new(available: bool) -> (s: Self)
        ensures
            s.available == available,
            s.consecutive_timeouts == 0,
    {
        CredentialsState { available, consecutive_timeouts: 0 }
    }

    /// Refuses when the keychain is unavailable or the circuit breaker is open.
    pub fn ensure_available(&self) -> (r: Result<(), AppError>)
        ensures
            r is Ok <==> self.accepts_operations(),
            r matches Err(e) ==> (e matches AppError::Credential(m) && m@ == keychain_unavailable()),
    {
        if !self.available {
            return Err(AppError::Credential(owned("Keychain unavailable")));
        }
        if self.consecutive_timeouts >= CIRCUIT_BREAKER_TIMEOUT_THRESHOLD {
            return Err(AppError::Credential(owned("Keychain unavailable")));
        }
        Ok(())
    }

    /// Records how an operation ended and turns it into the command's answer.
    ///
    /// A timeout extends the streak; a finished operation, failed or not, clears it;
    /// a failed worker leaves it as it was.
    pub fn settle<T>(&mut self, outcome: CredentialOutcome<T>) -> (r: Result<T, AppError>)
        ensures
            final(self).available == old(self).available,
            final(self).consecutive_timeouts == old(self).streak_after(outcome),
            outcome is TimedOut ==> (r matches Err(AppError::Credential(m))
                && m@ == "Credential operation timed out"@),
            outcome is JoinFailed ==> (r matches Err(AppError::Internal(m)) && m@
                == "Internal error"@),
            outcome matches CredentialOutcome::Finished(Ok(v)) ==> r == Ok::<T, AppError>(v),
            outcome matches CredentialOutcome::Finished(Err(_)) ==> (r matches Err(
                AppError::Credential(m),
            ) && m@ == "Credential operation failed"@),
    {
        match outcome {
            CredentialOutcome::TimedOut => {
                self.consecutive_timeouts = self.consecutive_timeouts.wrapping_add(1);
                Err(AppError::Credential(owned("Credential operation timed out")))
            },
            CredentialOutcome::JoinFailed => Err(AppError::Internal(owned("Internal error"))),
            CredentialOutcome::Finished(result) => {
                self.consecutive_timeouts = 0;
                match result {
                    Ok(v) => Ok(v),
                    Err(_) => Err(AppError::Credential(owned("Credential operation failed"))),
                }
            },
        }
    }

    /// Checks a request to save `key` for `provider`: availability first, then a
    /// non-blank key, then a known provider. Gives the provider and the trimmed key.
    pub fn save_api_key_request(&self, provider: &str, key: &str) -> (r: Result<
        (LlmProvider, String),
        AppError,
    >)
        ensures
            !self.accepts_operations() ==> (r matches Err(AppError::Credential(m)) && m@
                == keychain_unavailable()),
            self.accepts_operations() && all_white_space(key@) ==> (r matches Err(
                AppError::Validation(m),
            ) && m@ == "API key cannot be empty"@),
            self.accepts_operations() && !all_white_space(key@) && LlmProvider::parse(
                provider@,
            ) is None ==> (r matches Err(AppError::Validation(m)) && m@
                == "Invalid provider specified"@),
            r is Ok <==> self.accepts_operations() && !all_white_space(key@) && LlmProvider::parse(
                provider@,
            ) is Some,
            r matches Ok((p, k)) ==> Some(p) == LlmProvider::parse(provider@) && k@ == trim(key@),
    {
        match self.ensure_available() {
            Ok(()) => {},
            Err(e) => return Err(e),
        }
        if is_blank(key) {
            return Err(AppError::Validation(owned("API key cannot be empty")));
        }
        let key = trimmed(key);
        match parse_provider(provider) {
            Ok(p) => Ok((p, key)),
            Err(e) => Err(e),
        }
    }

    /// Checks a request that names only a provider (checking or deleting its key).
    pub fn provider_request(&self, provider: &str) -> (r: Result<LlmProvider, AppError>)
        ensures
            !self.accepts_operations() ==> (r matches Err(AppError::Credential(m)) && m@
                == keychain_unavailable()),
            self.accepts_operations() && LlmProvider::parse(provider@) is None ==> (r matches Err(
                AppError::Validation(m),
            ) && m@ == "Invalid provider specified"@),
            r is Ok <==> self.accepts_operations() && LlmProvider::parse(provider@) is Some,
            r matches Ok(p) ==> Some(p) == LlmProvider::parse(provider@),
    {
        match self.ensure_available() {
            Ok(()) => {},
            Err(e) => return Err(e),
        }
        parse_provider(provider)
    }
}

/// Parses a provider identifier coming from the frontend.
pub fn parse_provider(provider: &str) -> (r: Result<LlmProvider, AppError>)
    ensures
        r is Ok <==> LlmProvider::parse(provider@) is Some,
        r matches Ok(p) ==> Some(p) == LlmProvider::parse(provider@),
        r matches Err(e) ==> (e matches AppError::Validation(m) && m@
            == "Invalid provider specified"@),
{
    match LlmProvider::from_str(provider) {
        Some(p) => Ok(p),
        None => Err(AppError::Validation(owned("Invalid provider specified"))),
    }
}

/// Three timeouts in a row open the circuit breaker, whatever the streak was before.
pub proof fn lemma_three_timeouts_open_breaker(s: CredentialsState)
    requires
        s.consecutive_timeouts <= usize::MAX - 3,
    ensures
        ({
            let s1 = CredentialsState {
                consecutive_timeouts: s.streak_after(CredentialOutcome::<()>::TimedOut),
                ..s
            };
            let s2 = CredentialsState {
                consecutive_timeouts: s1.streak_after(CredentialOutcome::<()>::TimedOut),
                ..s1
            };
            let s3 = CredentialsState {
                consecutive_timeouts: s2.streak_after(CredentialOutcome::<()>::TimedOut),
                ..s2
            };
            !s3.accepts_operations()
        }),
{
}

/// Any operation that finishes closes the breaker again, if the keychain is available.
pub proof fn lemma_finish_closes_breaker<T>(s: CredentialsState, result: Result<T, CredentialError>)
    requires
        s.available,
    ensures
        (CredentialsState {
            consecutive_timeouts: s.streak_after(CredentialOutcome::Finished(result)),
            ..s
        }).accepts_operations(),
{
}

} // verus!
