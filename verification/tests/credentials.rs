use sentence_binder::credential_commands::{
    parse_provider, CredentialOutcome, CredentialsState, CIRCUIT_BREAKER_TIMEOUT_THRESHOLD,
};
use sentence_binder::credentials::{
    delete_key, has_key, save_key, settle_delete, settle_lookup, settle_save, validated_api_key,
    CredentialError, KeychainFailure, LlmProvider,
};
use sentence_binder::error::AppError;

#[test]
fn test_provider_string_mapping() {
    assert_eq!(LlmProvider::from_str("openai"), Some(LlmProvider::OpenAi));
    assert_eq!(
        LlmProvider::from_str("anthropic"),
        Some(LlmProvider::Anthropic)
    );
    assert_eq!(LlmProvider::from_str("google"), Some(LlmProvider::Google));
    assert_eq!(LlmProvider::from_str("local"), Some(LlmProvider::Local));
    assert_eq!(LlmProvider::from_str("invalid"), None);

    assert_eq!(LlmProvider::OpenAi.as_str(), "openai_api_key");
    assert_eq!(LlmProvider::Anthropic.as_str(), "anthropic_api_key");
    assert_eq!(LlmProvider::Google.as_str(), "google_api_key");
    assert_eq!(LlmProvider::Local.as_str(), "local_api_key");
}

#[test]
fn provider_identifiers_are_case_sensitive_and_exact() {
    assert_eq!(LlmProvider::from_str("OpenAI"), None);
    assert_eq!(LlmProvider::from_str(" openai"), None);
    assert_eq!(LlmProvider::from_str(""), None);
}

#[test]
fn test_empty_key_rejection() {
    let result = save_key(LlmProvider::Local, "   ");
    assert!(result.is_err());
    assert_eq!(result.unwrap_err().to_string(), "API key cannot be empty");
}

#[test]
fn validated_key_is_trimmed() {
    assert_eq!(validated_api_key("  sk-123 \n"), Ok("sk-123".to_string()));
    assert_eq!(
        validated_api_key("\t"),
        Err(CredentialError("API key cannot be empty".to_string()))
    );
}

/// The only test that touches the process-wide default store, so that tests running in
/// parallel cannot see each other's store.
#[test]
fn keychain_round_trip_with_mock_store() {
    keyring_core::unset_default_store();
    let err = has_key(LlmProvider::Local).unwrap_err();
    assert!(err.to_string().starts_with("Keychain access failed: "));

    keyring_core::set_default_store(keyring_core::mock::Store::new().unwrap());

    assert_eq!(has_key(LlmProvider::Google), Ok(false));
    assert!(save_key(LlmProvider::Google, "  secret-value ").is_ok());
    assert_eq!(has_key(LlmProvider::Google), Ok(true));
    assert_eq!(has_key(LlmProvider::Anthropic), Ok(false));
    assert!(delete_key(LlmProvider::Google).is_ok());
    assert_eq!(has_key(LlmProvider::Google), Ok(false));
    // Deleting again is fine: the operation is idempotent.
    assert!(delete_key(LlmProvider::Google).is_ok());
}

#[test]
fn keychain_failure_outcomes_are_reported() {
    assert_eq!(
        settle_save(Err(KeychainFailure::Other("locked".to_string())), Ok(())),
        Err(CredentialError("Keychain access failed: locked".to_string()))
    );
    assert_eq!(
        settle_save(Ok(()), Err(KeychainFailure::Other("denied".to_string()))),
        Err(CredentialError("Failed to save key: denied".to_string()))
    );
    assert_eq!(settle_save(Ok(()), Ok(())), Ok(()));
    assert_eq!(settle_lookup(Ok("s".to_string())), Ok(true));
    assert_eq!(settle_lookup(Err(KeychainFailure::NoEntry)), Ok(false));
    assert_eq!(
        settle_lookup(Err(KeychainFailure::Other("boom".to_string()))),
        Err(CredentialError("Keychain error: boom".to_string()))
    );
    assert_eq!(settle_delete(Ok(())), Ok(()));
    assert_eq!(settle_delete(Err(KeychainFailure::NoEntry)), Ok(()));
    assert_eq!(
        settle_delete(Err(KeychainFailure::Other("busy".to_string()))),
        Err(CredentialError("Failed to delete key: busy".to_string()))
    );
}

#[test]
fn parse_provider_rejects_unknown_names() {
    assert_eq!(parse_provider("anthropic"), Ok(LlmProvider::Anthropic));
    assert_eq!(
        parse_provider("mistral"),
        Err(AppError::Validation("Invalid provider specified".to_string()))
    );
}

#[test]
fn unavailable_keychain_refuses_requests() {
    let state = CredentialsState::new(false);
    assert_eq!(
        state.ensure_available(),
        Err(AppError::Credential("Keychain unavailable".to_string()))
    );
    assert_eq!(
        state.provider_request("openai"),
        Err(AppError::Credential("Keychain unavailable".to_string()))
    );
}

#[test]
fn save_request_checks_key_before_provider() {
    let state = CredentialsState::new(true);
    assert_eq!(
        state.save_api_key_request("nope", "  "),
        Err(AppError::Validation("API key cannot be empty".to_string()))
    );
    assert_eq!(
        state.save_api_key_request("nope", "k"),
        Err(AppError::Validation("Invalid provider specified".to_string()))
    );
    assert_eq!(
        state.save_api_key_request("local", "  k1 "),
        Ok((LlmProvider::Local, "k1".to_string()))
    );
}

#[test]
fn circuit_breaker_opens_after_three_timeouts_and_closes_on_completion() {
    let mut state = CredentialsState::new(true);
    for _ in 0..CIRCUIT_BREAKER_TIMEOUT_THRESHOLD {
        assert!(state.ensure_available().is_ok());
        let r: Result<(), AppError> = state.settle(CredentialOutcome::TimedOut);
        assert_eq!(
            r,
            Err(AppError::Credential("Credential operation timed out".to_string()))
        );
    }
    assert_eq!(state.consecutive_timeouts, 3);
    assert!(state.ensure_available().is_err());

    let r: Result<bool, AppError> = state.settle(CredentialOutcome::JoinFailed);
    assert_eq!(r, Err(AppError::Internal("Internal error".to_string())));
    assert_eq!(state.consecutive_timeouts, 3);

    let r: Result<bool, AppError> =
        state.settle(CredentialOutcome::Finished(Err(CredentialError("x".to_string()))));
    assert_eq!(
        r,
        Err(AppError::Credential("Credential operation failed".to_string()))
    );
    assert_eq!(state.consecutive_timeouts, 0);
    assert!(state.ensure_available().is_ok());

    let r = state.settle(CredentialOutcome::Finished(Ok(true)));
    assert_eq!(r, Ok(true));
}
