//! API keys held in the OS keychain, one entry per provider.
use vstd::prelude::*;
use crate::text::{
    concat, owned, trimmed, is_blank, trim, all_white_space, starts_with, lemma_starts_with_concat,
    is_trimmed, lemma_trim_facts, lemma_trim_of_trimmed, lemma_trim_padded,
};
pub use crate::provider::LlmProvider;

verus! {

/// The keychain service under which every API key is stored.
pub const SERVICE_NAME: &'static str = "sentence_binder_secure_vault";

/// `keyring_core::Entry`, a handle on one credential of the default store.
#[verifier::external_type_specification]
#[verifier::external_body]
pub struct ExKeyringEntry(keyring_core::Entry);

/// `keyring_core::Error`, the failure of a keychain operation.
#[verifier::external_type_specification]
#[verifier::external_body]
pub struct ExKeyringError(keyring_core::Error);

/// A keychain failure as the credential logic sees it.
#[derive(Debug, Clone, PartialEq, Eq)]
pub enum KeychainFailure {
    /// The store holds no credential for the entry.
    NoEntry,
    /// Any other failure, with its description.
    Other(String),
}

/// Opens the entry for `service`/`user` in the default store (`keyring_core::Entry::new`).
/// Whether it succeeds depends on the process-wide default store, so nothing is promised.
#[verifier::external_body]
fn open_entry(service: &str, user: &str) -> (r: Result<keyring_core::Entry, keyring_core::Error>) {
    keyring_core::Entry::new(service, user)
}

/// Stores `password` as the entry's secret (`keyring_core::Entry::set_password`).
/// The outcome depends on the store, so nothing is promised. Only a validated key is
/// ever handed to it: one with no surrounding white space and not empty.
#[verifier::external_body]
fn store_password(entry: &keyring_core::Entry, password: &str) -> (r: Result<(), keyring_core::Error>)
    requires
        is_storable_key(password@),
{
    entry.set_password(password)
}

/// Reads the entry's secret (`keyring_core::Entry::get_password`).
/// The outcome depends on the store, so nothing is promised.
#[verifier::external_body]
fn read_password(entry: &keyring_core::Entry) -> (r: Result<String, keyring_core::Error>) {
    entry.get_password()
}

/// Deletes the entry's credential (`keyring_core::Entry::delete_credential`).
/// The outcome depends on the store, so nothing is promised.
#[verifier::external_body]
fn remove_credential(entry: &keyring_core::Entry) -> (r: Result<(), keyring_core::Error>) {
    entry.delete_credential()
}

/// Tells `keyring_core::Error::NoEntry` apart from the other variants, and keeps the
/// `Display` text (`<keyring_core::Error as Display>::fmt`) of the others. The error is
/// opaque here, so nothing is stated of the result.
#[verifier::external_body]
fn keychain_failure(e: keyring_core::Error) -> (f: KeychainFailure) {
    match e {
        keyring_core::Error::NoEntry => KeychainFailure::NoEntry,
        other => KeychainFailure::Other(other.to_string()),
    }
}

impl KeychainFailure {
    /// The text of this failure.
    pub open spec fn description(&self) -> Seq<char> {
        match self {
            KeychainFailure::NoEntry => "No matching credential found"@,
            KeychainFailure::Other(m) => m@,
        }
    }

    /// The text of this failure.
    pub fn to_string(&self) -> (s: String)
        ensures
            s@ == self.description(),
    {
        match self {
            KeychainFailure::NoEntry => owned("No matching credential found"),
            KeychainFailure::Other(m) => owned(m.as_str()),
        }
    }
}

/// A credential operation failed; the text says why.
#[derive(Debug, Clone, PartialEq, Eq)]
pub struct CredentialError(pub String);

impl CredentialError {
    /// The text this error is shown with.
    pub fn to_string(&self) -> (s: String)
        ensures
            s@ == self.0@,
    {
        owned(self.0.as_str())
    }
}

/// A key as the keychain may hold it: not empty, and with no white space around it.
pub open spec fn is_storable_key(k: Seq<char>) -> bool {
    k.len() > 0 && is_trimmed(k)
}

/// What a key is stored as: exactly the key without its surrounding white space, and
/// only when something else is left. A key that was already stored validates to itself,
/// and white space added around a key changes nothing of what is stored.
pub proof fn lemma_validated_key_is_storable(key: Seq<char>, pad_front: Seq<char>, pad_back: Seq<char>)
    requires
        all_white_space(pad_front),
        all_white_space(pad_back),
    ensures
        !all_white_space(key) <==> is_storable_key(trim(key)),
        is_storable_key(key) ==> trim(key) == key,
        trim(pad_front + key + pad_back) == trim(key),
{
    lemma_trim_facts(key);
    if is_storable_key(key) {
        lemma_trim_of_trimmed(key);
    }
    lemma_trim_padded(key, pad_front, pad_back);
}

/// The text of the error for a blank API key.
pub open spec fn empty_key_message() -> Seq<char> {
    "API key cannot be empty"@
}

/// `failure` described after `prefix`.
pub open spec fn described(prefix: Seq<char>, failure: KeychainFailure) -> Seq<char> {
    prefix + failure.description()
}

fn credential_error(prefix: &str, failure: &KeychainFailure) -> (e: CredentialError)
    ensures
        e.0@ == described(prefix@, *failure),
{
    let d = failure.to_string();
    CredentialError(concat(prefix, d.as_str()))
}

/// The key to store: `key` trimmed, or an error when nothing but white space is left.
pub fn validated_api_key(key: &str) -> (r: Result<String, CredentialError>)
    ensures
        r is Ok <==> !all_white_space(key@),
        r matches Ok(k) ==> k@ == trim(key@),
        r matches Err(e) ==> e.0@ == empty_key_message(),
{
    if is_blank(key) {
        return Err(CredentialError(owned("API key cannot be empty")));
    }
    Ok(trimmed(key))
}

/// The outcome of storing a key: `Ok` when the store took it.
pub fn settle_save(
    opened: Result<(), KeychainFailure>,
    stored: Result<(), KeychainFailure>,
) -> (r: Result<(), CredentialError>)
    ensures
        r is Ok <==> opened is Ok && stored is Ok,
        opened matches Err(f) ==> (r matches Err(e) && e.0@ == described(
            "Keychain access failed: "@,
            f,
        )),
        opened is Ok ==> (stored matches Err(f) ==> (r matches Err(e) && e.0@ == described(
            "Failed to save key: "@,
            f,
        ))),
{
    match opened {
        Err(f) => Err(credential_error("Keychain access failed: ", &f)),
        Ok(()) => match stored {
            Err(f) => Err(credential_error("Failed to save key: ", &f)),
            Ok(()) => Ok(()),
        },
    }
}

/// Whether a key exists, from the outcome of reading it back: a missing entry is `false`.
pub fn settle_lookup(read: Result<String, KeychainFailure>) -> (r: Result<bool, CredentialError>)
    ensures
        read is Ok ==> r == Ok::<bool, CredentialError>(true),
        read matches Err(KeychainFailure::NoEntry) ==> r == Ok::<bool, CredentialError>(false),
        read matches Err(KeychainFailure::Other(m)) ==> (r matches Err(e) && e.0@
            == "Keychain error: "@ + m@),
{
    match read {
        Ok(_secret) => Ok(true),
        Err(KeychainFailure::NoEntry) => Ok(false),
        Err(f) => Err(credential_error("Keychain error: ", &f)),
    }
}

/// The outcome of deleting a key: deleting a missing key succeeds too.
pub fn settle_delete(removed: Result<(), KeychainFailure>) -> (r: Result<(), CredentialError>)
    ensures
        r is Ok <==> (removed is Ok || removed matches Err(KeychainFailure::NoEntry)),
        removed matches Err(KeychainFailure::Other(m)) ==> (r matches Err(e) && e.0@
            == "Failed to delete key: "@ + m@),
{
    match removed {
        Ok(()) => Ok(()),
        Err(KeychainFailure::NoEntry) => Ok(()),
        Err(f) => Err(credential_error("Failed to delete key: ", &f)),
    }
}

fn entry_for(provider: LlmProvider) -> (r: Result<keyring_core::Entry, KeychainFailure>) {
    match open_entry(SERVICE_NAME, provider.as_str()) {
        Ok(entry) => Ok(entry),
        Err(e) => Err(keychain_failure(e)),
    }
}

/// Saves the API key to the keychain under `SERVICE_NAME` and the provider's account.
///
/// Fails without touching the keychain when the key is blank; otherwise it fails only
/// when the keychain does, with the keychain's reason after a prefix naming the step.
pub fn save_key(provider: LlmProvider, key: &str) -> (r: Result<(), CredentialError>)
    ensures
        all_white_space(key@) ==> (r matches Err(e) && e.0@ == empty_key_message()),
        !all_white_space(key@) ==> (r matches Err(e) ==> starts_with(
            e.0@,
            "Keychain access failed: "@,
        ) || starts_with(e.0@, "Failed to save key: "@)),
{
    let ghost raw = key@;
    let key = match validated_api_key(key) {
        Ok(k) => k,
        Err(e) => return Err(e),
    };
    let entry = match entry_for(provider) {
        Ok(entry) => entry,
        Err(f) => {
            let r = settle_save(Err(f), Ok(()));
            proof {
                lemma_starts_with_concat("Keychain access failed: "@, f.description());
            }
            return r;
        },
    };
    proof {
        lemma_trim_facts(raw);
    }
    let stored = match store_password(&entry, key.as_str()) {
        Ok(()) => Ok(()),
        Err(e) => Err(keychain_failure(e)),
    };
    proof {
        if let Err(ref f) = stored {
            lemma_starts_with_concat("Failed to save key: "@, f.description());
        }
    }
    settle_save(Ok(()), stored)
}

/// Whether the entry holds a secret; the secret itself is dropped at once.
fn entry_exists(entry: &keyring_core::Entry) -> (r: Result<bool, CredentialError>)
    ensures
        r matches Err(e) ==> starts_with(e.0@, "Keychain error: "@),
{
    let read = match read_password(entry) {
        Ok(secret) => Ok(secret),
        Err(e) => Err(keychain_failure(e)),
    };
    proof {
        if let Err(KeychainFailure::Other(ref m)) = read {
            lemma_starts_with_concat("Keychain error: "@, m@);
        }
    }
    settle_lookup(read)
}

/// Whether an API key exists for the provider, without handing out the secret.
///
/// `Ok(false)` when the keychain confirms that there is none.
pub fn has_key(provider: LlmProvider) -> (r: Result<bool, CredentialError>)
    ensures
        r matches Err(e) ==> starts_with(e.0@, "Keychain access failed: "@) || starts_with(
            e.0@,
            "Keychain error: "@,
        ),
{
    match entry_for(provider) {
        Ok(entry) => entry_exists(&entry),
        Err(f) => {
            proof {
                lemma_starts_with_concat("Keychain access failed: "@, f.description());
            }
            Err(credential_error("Keychain access failed: ", &f))
        },
    }
}

/// Deletes the provider's API key from the keychain.
///
/// Idempotent: succeeds as well when there was no key to delete.
pub fn delete_key(provider: LlmProvider) -> (r: Result<(), CredentialError>)
    ensures
        r matches Err(e) ==> starts_with(e.0@, "Keychain access failed: "@) || starts_with(
            e.0@,
            "Failed to delete key: "@,
        ),
{
    match entry_for(provider) {
        Ok(entry) => {
            let removed = match remove_credential(&entry) {
                Ok(()) => Ok(()),
                Err(e) => Err(keychain_failure(e)),
            };
            proof {
                if let Err(KeychainFailure::Other(ref m)) = removed {
                    lemma_starts_with_concat("Failed to delete key: "@, m@);
                }
            }
            settle_delete(removed)
        },
        Err(f) => {
            proof {
                lemma_starts_with_concat("Keychain access failed: "@, f.description());
            }
            Err(credential_error("Keychain access failed: ", &f))
        },
    }
}

} // verus!
