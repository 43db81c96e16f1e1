//! Where provider secrets are kept, and the stores that keep them.
//!
//! A provider's secret lives under the fixed service name and the username
//! `provider:<uuid>`; the provider's configuration records this location as
//! `keyring://<service>/provider:<uuid>`. An in-memory store (for tests and
//! previews) is modelled exactly as a map from (service, username) to
//! secret; the operating-system keyring promises nothing the library could
//! state.

use vstd::prelude::*;
use crate::ids::{hyphenated, id_to_string, lemma_hyphenated_injective};
use crate::providers::config::ProviderConfig;
use crate::text::push_str;

verus! {

pub const SERVICE_NAME: &'static str = "com.tomd.designlanguageextractor";

#[verifier::external_type_specification]
#[verifier::external_body]
pub struct ExKeyringError(keyring::Error);

#[verifier::external_type_specification]
#[verifier::external_body]
pub struct ExKeyringEntry(keyring::Entry);

#[derive(Debug)]
pub enum CredentialStoreError {
    InvalidCredentialRef(String),
    CredentialAlreadyExists,
    CredentialNotFound,
    LockPoisoned,
    Keyring(keyring::Error),
}

/// The human-readable text of a credential store error.
pub open spec fn credential_error_message(e: CredentialStoreError) -> Seq<char> {
    match e {
        CredentialStoreError::InvalidCredentialRef(r) => "credential reference is invalid: "@ + r@,
        CredentialStoreError::CredentialAlreadyExists => "credential already exists"@,
        CredentialStoreError::CredentialNotFound => "credential was not found"@,
        CredentialStoreError::LockPoisoned => "credential store lock was poisoned"@,
        CredentialStoreError::Keyring(_) => "operating-system credential store failed"@,
    }
}

impl CredentialStoreError {
    pub fn message(&self) -> (s: String)
        ensures
            s@ == credential_error_message(*self),
    {
        let mut s = String::new();
        match self {
            CredentialStoreError::InvalidCredentialRef(r) => {
                push_str(&mut s, "credential reference is invalid: ");
                push_str(&mut s, r.as_str());
            },
            CredentialStoreError::CredentialAlreadyExists => push_str(
                &mut s,
                "credential already exists",
            ),
            CredentialStoreError::CredentialNotFound => push_str(&mut s, "credential was not found"),
            CredentialStoreError::LockPoisoned => push_str(
                &mut s,
                "credential store lock was poisoned",
            ),
            CredentialStoreError::Keyring(_) => push_str(
                &mut s,
                "operating-system credential store failed",
            ),
        }
        assert(s@ =~= credential_error_message(*self));
        s
    }
}

/// The key under which a secret is stored: service and username.
pub type SecretKey = (Seq<char>, Seq<char>);

/// What a store holds: a secret per key.
pub type SecretMap = Map<(Seq<char>, Seq<char>), Seq<char>>;

/// The secret stored under a key, if any.
pub open spec fn stored_secret(m: SecretMap, key: SecretKey) -> Option<Seq<char>> {
    if m.dom().contains(key) {
        Some(m[key])
    } else {
        None
    }
}

/// Something that keeps secrets.
///
/// `modelled()` says whether the store's behaviour is the map semantics
/// below; where it is not (the operating-system keyring), no promise is
/// made of any outcome.
pub trait CredentialStore {
    spec fn modelled() -> bool;

    /// The secrets held, for a modelled store.
    spec fn secrets(&self) -> SecretMap;

    /// Stores a secret under a new key; a key already in use is refused.
    fn create_secret(&mut self, service: &str, username: &str, secret: &str) -> (r: Result<
        (),
        CredentialStoreError,
    >)
        ensures
            Self::modelled() ==> {
                let key = (service@, username@);
                if old(self).secrets().dom().contains(key) {
                    &&& r matches Err(CredentialStoreError::CredentialAlreadyExists)
                    &&& final(self).secrets() == old(self).secrets()
                } else {
                    &&& r is Ok
                    &&& final(self).secrets() == old(self).secrets().insert(key, secret@)
                }
            },
    ;

    /// Replaces the secret under an existing key; a missing key is refused.
    fn replace_secret(&mut self, service: &str, username: &str, secret: &str) -> (r: Result<
        (),
        CredentialStoreError,
    >)
        ensures
            Self::modelled() ==> {
                let key = (service@, username@);
                if !old(self).secrets().dom().contains(key) {
                    &&& r matches Err(CredentialStoreError::CredentialNotFound)
                    &&& final(self).secrets() == old(self).secrets()
                } else {
                    &&& r is Ok
                    &&& final(self).secrets() == old(self).secrets().insert(key, secret@)
                }
            },
    ;

    /// The secret under a key, if one is stored.
    fn read_secret(&mut self, service: &str, username: &str) -> (r: Result<
        Option<String>,
        CredentialStoreError,
    >)
        ensures
            Self::modelled() ==> {
                &&& final(self).secrets() == old(self).secrets()
                &&& r matches Ok(s) && match s {
                    Some(t) => stored_secret(old(self).secrets(), (service@, username@)) == Some(
                        t@,
                    ),
                    None => stored_secret(old(self).secrets(), (service@, username@)) is None,
                }
            },
    ;

    /// Removes the secret under a key; removing a missing key succeeds.
    fn delete_secret(&mut self, service: &str, username: &str) -> (r: Result<
        (),
        CredentialStoreError,
    >)
        ensures
            Self::modelled() ==> {
                &&& r is Ok
                &&& final(self).secrets() == old(self).secrets().remove((service@, username@))
            },
    ;
}

// ----- the in-memory store -----

/// One stored secret.
#[derive(Debug, Clone)]
pub struct StoredSecret {
    pub service: String,
    pub username: String,
    pub secret: String,
}

pub open spec fn key_of(e: StoredSecret) -> SecretKey {
    (e.service@, e.username@)
}

/// The secret under `key`: that of the last entry with the key.
pub open spec fn lookup(es: Seq<StoredSecret>, key: SecretKey) -> Option<Seq<char>>
    decreases es.len(),
{
    if es.len() == 0 {
        None
    } else if key_of(es.last()) == key {
        Some(es.last().secret@)
    } else {
        lookup(es.drop_last(), key)
    }
}

/// The entries without those under `key`.
pub open spec fn without(es: Seq<StoredSecret>, key: SecretKey) -> Seq<StoredSecret>
    decreases es.len(),
{
    if es.len() == 0 {
        Seq::empty()
    } else if key_of(es.last()) == key {
        without(es.drop_last(), key)
    } else {
        without(es.drop_last(), key).push(es.last())
    }
}

/// The map the entries hold.
pub open spec fn entries_map(es: Seq<StoredSecret>) -> SecretMap {
    Map::new(|k: SecretKey| lookup(es, k) is Some, |k: SecretKey| lookup(es, k)->Some_0)
}

proof fn lemma_lookup_without(es: Seq<StoredSecret>, key: SecretKey, k: SecretKey)
    ensures
        lookup(without(es, key), k) == if k == key {
            None
        } else {
            lookup(es, k)
        },
    decreases es.len(),
{
    if es.len() > 0 {
        lemma_lookup_without(es.drop_last(), key, k);
        if key_of(es.last()) != key {
            assert(without(es, key).drop_last() =~= without(es.drop_last(), key));
        }
    }
}

/// Secrets kept in memory, for tests and for previews without a keyring.
#[derive(Debug, Clone)]
pub struct MemoryCredentialStore {
    entries: Vec<StoredSecret>,
}

impl MemoryCredentialStore {
    /// The secrets held.
    pub closed spec fn held(&self) -> SecretMap {
        entries_map(self.entries@)
    }

    /// An empty store.
    pub fn new() -> (s: Self)
        ensures
            s.held() == Map::<SecretKey, Seq<char>>::empty(),
    {
        let s = MemoryCredentialStore { entries: Vec::new() };
        assert(s.held() =~= Map::<SecretKey, Seq<char>>::empty());
        s
    }

    fn find(&self, service: &str, username: &str) -> (r: Option<String>)
        ensures
            match r {
                Some(t) => lookup(self.entries@, (service@, username@)) == Some(t@),
                None => lookup(self.entries@, (service@, username@)) is None,
            },
    {
        let s = service.to_owned();
        let u = username.to_owned();
        let ghost key = (service@, username@);
        let mut i: usize = self.entries.len();
        assert(self.entries@.take(i as int) =~= self.entries@);
        while i > 0
            invariant
                i <= self.entries@.len(),
                key == (s@, u@),
                key == (service@, username@),
                lookup(self.entries@, key) == lookup(self.entries@.take(i as int), key),
            decreases i,
        {
            let e = &self.entries[i - 1];
            assert(self.entries@.take(i as int).drop_last() =~= self.entries@.take(i - 1));
            if e.service == s && e.username == u {
                return Some(e.secret.clone());
            }
            i = i - 1;
        }
        None
    }

    fn remove_key(&mut self, service: &str, username: &str)
        ensures
            final(self).entries@ == without(old(self).entries@, (service@, username@)),
    {
        let s = service.to_owned();
        let u = username.to_owned();
        let ghost key = (service@, username@);
        let ghost es = self.entries@;
        let mut kept: Vec<StoredSecret> = Vec::new();
        let mut i: usize = 0;
        while i < self.entries.len()
            invariant
                i <= self.entries@.len(),
                es == self.entries@,
                key == (s@, u@),
                kept@ == without(es.take(i as int), key),
            decreases self.entries@.len() - i,
        {
            let e = &self.entries[i];
            assert(es.take(i + 1).drop_last() =~= es.take(i as int));
            if !(e.service == s && e.username == u) {
                kept.push(
                    StoredSecret {
                        service: e.service.clone(),
                        username: e.username.clone(),
                        secret: e.secret.clone(),
                    },
                );
                assert(kept@ =~= without(es.take(i + 1), key));
            }
            i = i + 1;
        }
        assert(es.take(es.len() as int) =~= es);
        self.entries = kept;
    }
}

impl CredentialStore for MemoryCredentialStore {
    open spec fn modelled() -> bool {
        true
    }

    open spec fn secrets(&self) -> SecretMap {
        self.held()
    }

    fn create_secret(&mut self, service: &str, username: &str, secret: &str) -> (r: Result<
        (),
        CredentialStoreError,
    >) {
        if self.find(service, username).is_some() {
            return Err(CredentialStoreError::CredentialAlreadyExists);
        }
        let ghost before = self.entries@;
        self.entries.push(
            StoredSecret {
                service: service.to_owned(),
                username: username.to_owned(),
                secret: secret.to_owned(),
            },
        );
        assert(self.entries@.drop_last() == before);
        assert(entries_map(self.entries@) =~= entries_map(before).insert(
            (service@, username@),
            secret@,
        ));
        Ok(())
    }

    fn replace_secret(&mut self, service: &str, username: &str, secret: &str) -> (r: Result<
        (),
        CredentialStoreError,
    >) {
        if self.find(service, username).is_none() {
            return Err(CredentialStoreError::CredentialNotFound);
        }
        let ghost before = self.entries@;
        let ghost key = (service@, username@);
        self.remove_key(service, username);
        let ghost middle = self.entries@;
        self.entries.push(
            StoredSecret {
                service: service.to_owned(),
                username: username.to_owned(),
                secret: secret.to_owned(),
            },
        );
        assert(self.entries@.drop_last() == middle);
        assert forall|k: SecretKey| #[trigger] lookup(self.entries@, k) == (if k == key {
            Some(secret@)
        } else {
            lookup(before, k)
        }) by {
            lemma_lookup_without(before, key, k);
        }
        assert(entries_map(self.entries@) =~= entries_map(before).insert(key, secret@));
        Ok(())
    }

    fn read_secret(&mut self, service: &str, username: &str) -> (r: Result<
        Option<String>,
        CredentialStoreError,
    >) {
        Ok(self.find(service, username))
    }

    fn delete_secret(&mut self, service: &str, username: &str) -> (r: Result<
        (),
        CredentialStoreError,
    >) {
        let ghost before = self.entries@;
        let ghost key = (service@, username@);
        self.remove_key(service, username);
        assert forall|k: SecretKey| #[trigger] lookup(self.entries@, k) == (if k == key {
            None
        } else {
            lookup(before, k)
        }) by {
            lemma_lookup_without(before, key, k);
        }
        assert(entries_map(self.entries@) =~= entries_map(before).remove(key));
        Ok(())
    }
}

impl Default for MemoryCredentialStore {
    fn default() -> (s: Self)
        ensures
            s.held() == Map::<SecretKey, Seq<char>>::empty(),
    {
        MemoryCredentialStore::new()
    }
}

// ----- the operating-system keyring -----

/// `keyring::Entry::new`: the platform entry for a service and user. What
/// comes back depends on the platform; nothing is promised.
#[verifier::external_body]
fn keyring_entry(service: &str, username: &str) -> Result<keyring::Entry, keyring::Error> {
    keyring::Entry::new(service, username)
}

/// `keyring::Entry::set_password`. Nothing is promised of the outcome.
#[verifier::external_body]
fn keyring_set_password(entry: &keyring::Entry, secret: &str) -> Result<(), keyring::Error> {
    entry.set_password(secret)
}

/// `keyring::Entry::get_password`. Nothing is promised of the outcome.
#[verifier::external_body]
fn keyring_get_password(entry: &keyring::Entry) -> Result<String, keyring::Error> {
    entry.get_password()
}

/// `keyring::Entry::delete_credential`. Nothing is promised of the outcome.
#[verifier::external_body]
fn keyring_delete_credential(entry: &keyring::Entry) -> Result<(), keyring::Error> {
    entry.delete_credential()
}

/// A keyring failure as the store tells it apart: no credential is stored
/// for the entry, or any other failure, kept as it came.
pub enum KeyringFailure {
    NoEntry,
    Other(keyring::Error),
}

/// Tells `keyring::Error::NoEntry` apart from every other keyring error.
/// The error is opaque here, so nothing is stated of which variant it is.
#[verifier::external_body]
fn keyring_failure(error: keyring::Error) -> KeyringFailure {
    match error {
        keyring::Error::NoEntry => KeyringFailure::NoEntry,
        other => KeyringFailure::Other(other),
    }
}

/// What a read answers for what the keyring gave back: the secret, `None`
/// for a missing entry, and the keyring's error for any other failure.
pub fn read_outcome(got: Result<String, KeyringFailure>) -> (r: Result<Option<String>, CredentialStoreError>)
    ensures
        match got {
            Ok(s) => r == Ok::<Option<String>, CredentialStoreError>(Some(s)),
            Err(KeyringFailure::NoEntry) => r == Ok::<Option<String>, CredentialStoreError>(None),
            Err(KeyringFailure::Other(e)) => r == Err::<Option<String>, CredentialStoreError>(
                CredentialStoreError::Keyring(e),
            ),
        },
{
    match got {
        Ok(s) => Ok(Some(s)),
        Err(KeyringFailure::NoEntry) => Ok(None),
        Err(KeyringFailure::Other(e)) => Err(CredentialStoreError::Keyring(e)),
    }
}

/// What a deletion answers for what the keyring gave back: success, also
/// when there was no entry to delete, and the keyring's error for any other
/// failure.
pub fn delete_outcome(got: Result<(), KeyringFailure>) -> (r: Result<(), CredentialStoreError>)
    ensures
        match got {
            Ok(()) => r is Ok,
            Err(KeyringFailure::NoEntry) => r is Ok,
            Err(KeyringFailure::Other(e)) => r == Err::<(), CredentialStoreError>(
                CredentialStoreError::Keyring(e),
            ),
        },
{
    match got {
        Ok(()) => Ok(()),
        Err(KeyringFailure::NoEntry) => Ok(()),
        Err(KeyringFailure::Other(e)) => Err(CredentialStoreError::Keyring(e)),
    }
}

/// A new secret may be stored only where none is: a secret already there is
/// refused as `CredentialAlreadyExists`.
pub fn create_allowed(existing: &Option<String>) -> (r: Result<(), CredentialStoreError>)
    ensures
        existing is Some ==> r matches Err(CredentialStoreError::CredentialAlreadyExists),
        existing is None ==> r is Ok,
{
    match existing {
        Some(_) => Err(CredentialStoreError::CredentialAlreadyExists),
        None => Ok(()),
    }
}

/// A secret may be replaced only where one is: a missing secret is refused
/// as `CredentialNotFound`.
pub fn replace_allowed(existing: &Option<String>) -> (r: Result<(), CredentialStoreError>)
    ensures
        existing is None ==> r matches Err(CredentialStoreError::CredentialNotFound),
        existing is Some ==> r is Ok,
{
    match existing {
        Some(_) => Ok(()),
        None => Err(CredentialStoreError::CredentialNotFound),
    }
}

/// The keyring's answer to a write, as the store reports it.
fn write_outcome(got: Result<(), keyring::Error>) -> (r: Result<(), CredentialStoreError>)
    ensures
        match got {
            Ok(()) => r is Ok,
            Err(e) => r == Err::<(), CredentialStoreError>(CredentialStoreError::Keyring(e)),
        },
{
    match got {
        Ok(()) => Ok(()),
        Err(e) => Err(CredentialStoreError::Keyring(e)),
    }
}

/// Secrets kept in the operating system's credential store.
#[derive(Debug, Clone, Copy)]
pub struct KeyringCredentialStore;

impl CredentialStore for KeyringCredentialStore {
    open spec fn modelled() -> bool {
        false
    }

    open spec fn secrets(&self) -> SecretMap {
        Map::empty()
    }

    /// Reads the entry first: a secret already there is refused
    /// (`create_allowed`); otherwise the secret is written. Every other
    /// failure is the keyring's own.
    fn create_secret(&mut self, service: &str, username: &str, secret: &str) -> (r: Result<
        (),
        CredentialStoreError,
    >)
        ensures
            r matches Err(e) ==> (e is CredentialAlreadyExists || e is Keyring),
    {
        let existing = self.read_secret(service, username)?;
        create_allowed(&existing)?;
        let entry = match keyring_entry(service, username) {
            Ok(entry) => entry,
            Err(e) => {
                return Err(CredentialStoreError::Keyring(e));
            },
        };
        write_outcome(keyring_set_password(&entry, secret))
    }

    /// Reads the entry first: a missing secret is refused
    /// (`replace_allowed`); otherwise the secret is written. Every other
    /// failure is the keyring's own.
    fn replace_secret(&mut self, service: &str, username: &str, secret: &str) -> (r: Result<
        (),
        CredentialStoreError,
    >)
        ensures
            r matches Err(e) ==> (e is CredentialNotFound || e is Keyring),
    {
        let existing = self.read_secret(service, username)?;
        replace_allowed(&existing)?;
        let entry = match keyring_entry(service, username) {
            Ok(entry) => entry,
            Err(e) => {
                return Err(CredentialStoreError::Keyring(e));
            },
        };
        write_outcome(keyring_set_password(&entry, secret))
    }

    /// Reads the entry and answers as `read_outcome` says: a missing entry
    /// reads as `None`; every failure is the keyring's own.
    fn read_secret(&mut self, service: &str, username: &str) -> (r: Result<
        Option<String>,
        CredentialStoreError,
    >)
        ensures
            r matches Err(e) ==> e is Keyring,
    {
        let entry = match keyring_entry(service, username) {
            Ok(entry) => entry,
            Err(e) => {
                return Err(CredentialStoreError::Keyring(e));
            },
        };
        let got = match keyring_get_password(&entry) {
            Ok(secret) => Ok(secret),
            Err(e) => Err(keyring_failure(e)),
        };
        read_outcome(got)
    }

    /// Deletes the entry and answers as `delete_outcome` says: deleting a
    /// missing entry succeeds; every failure is the keyring's own.
    fn delete_secret(&mut self, service: &str, username: &str) -> (r: Result<
        (),
        CredentialStoreError,
    >)
        ensures
            r matches Err(e) ==> e is Keyring,
    {
        let entry = match keyring_entry(service, username) {
            Ok(entry) => entry,
            Err(e) => {
                return Err(CredentialStoreError::Keyring(e));
            },
        };
        let got = match keyring_delete_credential(&entry) {
            Ok(()) => Ok(()),
            Err(e) => Err(keyring_failure(e)),
        };
        delete_outcome(got)
    }
}

// ----- provider secrets -----

/// The username a provider's secret is stored under.
pub open spec fn provider_username(id: u128) -> Seq<char> {
    "provider:"@ + hyphenated(id)
}

/// Where a provider's secret is stored.
pub open spec fn provider_key(id: u128) -> SecretKey {
    (SERVICE_NAME@, provider_username(id))
}

/// The credential reference recorded for a provider.
pub open spec fn provider_credential_ref(id: u128) -> Seq<char> {
    "keyring://"@ + SERVICE_NAME@ + "/"@ + provider_username(id)
}

/// A configuration's credential reference is the one for its provider.
pub open spec fn location_valid(config: ProviderConfig) -> bool {
    config.credential_ref@ == provider_credential_ref(config.id)
}

/// `e` reports the configuration's credential reference as invalid.
pub open spec fn is_invalid_ref_error(e: CredentialStoreError, config: ProviderConfig) -> bool {
    e matches CredentialStoreError::InvalidCredentialRef(r) && r@ == config.credential_ref@
}

fn username_for_provider(provider_id: u128) -> (s: String)
    ensures
        s@ == provider_username(provider_id),
{
    let mut s = "provider:".to_owned();
    push_str(&mut s, id_to_string(provider_id).as_str());
    s
}

/// The credential reference for a provider: `keyring://<service>/provider:<uuid>`.
pub fn credential_ref_for_provider(provider_id: u128) -> (s: String)
    ensures
        s@ == provider_credential_ref(provider_id),
{
    let mut s = "keyring://".to_owned();
    push_str(&mut s, SERVICE_NAME);
    push_str(&mut s, "/");
    push_str(&mut s, username_for_provider(provider_id).as_str());
    s
}

/// The username under which the configuration's secret is stored, when its
/// credential reference is the one for its provider.
fn credential_location(config: &ProviderConfig) -> (r: Result<String, CredentialStoreError>)
    ensures
        location_valid(*config) ==> (r matches Ok(u) && u@ == provider_username(config.id)),
        !location_valid(*config) ==> (r matches Err(e) && is_invalid_ref_error(e, *config)),
{
    let expected = credential_ref_for_provider(config.id);
    if config.credential_ref == expected {
        Ok(username_for_provider(config.id))
    } else {
        Err(CredentialStoreError::InvalidCredentialRef(config.credential_ref.clone()))
    }
}

/// Records the provider's credential reference in its configuration and
/// stores its secret, which must not be stored yet.
pub fn save_provider_with_store<S: CredentialStore>(
    store: &mut S,
    config: ProviderConfig,
    secret: &str,
) -> (r: Result<ProviderConfig, CredentialStoreError>)
    ensures
        r matches Ok(c) ==> {
            &&& c.credential_ref@ == provider_credential_ref(config.id)
            &&& c.id == config.id
            &&& c.name == config.name
            &&& c.kind == config.kind
            &&& c.base_url == config.base_url
            &&& c.model == config.model
        },
        S::modelled() ==> if old(store).secrets().dom().contains(provider_key(config.id)) {
            &&& r matches Err(CredentialStoreError::CredentialAlreadyExists)
            &&& final(store).secrets() == old(store).secrets()
        } else {
            &&& r is Ok
            &&& final(store).secrets() == old(store).secrets().insert(
                provider_key(config.id),
                secret@,
            )
        },
{
    let mut config = config;
    config.credential_ref = credential_ref_for_provider(config.id);
    let username = match credential_location(&config) {
        Ok(u) => u,
        Err(e) => {
            return Err(e);
        },
    };
    match store.create_secret(SERVICE_NAME, username.as_str(), secret) {
        Ok(()) => Ok(config),
        Err(e) => Err(e),
    }
}

/// Replaces the stored secret of a provider.
pub fn replace_provider_secret_with_store<S: CredentialStore>(
    store: &mut S,
    config: &ProviderConfig,
    secret: &str,
) -> (r: Result<(), CredentialStoreError>)
    ensures
        !location_valid(*config) ==> (r matches Err(e) && is_invalid_ref_error(e, *config))
            && *final(store) == *old(store),
        S::modelled() && location_valid(*config) ==> if !old(
            store,
        ).secrets().dom().contains(provider_key(config.id)) {
            &&& r matches Err(CredentialStoreError::CredentialNotFound)
            &&& final(store).secrets() == old(store).secrets()
        } else {
            &&& r is Ok
            &&& final(store).secrets() == old(store).secrets().insert(
                provider_key(config.id),
                secret@,
            )
        },
{
    let username = match credential_location(config) {
        Ok(u) => u,
        Err(e) => {
            return Err(e);
        },
    };
    store.replace_secret(SERVICE_NAME, username.as_str(), secret)
}

/// Reads the stored secret of a provider, if one is stored.
pub fn read_provider_secret_with_store<S: CredentialStore>(
    store: &mut S,
    config: &ProviderConfig,
) -> (r: Result<Option<String>, CredentialStoreError>)
    ensures
        !location_valid(*config) ==> (r matches Err(e) && is_invalid_ref_error(e, *config))
            && *final(store) == *old(store),
        S::modelled() && location_valid(*config) ==> {
            &&& final(store).secrets() == old(store).secrets()
            &&& r matches Ok(s) && match s {
                Some(t) => stored_secret(old(store).secrets(), provider_key(config.id)) == Some(
                    t@,
                ),
                None => stored_secret(old(store).secrets(), provider_key(config.id)) is None,
            }
        },
{
    let username = match credential_location(config) {
        Ok(u) => u,
        Err(e) => {
            return Err(e);
        },
    };
    store.read_secret(SERVICE_NAME, username.as_str())
}

/// Removes the stored secret of a provider; removing a missing one succeeds.
pub fn delete_provider_secret_with_store<S: CredentialStore>(
    store: &mut S,
    config: &ProviderConfig,
) -> (r: Result<(), CredentialStoreError>)
    ensures
        !location_valid(*config) ==> (r matches Err(e) && is_invalid_ref_error(e, *config))
            && *final(store) == *old(store),
        S::modelled() && location_valid(*config) ==> {
            &&& r is Ok
            &&& final(store).secrets() == old(store).secrets().remove(provider_key(config.id))
        },
{
    let username = match credential_location(config) {
        Ok(u) => u,
        Err(e) => {
            return Err(e);
        },
    };
    store.delete_secret(SERVICE_NAME, username.as_str())
}

// ----- laws -----

/// Reading a provider's secret gives back what was last written for it: a
/// secret stored by saving or replacing reads back as itself.
pub proof fn law_secret_reads_back(m: SecretMap, id: u128, secret: Seq<char>)
    ensures
        stored_secret(m.insert(provider_key(id), secret), provider_key(id)) == Some(secret),
{
}

/// After a provider's secret is deleted, reading it finds nothing.
pub proof fn law_deleted_secret_is_gone(m: SecretMap, id: u128)
    ensures
        stored_secret(m.remove(provider_key(id)), provider_key(id)) is None,
{
}

proof fn lemma_distinct_usernames(id: u128, other: u128)
    requires
        id != other,
    ensures
        provider_username(id) != provider_username(other),
        provider_credential_ref(id) != provider_credential_ref(other),
{
    let p = "provider:"@;
    let r = "keyring://"@ + SERVICE_NAME@ + "/"@;
    if provider_username(id) == provider_username(other) {
        assert(provider_username(id).skip(p.len() as int) =~= hyphenated(id));
        assert(provider_username(other).skip(p.len() as int) =~= hyphenated(other));
        lemma_hyphenated_injective(id, other);
    }
    if provider_credential_ref(id) == provider_credential_ref(other) {
        assert(provider_credential_ref(id) =~= r + provider_username(id));
        assert(provider_credential_ref(other) =~= r + provider_username(other));
        assert(provider_credential_ref(id).skip(r.len() as int) =~= provider_username(id));
        assert(provider_credential_ref(other).skip(r.len() as int) =~= provider_username(other));
    }
}

/// Distinct providers keep their secrets apart: they have distinct
/// credential references, and writing or deleting one provider's secret
/// leaves every other provider's secret as it was.
pub proof fn law_providers_kept_apart(m: SecretMap, id: u128, other: u128, secret: Seq<char>)
    requires
        id != other,
    ensures
        provider_credential_ref(id) != provider_credential_ref(other),
        stored_secret(m.insert(provider_key(id), secret), provider_key(other)) == stored_secret(
            m,
            provider_key(other),
        ),
        stored_secret(m.remove(provider_key(id)), provider_key(other)) == stored_secret(
            m,
            provider_key(other),
        ),
{
    lemma_distinct_usernames(id, other);
    assert(provider_key(id) != provider_key(other));
}

} // verus!
